//! Filename derivation: a filesystem-safe name built from the case-folded
//! first words of the title plus the post's identifier header.

use vstd::prelude::*;

use crate::file::{has_key, header_value, File};
use crate::header::HeaderView;
use crate::strutil::{join_strings, join_with, lower_of, lowercase, split_on, split_str};

verus! {

/// Whether the title header is present with at least `n` space-separated
/// words.
pub open spec fn has_title_words(headers: Seq<HeaderView>, n: int) -> bool {
    has_key(headers, "title"@) && split_on(header_value(headers, "title"@), ' ').len() >= n
}

/// The first `n` words of the title, hyphen-joined and case-folded: the base
/// of a derived filename. A word boundary is a single space character.
pub open spec fn hyphenated_title_spec(headers: Seq<HeaderView>, n: int) -> Seq<char> {
    lower_of(join_with(split_on(header_value(headers, "title"@), ' ').take(n), seq!['-']))
}

/// The filename under which the rendered form of the post is stored.
pub open spec fn long_rendered_filename_spec(headers: Seq<HeaderView>) -> Seq<char> {
    hyphenated_title_spec(headers, 3) + "-"@ + header_value(headers, "id"@) + ".html"@
}

/// The filename under which the post's source is stored.
pub open spec fn suggested_source_filename_spec(headers: Seq<HeaderView>) -> Seq<char> {
    hyphenated_title_spec(headers, 3) + "-"@ + header_value(headers, "id"@) + ".reb"@
}

impl File {
    /// The first `n` words of the title value, hyphen-joined and case-folded.
    fn hyphenated_title_for_filename(&self, n: usize) -> (r: String)
        requires
            has_title_words(self@.headers, n as int),
        ensures
            r@ == hyphenated_title_spec(self@.headers, n as int),
    {
        let title = self.get_header("title").unwrap();
        let words = split_str(title.as_str(), ' ');
        let mut first: Vec<String> = Vec::new();
        let mut i: usize = 0;
        proof {
            assert(first@ =~= words@.take(0));
        }
        while i < n
            invariant
                0 <= i <= n,
                n <= words@.len(),
                words@.map_values(|w: String| w@) == split_on(
                    header_value(self@.headers, "title"@),
                    ' ',
                ),
                first@ == words@.take(i as int),
            decreases n - i,
        {
            first.push(words[i].clone());
            proof {
                assert(first@ =~= words@.take(i as int + 1));
            }
            i = i + 1;
        }
        let joined = join_strings(&first, "-");
        proof {
            reveal_strlit("-");
            assert("-"@ =~= seq!['-']);
            assert(first@.map_values(|w: String| w@) =~= words@.map_values(|w: String| w@).take(
                n as int,
            ));
        }
        lowercase(joined.as_str())
    }

    /// The filename for the rendered form of this post:
    /// `{first-three-title-words}-{id}.html`, the title part case-folded.
    /// Assumes that required-header validation already passed: the title must
    /// have at least three words and the id header must be present.
    pub fn get_long_rendered_filename(&self) -> (r: String)
        requires
            has_title_words(self@.headers, 3),
            has_key(self@.headers, "id"@),
        ensures
            r@ == long_rendered_filename_spec(self@.headers),
    {
        let mut s = self.hyphenated_title_for_filename(3);
        s.append("-");
        let id = self.get_header("id").unwrap();
        s.append(id.as_str());
        s.append(".html");
        s
    }

    /// The filename for this post's source:
    /// `{first-three-title-words}-{id}.reb`, the title part case-folded.
    /// Assumes, as `get_long_rendered_filename` does, that the title has at
    /// least three words and that the id header is present.
    pub fn get_suggested_source_filename(&self) -> (r: String)
        requires
            has_title_words(self@.headers, 3),
            has_key(self@.headers, "id"@),
        ensures
            r@ == suggested_source_filename_spec(self@.headers),
    {
        let mut s = self.hyphenated_title_for_filename(3);
        s.append("-");
        let id = self.get_header("id").unwrap();
        s.append(id.as_str());
        s.append(".reb");
        s
    }

    /// Derive the rendered filename after checking that it can be derived:
    /// a name comes back exactly when the title header is present with at
    /// least three words and the id header is present.
    pub fn try_long_rendered_filename(&self) -> (r: Option<String>)
        ensures
            match r {
                Some(f) => has_title_words(self@.headers, 3) && has_key(self@.headers, "id"@)
                    && f@ == long_rendered_filename_spec(self@.headers),
                None => !(has_title_words(self@.headers, 3) && has_key(self@.headers, "id"@)),
            },
    {
        if !self.has_header("id") {
            return None;
        }
        match self.get_header("title") {
            None => None,
            Some(title) => {
                let words = split_str(title.as_str(), ' ');
                if words.len() < 3 {
                    return None;
                }
                Some(self.get_long_rendered_filename())
            },
        }
    }

    /// Derive the source filename after checking that it can be derived,
    /// under the same conditions as `try_long_rendered_filename`.
    pub fn try_suggested_source_filename(&self) -> (r: Option<String>)
        ensures
            match r {
                Some(f) => has_title_words(self@.headers, 3) && has_key(self@.headers, "id"@)
                    && f@ == suggested_source_filename_spec(self@.headers),
                None => !(has_title_words(self@.headers, 3) && has_key(self@.headers, "id"@)),
            },
    {
        if !self.has_header("id") {
            return None;
        }
        match self.get_header("title") {
            None => None,
            Some(title) => {
                let words = split_str(title.as_str(), ' ');
                if words.len() < 3 {
                    return None;
                }
                Some(self.get_suggested_source_filename())
            },
        }
    }
}

} // verus!
