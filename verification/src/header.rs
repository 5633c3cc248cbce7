//! One `key: value` metadata entry and the rule that recognizes it in a
//! line of text.

use vstd::prelude::*;

use crate::error::PostParseError;
use crate::strutil::{
    find_char, find_char_in, is_space_char, lemma_find_char, lemma_find_char_concat,
    lemma_trimmed_fixpoint, trim, trim_spec, trim_start_spec,
};

verus! {

/// The ghost form of a header entry: the original line and the trimmed key
/// and value.
#[verifier::ext_equal]
pub ghost struct HeaderView {
    pub text: Seq<char>,
    pub key: Seq<char>,
    pub value: Seq<char>,
}

/// One recognized metadata entry. Constructed only by `HeaderLine::new`,
/// which guarantees that `key` and `value` are trimmed and non-empty.
#[derive(Debug)]
pub struct HeaderLine {
    /// The line exactly as it was given, untrimmed.
    pub text: String,
    /// The part before the first colon, trimmed, case preserved.
    pub key: String,
    /// The part after the first colon, trimmed; later colons belong to it.
    pub value: String,
}

impl View for HeaderLine {
    type V = HeaderView;

    open spec fn view(&self) -> HeaderView {
        HeaderView { text: self.text@, key: self.key@, value: self.value@ }
    }
}

/// The candidate key of a line: everything before the first colon.
pub open spec fn header_key_part(line: Seq<char>) -> Seq<char> {
    line.take(find_char(line, ':'))
}

/// The candidate value of a line: everything after the first colon.
pub open spec fn header_value_part(line: Seq<char>) -> Seq<char> {
    line.skip(find_char(line, ':') + 1)
}

/// What parsing one line yields: the trimmed key and value split at the
/// first colon, or nothing when the line has no colon or either side trims
/// to empty.
pub open spec fn parse_header_spec(line: Seq<char>) -> Option<(Seq<char>, Seq<char>)> {
    if find_char(line, ':') >= line.len() {
        None
    } else {
        let k = trim_spec(header_key_part(line));
        let v = trim_spec(header_value_part(line));
        if k.len() == 0 || v.len() == 0 {
            None
        } else {
            Some((k, v))
        }
    }
}

impl HeaderLine {
    /// The invariant every constructed header satisfies: it is exactly what
    /// parsing its own raw text yields, so its key and value are trimmed and
    /// non-empty, and its key is what stands before the first colon.
    pub open spec fn wf(self) -> bool {
        parse_header_spec(self.text@) == Some((self.key@, self.value@))
    }

    /// Split the line at its first colon and trim both sides. Fails with
    /// `NotAHeader` carrying the line itself when there is no colon or the
    /// key or value trims to empty.
    pub fn new(text: &str) -> (r: Result<HeaderLine, PostParseError>)
        ensures
            match r {
                Ok(h) => parse_header_spec(text@) == Some((h@.key, h@.value)) && h@.text == text@
                    && h.wf(),
                Err(e) => parse_header_spec(text@) is None && (match e {
                    PostParseError::NotAHeader(t) => t@ == text@,
                    _ => false,
                }),
            },
    {
        let n = text.unicode_len();
        let ci = find_char_in(text, ':');
        proof {
            lemma_find_char(text@, ':');
        }
        if ci >= n {
            return Err(PostParseError::NotAHeader(String::from_str(text)));
        }
        let key = trim(text.substring_char(0, ci));
        let value = trim(text.substring_char(ci + 1, n));
        proof {
            assert(text@.subrange(0, ci as int) =~= header_key_part(text@));
            assert(text@.subrange(ci as int + 1, n as int) =~= header_value_part(text@));
        }
        if key.unicode_len() == 0 || value.unicode_len() == 0 {
            return Err(PostParseError::NotAHeader(String::from_str(text)));
        }
        Ok(
            HeaderLine {
                text: String::from_str(text),
                key: String::from_str(key),
                value: String::from_str(value),
            },
        )
    }

    /// The line exactly as it was given to `new`.
    pub fn raw_text(&self) -> (r: String)
        ensures
            r@ == self@.text,
    {
        self.text.clone()
    }
}

/// For a trimmed non-empty key containing no colon and a trimmed non-empty
/// value, parsing `"{key}: {value}"` yields exactly that key and that value.
pub proof fn lemma_parse_header_roundtrip(key: Seq<char>, value: Seq<char>)
    requires
        key.len() > 0,
        value.len() > 0,
        trim_spec(key) == key,
        trim_spec(value) == value,
        forall|i: int| 0 <= i < key.len() ==> key[i] != ':',
    ensures
        parse_header_spec(key + seq![':', ' '] + value) == Some((key, value)),
{
    let line = key + seq![':', ' '] + value;
    let mid = seq![':', ' '] + value;
    lemma_find_char_concat(key, mid, ':');
    assert(line =~= key + mid);
    assert(mid[0] == ':');
    assert(find_char(mid, ':') == 0);
    assert(find_char(line, ':') == key.len());
    assert(header_key_part(line) =~= key);
    assert(header_value_part(line) =~= seq![' '] + value);
    lemma_trimmed_fixpoint(value);
    assert((seq![' '] + value)[0] == ' ');
    assert(is_space_char(' '));
    assert((seq![' '] + value).skip(1) =~= value);
    assert(trim_start_spec(seq![' '] + value) == trim_start_spec(value));
    assert(trim_spec(seq![' '] + value) == value);
}

/// A line with no colon (so also the empty line), or whose key or value
/// trims to empty (so also a line that is only a colon), is not a header.
pub proof fn lemma_not_a_header(line: Seq<char>)
    requires
        (forall|i: int| 0 <= i < line.len() ==> line[i] != ':') || trim_spec(
            header_key_part(line),
        ).len() == 0 || trim_spec(header_value_part(line)).len() == 0,
    ensures
        parse_header_spec(line) is None,
{
    lemma_find_char(line, ':');
}

} // verus!
