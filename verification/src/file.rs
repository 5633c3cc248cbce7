//! The parsed post file: a state machine splits the incoming lines into a
//! header block and a body, every line is kept for verbatim serialization,
//! and a configurable required-key policy is checked at the end.

use vstd::prelude::*;

use crate::error::PostParseError;
use crate::header::{parse_header_spec, HeaderLine, HeaderView};
use crate::strutil::{
    join_strings, join_with, lemma_join_split, lower_of, lowercase, split_on, split_str, trim,
    trim_spec,
};

verus! {

/// How a parse treats the required-header policy.
pub struct FileOpts {
    /// If true, then all required headers must be present and well-formed.
    pub strict_headers: bool,
}

impl Default for FileOpts {
    /// The options used when none are given: strict.
    fn default() -> (r: FileOpts)
        ensures
            r.strict_headers == true,
    {
        FileOpts { strict_headers: true }
    }
}

/// The ghost form of a parsed file.
#[verifier::ext_equal]
pub ghost struct FileView {
    pub headers: Seq<HeaderView>,
    pub text: Seq<char>,
    pub body: Seq<char>,
    pub last_modified: Option<u64>,
}

/// One parsed post file: the recognized headers in file order (duplicates
/// kept, the first match shadowing the rest), every original line joined for
/// verbatim serialization, the body lines joined, and the source's
/// modification time when one was supplied.
#[derive(Debug)]
pub struct File {
    /// The header entries, in file order, not deduplicated.
    pub headers: Vec<HeaderLine>,
    /// All text in the file: every line, joined by newlines.
    pub text: String,
    /// Only the lines after the header/body separator, joined by newlines.
    pub body: String,
    /// The source's modification time in seconds since the epoch, when known.
    pub last_modified: Option<u64>,
}

impl View for File {
    type V = FileView;

    open spec fn view(&self) -> FileView {
        FileView {
            headers: self.headers@.map_values(|h: HeaderLine| h@),
            text: self.text@,
            body: self.body@,
            last_modified: self.last_modified,
        }
    }
}

/// The value of the first header whose case-folded key equals the given
/// case-folded query, if any: later entries with an equal key are shadowed.
pub open spec fn lookup_spec(headers: Seq<HeaderView>, key_folded: Seq<char>) -> Option<Seq<char>>
    decreases headers.len(),
{
    if headers.len() == 0 {
        None
    } else if lower_of(headers[0].key) == key_folded {
        Some(headers[0].value)
    } else {
        lookup_spec(headers.skip(1), key_folded)
    }
}

proof fn lemma_lookup_skip(headers: Seq<HeaderView>, key_folded: Seq<char>, i: int)
    requires
        0 <= i <= headers.len(),
        forall|j: int| 0 <= j < i ==> lower_of(headers[j].key) != key_folded,
    ensures
        lookup_spec(headers, key_folded) == lookup_spec(headers.skip(i), key_folded),
    decreases i,
{
    if i == 0 {
        assert(headers.skip(0) =~= headers);
    } else {
        lemma_lookup_skip(headers.skip(1), key_folded, i - 1);
        assert(headers.skip(1).skip(i - 1) =~= headers.skip(i));
    }
}

/// Case-insensitivity of lookup: a header stored at index `i` is retrieved
/// through any query whose case-folded form equals the case-folded form of
/// its key, however either was written, provided no earlier header matches
/// the same query.
pub proof fn lemma_lookup_first_match(headers: Seq<HeaderView>, query_folded: Seq<char>, i: int)
    requires
        0 <= i < headers.len(),
        lower_of(headers[i].key) == query_folded,
        forall|j: int| 0 <= j < i ==> lower_of(headers[j].key) != query_folded,
    ensures
        lookup_spec(headers, query_folded) == Some(headers[i].value),
{
    lemma_lookup_skip(headers, query_folded, i);
    assert(headers.skip(i)[0] == headers[i]);
}

/// Lookup sees the query key only through its case-folded form: two queries
/// that fold alike find the same header, so presence through `has_header`
/// and the value through `get_header` agree for every casing of a key.
pub proof fn lemma_lookup_query_casing(headers: Seq<HeaderView>, q1: Seq<char>, q2: Seq<char>)
    requires
        lower_of(q1) == lower_of(q2),
    ensures
        lookup_spec(headers, lower_of(q1)) == lookup_spec(headers, lower_of(q2)),
{
}

/// A query whose case-folded form matches no stored key finds nothing.
pub proof fn lemma_lookup_absent(headers: Seq<HeaderView>, query_folded: Seq<char>)
    requires
        forall|j: int| 0 <= j < headers.len() ==> lower_of(headers[j].key) != query_folded,
    ensures
        lookup_spec(headers, query_folded) is None,
{
    lemma_lookup_skip(headers, query_folded, headers.len() as int);
}

/// The stored value for a key, for documents where lookup finds one.
pub open spec fn header_value(headers: Seq<HeaderView>, key: Seq<char>) -> Seq<char> {
    lookup_spec(headers, lower_of(key))->0
}

/// Whether lookup finds a value for the key, written in any casing.
pub open spec fn has_key(headers: Seq<HeaderView>, key: Seq<char>) -> bool {
    lookup_spec(headers, lower_of(key)) is Some
}

/// The required keys that no stored header matches case-insensitively, in
/// required order.
pub open spec fn missing_spec(headers: Seq<HeaderView>, required: Seq<Seq<char>>) -> Seq<Seq<char>>
    decreases required.len(),
{
    if required.len() == 0 {
        Seq::empty()
    } else {
        missing_spec(headers, required.drop_last()) + (if lookup_spec(
            headers,
            lower_of(required.last()),
        ) is None {
            seq![required.last()]
        } else {
            Seq::empty()
        })
    }
}

/// The keys that the default policy requires.
pub open spec fn default_required_keys() -> Seq<Seq<char>> {
    seq!["title"@, "author"@, "id"@, "date"@]
}

/// The default required keys as runtime values: title, author, id, date.
pub fn default_required_headers() -> (r: Vec<String>)
    ensures
        r@.map_values(|k: String| k@) == default_required_keys(),
{
    let mut r: Vec<String> = Vec::new();
    r.push(String::from_str("title"));
    r.push(String::from_str("author"));
    r.push(String::from_str("id"));
    r.push(String::from_str("date"));
    proof {
        assert(r@.map_values(|k: String| k@) =~= default_required_keys());
    }
    r
}

/// What scanning the lines of a file yields: the recognized headers and the
/// lines after the header/body separator, or the first line in the header
/// region that is not a header.
#[verifier::ext_equal]
pub ghost enum ScanResult {
    Parsed { headers: Seq<HeaderView>, body_lines: Seq<Seq<char>> },
    BadLine { line: Seq<char> },
}

/// The parser's state machine, one line at a time while reading headers:
/// a line whose trim starts with `#` is a comment and is skipped; a blank
/// line before any header is skipped, and after at least one header it is
/// the separator, after which every line belongs to the body; any other
/// line must parse as a header, else scanning stops at it.
pub open spec fn scan_lines(lines: Seq<Seq<char>>, have_header: bool) -> ScanResult
    decreases lines.len(),
{
    if lines.len() == 0 {
        ScanResult::Parsed { headers: Seq::empty(), body_lines: Seq::empty() }
    } else {
        let t = trim_spec(lines[0]);
        if t.len() > 0 && t[0] == '#' {
            scan_lines(lines.skip(1), have_header)
        } else if t.len() == 0 {
            if have_header {
                ScanResult::Parsed { headers: Seq::empty(), body_lines: lines.skip(1) }
            } else {
                scan_lines(lines.skip(1), false)
            }
        } else {
            match parse_header_spec(t) {
                Some(kv) => match scan_lines(lines.skip(1), true) {
                    ScanResult::Parsed { headers, body_lines } => ScanResult::Parsed {
                        headers: seq![HeaderView { text: t, key: kv.0, value: kv.1 }] + headers,
                        body_lines,
                    },
                    ScanResult::BadLine { line } => ScanResult::BadLine { line },
                },
                None => ScanResult::BadLine { line: t },
            }
        }
    }
}

/// `r` with `hs` put in front of its headers, when it parsed.
pub open spec fn scan_prepend(hs: Seq<HeaderView>, r: ScanResult) -> ScanResult {
    match r {
        ScanResult::Parsed { headers, body_lines } => ScanResult::Parsed {
            headers: hs + headers,
            body_lines,
        },
        ScanResult::BadLine { line } => ScanResult::BadLine { line },
    }
}

proof fn lemma_scan_prepend_empty(r: ScanResult)
    ensures
        scan_prepend(Seq::empty(), r) == r,
{
    match r {
        ScanResult::Parsed { headers, body_lines } => {
            assert(Seq::<HeaderView>::empty() + headers =~= headers);
            assert(scan_prepend(Seq::empty(), r) =~= r);
        },
        ScanResult::BadLine { line } => {},
    }
}

proof fn lemma_scan_prepend_join(a: Seq<HeaderView>, b: Seq<HeaderView>, r: ScanResult)
    ensures
        scan_prepend(a, scan_prepend(b, r)) == scan_prepend(a + b, r),
{
    match r {
        ScanResult::Parsed { headers, body_lines } => {
            assert(a + (b + headers) =~= (a + b) + headers);
            assert(scan_prepend(a, scan_prepend(b, r)) =~= scan_prepend(a + b, r));
        },
        ScanResult::BadLine { line } => {},
    }
}

/// Everything a parse promises, for any line stream and policy: scanning
/// decides the outcome; a bad line in the header region fails with
/// `NotAHeader` carrying that line (trimmed); under a strict policy, absent
/// required keys fail with `MissingHeaders` listing them comma-joined in
/// required order; otherwise the document holds exactly the scanned headers,
/// the body lines joined by newlines, every original line joined by newlines,
/// and the given modification time.
pub open spec fn parse_ensures(
    lines: Seq<Seq<char>>,
    last_modified: Option<u64>,
    strict_headers: bool,
    required: Seq<Seq<char>>,
    r: Result<File, PostParseError>,
) -> bool {
    match scan_lines(lines, false) {
        ScanResult::BadLine { line } => match r {
            Err(PostParseError::NotAHeader(t)) => t@ == line,
            _ => false,
        },
        ScanResult::Parsed { headers, body_lines } => {
            let missing = missing_spec(headers, required);
            if strict_headers && missing.len() > 0 {
                match r {
                    Err(PostParseError::MissingHeaders(m)) => m@ == join_with(
                        missing,
                        seq![',', ' '],
                    ),
                    _ => false,
                }
            } else {
                match r {
                    Ok(f) => f@.headers == headers && f@.body == join_with(body_lines, seq!['\n'])
                        && f@.text == join_with(lines, seq!['\n']) && f@.last_modified
                        == last_modified,
                    _ => false,
                }
            }
        },
    }
}

impl File {
    /// Parse an ordered stream of lines into a document under an explicit
    /// policy: `strict_headers` decides whether the keys in `required` must
    /// all be present.
    pub fn new_with_policy(
        lines: Vec<String>,
        last_modified: Option<u64>,
        strict_headers: bool,
        required: &Vec<String>,
    ) -> (r: Result<File, PostParseError>)
        ensures
            parse_ensures(
                lines@.map_values(|l: String| l@),
                last_modified,
                strict_headers,
                required@.map_values(|k: String| k@),
                r,
            ),
    {
        let ghost ls = lines@.map_values(|l: String| l@);
        let mut headers: Vec<HeaderLine> = Vec::new();
        let mut body_lines: Vec<String> = Vec::new();
        let mut doing_headers = true;
        let mut i: usize = 0;
        proof {
            assert(ls.skip(0) =~= ls);
            lemma_scan_prepend_empty(scan_lines(ls, false));
            assert(headers@.map_values(|h: HeaderLine| h@) =~= Seq::<HeaderView>::empty());
        }
        while i < lines.len()
            invariant
                0 <= i <= lines@.len(),
                ls == lines@.map_values(|l: String| l@),
                doing_headers ==> body_lines@.len() == 0,
                doing_headers ==> scan_lines(ls, false) == scan_prepend(
                    headers@.map_values(|h: HeaderLine| h@),
                    scan_lines(ls.skip(i as int), headers@.len() > 0),
                ),
                !doing_headers ==> headers@.len() > 0 && scan_lines(ls, false) == (
                ScanResult::Parsed {
                    headers: headers@.map_values(|h: HeaderLine| h@),
                    body_lines: body_lines@.map_values(|l: String| l@) + ls.skip(i as int),
                }),
            decreases lines@.len() - i,
        {
            let ghost rest = ls.skip(i as int);
            proof {
                assert(rest[0] == ls[i as int]);
                assert(rest.skip(1) =~= ls.skip(i as int + 1));
            }
            if doing_headers {
                let ghost have = headers@.len() > 0;
                let t = trim(lines[i].as_str());
                proof {
                    assert(t@ == trim_spec(rest[0]));
                }
                if t.unicode_len() > 0 && t.get_char(0) == '#' {
                    proof {
                        assert(scan_lines(rest, have) == scan_lines(rest.skip(1), have));
                    }
                } else if t.unicode_len() == 0 {
                    if headers.len() > 0 {
                        doing_headers = false;
                        proof {
                            let hviews = headers@.map_values(|h: HeaderLine| h@);
                            assert(scan_lines(rest, true) == (ScanResult::Parsed {
                                headers: Seq::empty(),
                                body_lines: rest.skip(1),
                            }));
                            assert(hviews + Seq::<HeaderView>::empty() =~= hviews);
                            assert(body_lines@.map_values(|l: String| l@) + ls.skip(i as int + 1)
                                =~= rest.skip(1));
                        }
                    } else {
                        proof {
                            assert(scan_lines(rest, false) == scan_lines(rest.skip(1), false));
                        }
                    }
                } else {
                    match HeaderLine::new(t) {
                        Ok(h) => {
                            let ghost old_hviews = headers@.map_values(|h: HeaderLine| h@);
                            proof {
                                assert(h@ =~= (HeaderView {
                                    text: t@,
                                    key: h@.key,
                                    value: h@.value,
                                }));
                                assert(scan_lines(rest, have) == scan_prepend(
                                    seq![h@],
                                    scan_lines(rest.skip(1), true),
                                ));
                                lemma_scan_prepend_join(
                                    old_hviews,
                                    seq![h@],
                                    scan_lines(rest.skip(1), true),
                                );
                            }
                            headers.push(h);
                            proof {
                                assert(headers@.map_values(|h: HeaderLine| h@) =~= old_hviews
                                    + seq![headers@.last()@]);
                            }
                        },
                        Err(e) => {
                            proof {
                                assert(scan_lines(rest, have) == (ScanResult::BadLine {
                                    line: t@,
                                }));
                            }
                            return Err(e);
                        },
                    }
                }
            } else {
                let ghost old_body = body_lines@.map_values(|l: String| l@);
                body_lines.push(lines[i].clone());
                proof {
                    assert(body_lines@.map_values(|l: String| l@) =~= old_body + seq![
                        ls[i as int],
                    ]);
                    assert(old_body + rest =~= (old_body + seq![ls[i as int]]) + ls.skip(
                        i as int + 1,
                    ));
                }
            }
            i = i + 1;
        }
        proof {
            assert(ls.skip(i as int) =~= Seq::<Seq<char>>::empty());
            let hviews = headers@.map_values(|h: HeaderLine| h@);
            let bviews = body_lines@.map_values(|l: String| l@);
            if doing_headers {
                assert(scan_lines(ls.skip(i as int), headers@.len() > 0) == (ScanResult::Parsed {
                    headers: Seq::empty(),
                    body_lines: Seq::empty(),
                }));
                assert(hviews + Seq::<HeaderView>::empty() =~= hviews);
                assert(bviews =~= Seq::<Seq<char>>::empty());
            } else {
                assert(bviews + Seq::<Seq<char>>::empty() =~= bviews);
            }
            assert(scan_lines(ls, false) == (ScanResult::Parsed {
                headers: hviews,
                body_lines: bviews,
            }));
        }
        let text = join_strings(&lines, "\n");
        let body = join_strings(&body_lines, "\n");
        proof {
            reveal_strlit("\n");
            assert("\n"@ =~= seq!['\n']);
        }
        let f = File { headers, text, body, last_modified };
        let missing = f.missing_headers(required);
        if strict_headers && missing.len() > 0 {
            let m = join_strings(&missing, ", ");
            proof {
                reveal_strlit(", ");
                assert(", "@ =~= seq![',', ' ']);
            }
            return Err(PostParseError::MissingHeaders(m));
        }
        Ok(f)
    }

    /// Parse with an optional options struct: absent options mean the
    /// default, strict, policy. The required keys are the default ones.
    pub fn new_from_buf(
        lines: Vec<String>,
        last_modified: Option<u64>,
        opts: Option<FileOpts>,
    ) -> (r: Result<File, PostParseError>)
        ensures
            parse_ensures(
                lines@.map_values(|l: String| l@),
                last_modified,
                match opts {
                    Some(o) => o.strict_headers,
                    None => true,
                },
                default_required_keys(),
                r,
            ),
    {
        let strict = match opts {
            Some(o) => o.strict_headers,
            None => true,
        };
        let required = default_required_headers();
        Self::new_with_policy(lines, last_modified, strict, &required)
    }

    /// Parse a whole text, its newline-split lines being the line stream.
    /// On success the document serializes back to exactly the given text.
    pub fn new_from_text(
        text: &str,
        last_modified: Option<u64>,
        opts: Option<FileOpts>,
    ) -> (r: Result<File, PostParseError>)
        ensures
            parse_ensures(
                split_on(text@, '\n'),
                last_modified,
                match opts {
                    Some(o) => o.strict_headers,
                    None => true,
                },
                default_required_keys(),
                r,
            ),
            r matches Ok(f) ==> f@.text == text@,
    {
        let lines = split_str(text, '\n');
        let r = Self::new_from_buf(lines, last_modified, opts);
        proof {
            lemma_join_split(text@, '\n');
        }
        r
    }

    /// Case-insensitive first-match lookup of a header value: the key as
    /// stored and the key as queried are both case-folded before comparison.
    pub fn get_header(&self, key: &str) -> (r: Option<String>)
        ensures
            match r {
                Some(v) => lookup_spec(self@.headers, lower_of(key@)) == Some(v@),
                None => lookup_spec(self@.headers, lower_of(key@)) is None,
            },
    {
        let folded = lowercase(key);
        let mut i: usize = 0;
        while i < self.headers.len()
            invariant
                0 <= i <= self.headers@.len(),
                folded@ == lower_of(key@),
                forall|j: int| 0 <= j < i ==> lower_of(self.headers@[j]@.key) != folded@,
            decreases self.headers@.len() - i,
        {
            let hk = lowercase(self.headers[i].key.as_str());
            if hk == folded {
                proof {
                    lemma_lookup_first_match(self@.headers, folded@, i as int);
                }
                return Some(self.headers[i].value.clone());
            }
            i = i + 1;
        }
        proof {
            lemma_lookup_absent(self@.headers, folded@);
        }
        None
    }

    /// Whether a header with this key is present, in any casing: true
    /// exactly when `get_header` finds a value.
    pub fn has_header(&self, key: &str) -> (r: bool)
        ensures
            r == (lookup_spec(self@.headers, lower_of(key@)) is Some),
    {
        self.get_header(key).is_some()
    }

    /// The required keys, of those given, that no stored header matches
    /// case-insensitively, in the order given.
    pub fn missing_headers(&self, required: &Vec<String>) -> (r: Vec<String>)
        ensures
            r@.map_values(|k: String| k@) == missing_spec(
                self@.headers,
                required@.map_values(|k: String| k@),
            ),
    {
        let mut r: Vec<String> = Vec::new();
        let mut i: usize = 0;
        proof {
            assert(required@.take(0).map_values(|k: String| k@) =~= Seq::<Seq<char>>::empty());
        }
        while i < required.len()
            invariant
                0 <= i <= required@.len(),
                r@.map_values(|k: String| k@) == missing_spec(
                    self@.headers,
                    required@.take(i as int).map_values(|k: String| k@),
                ),
            decreases required@.len() - i,
        {
            let ghost old_missing = r@.map_values(|k: String| k@);
            let ghost before = required@.take(i as int).map_values(|k: String| k@);
            let ghost after = required@.take(i as int + 1).map_values(|k: String| k@);
            proof {
                assert(after.drop_last() =~= before);
                assert(after.last() == required@[i as int]@);
            }
            if !self.has_header(required[i].as_str()) {
                r.push(required[i].clone());
                proof {
                    assert(r@.map_values(|k: String| k@) =~= old_missing + seq![
                        required@[i as int]@,
                    ]);
                }
            } else {
                proof {
                    assert(old_missing + Seq::<Seq<char>>::empty() =~= old_missing);
                }
            }
            i = i + 1;
        }
        proof {
            assert(required@.take(required@.len() as int) =~= required@);
        }
        r
    }

    /// Check the default required-key policy: success exactly when every one
    /// of the default keys is present in some casing; otherwise the missing
    /// ones, comma-joined, in their required order.
    pub fn has_required_headers(&self) -> (r: Result<(), String>)
        ensures
            match r {
                Ok(()) => missing_spec(self@.headers, default_required_keys()).len() == 0,
                Err(m) => missing_spec(self@.headers, default_required_keys()).len() > 0 && m@
                    == join_with(missing_spec(self@.headers, default_required_keys()), seq![
                    ',',
                    ' ',
                ]),
            },
    {
        let required = default_required_headers();
        let missing = self.missing_headers(&required);
        if missing.len() == 0 {
            Ok(())
        } else {
            let m = join_strings(&missing, ", ");
            proof {
                reveal_strlit(", ");
                assert(", "@ =~= seq![',', ' ']);
            }
            Err(m)
        }
    }

    /// The body region only, never the header block.
    pub fn get_body(&self) -> (r: String)
        ensures
            r@ == self@.body,
    {
        self.body.clone()
    }

    /// The original input, reproduced verbatim: every line of the source,
    /// header block, separator and body alike, joined by newlines.
    pub fn serialize(&self) -> (r: String)
        ensures
            r@ == self@.text,
    {
        self.text.clone()
    }

    /// Record the source's modification time, in seconds since the epoch.
    pub fn set_last_modified(&mut self, seconds: u64)
        ensures
            final(self)@.headers == old(self)@.headers,
            final(self)@.text == old(self)@.text,
            final(self)@.body == old(self)@.body,
            final(self)@.last_modified == Some(seconds),
    {
        self.last_modified = Some(seconds);
    }
}

} // verus!
