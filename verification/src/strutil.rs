//! Character-level string utilities that the parser is built on: whitespace
//! trimming, locating a separator character, splitting and joining on a
//! separator, suffix tests, and case folding.

use vstd::prelude::*;

verus! {

/// The Unicode white-space characters: the set that trimming removes from the
/// ends of a line, a key or a value.
pub open spec fn is_space_char(c: char) -> bool {
    let u = c as u32;
    ||| u == 0x09
    ||| u == 0x0a
    ||| u == 0x0b
    ||| u == 0x0c
    ||| u == 0x0d
    ||| u == 0x20
    ||| u == 0x85
    ||| u == 0xa0
    ||| u == 0x1680
    ||| (0x2000 <= u && u <= 0x200a)
    ||| u == 0x2028
    ||| u == 0x2029
    ||| u == 0x202f
    ||| u == 0x205f
    ||| u == 0x3000
}

/// Runtime test for `is_space_char`.
pub fn is_space(c: char) -> (r: bool)
    ensures
        r == is_space_char(c),
{
    let u = c as u32;
    u == 0x09 || u == 0x0a || u == 0x0b || u == 0x0c || u == 0x0d || u == 0x20 || u == 0x85
        || u == 0xa0 || u == 0x1680 || (0x2000 <= u && u <= 0x200a) || u == 0x2028 || u == 0x2029
        || u == 0x202f || u == 0x205f || u == 0x3000
}

/// `s` with every leading white-space character removed.
pub open spec fn trim_start_spec(s: Seq<char>) -> Seq<char>
    decreases s.len(),
{
    if s.len() > 0 && is_space_char(s[0]) {
        trim_start_spec(s.skip(1))
    } else {
        s
    }
}

/// `s` with every trailing white-space character removed.
pub open spec fn trim_end_spec(s: Seq<char>) -> Seq<char>
    decreases s.len(),
{
    if s.len() > 0 && is_space_char(s[s.len() - 1]) {
        trim_end_spec(s.take(s.len() - 1))
    } else {
        s
    }
}

/// `s` with white space removed from both ends: the meaning of trimming a
/// line, a key or a value.
pub open spec fn trim_spec(s: Seq<char>) -> Seq<char> {
    trim_end_spec(trim_start_spec(s))
}

proof fn lemma_trim_start_len(s: Seq<char>)
    ensures
        trim_start_spec(s).len() <= s.len(),
    decreases s.len(),
{
    if s.len() > 0 && is_space_char(s[0]) {
        lemma_trim_start_len(s.skip(1));
    }
}

proof fn lemma_trim_end_len(s: Seq<char>)
    ensures
        trim_end_spec(s).len() <= s.len(),
    decreases s.len(),
{
    if s.len() > 0 && is_space_char(s[s.len() - 1]) {
        lemma_trim_end_len(s.take(s.len() - 1));
    }
}

/// When the first `i` characters are white space and the character at `i` (if
/// any) is not, trimming from the start drops exactly those `i` characters.
proof fn lemma_trim_start_prefix(s: Seq<char>, i: int)
    requires
        0 <= i <= s.len(),
        forall|j: int| 0 <= j < i ==> is_space_char(s[j]),
        i < s.len() ==> !is_space_char(s[i]),
    ensures
        trim_start_spec(s) == s.skip(i),
    decreases i,
{
    if i == 0 {
        assert(s.skip(0) =~= s);
    } else {
        lemma_trim_start_prefix(s.skip(1), i - 1);
        assert(s.skip(1).skip(i - 1) =~= s.skip(i));
    }
}

/// When every character from `i` on is white space and the character just
/// before `i` (if any) is not, trimming from the end keeps exactly the first
/// `i` characters.
proof fn lemma_trim_end_suffix(s: Seq<char>, i: int)
    requires
        0 <= i <= s.len(),
        forall|j: int| i <= j < s.len() ==> is_space_char(s[j]),
        i > 0 ==> !is_space_char(s[i - 1]),
    ensures
        trim_end_spec(s) == s.take(i),
    decreases s.len() - i,
{
    if i == s.len() {
        assert(s.take(i) =~= s);
        if s.len() > 0 && is_space_char(s[s.len() - 1]) {
            assert(!is_space_char(s[i - 1]));
        }
    } else {
        lemma_trim_end_suffix(s.take(s.len() - 1), i);
        assert(s.take(s.len() - 1).take(i) =~= s.take(i));
    }
}

/// A non-empty sequence equal to its own trim neither starts nor ends with
/// white space, and is a fixed point of both one-sided trims.
pub proof fn lemma_trimmed_fixpoint(s: Seq<char>)
    requires
        trim_spec(s) == s,
        s.len() > 0,
    ensures
        !is_space_char(s[0]),
        !is_space_char(s[s.len() - 1]),
        trim_start_spec(s) == s,
        trim_end_spec(s) == s,
{
    if is_space_char(s[0]) {
        lemma_trim_start_len(s.skip(1));
        lemma_trim_end_len(trim_start_spec(s));
        assert(trim_spec(s).len() < s.len());
    }
    assert(trim_start_spec(s) == s);
    if is_space_char(s[s.len() - 1]) {
        lemma_trim_end_len(s.take(s.len() - 1));
        assert(trim_spec(s).len() < s.len());
    }
}

/// Runtime trimming, equal to `trim_spec` on the view.
pub fn trim<'a>(s: &'a str) -> (r: &'a str)
    ensures
        r@ == trim_spec(s@),
{
    let n = s.unicode_len();
    let mut start: usize = 0;
    while start < n && is_space(s.get_char(start))
        invariant
            0 <= start <= n,
            n == s@.len(),
            forall|j: int| 0 <= j < start ==> is_space_char(s@[j]),
        decreases n - start,
    {
        start = start + 1;
    }
    let mut end: usize = n;
    while end > start && is_space(s.get_char(end - 1))
        invariant
            start <= end <= n,
            n == s@.len(),
            forall|j: int| end <= j < n ==> is_space_char(s@[j]),
        decreases end,
    {
        end = end - 1;
    }
    let r = s.substring_char(start, end);
    proof {
        lemma_trim_start_prefix(s@, start as int);
        lemma_trim_end_suffix(s@.skip(start as int), end - start);
        assert(s@.skip(start as int).take(end - start) =~= s@.subrange(
            start as int,
            end as int,
        ));
    }
    r
}

/// The index of the first occurrence of `c` in `s`, or `s.len()` when `c`
/// does not occur.
pub open spec fn find_char(s: Seq<char>, c: char) -> int
    decreases s.len(),
{
    if s.len() == 0 {
        0
    } else if s[0] == c {
        0
    } else {
        1 + find_char(s.skip(1), c)
    }
}

/// What `find_char` returns: an index within bounds, pointing at `c` when `c`
/// occurs, with no occurrence of `c` before it.
pub proof fn lemma_find_char(s: Seq<char>, c: char)
    ensures
        0 <= find_char(s, c) <= s.len(),
        find_char(s, c) < s.len() ==> s[find_char(s, c)] == c,
        forall|j: int| 0 <= j < find_char(s, c) ==> s[j] != c,
    decreases s.len(),
{
    if s.len() > 0 && s[0] != c {
        lemma_find_char(s.skip(1), c);
        assert forall|j: int| 0 <= j < find_char(s, c) implies s[j] != c by {
            if j > 0 {
                assert(s[j] == s.skip(1)[j - 1]);
            }
        }
    }
}

/// An index below which `c` does not occur, and at which `c` stands (or which
/// is the length), is exactly `find_char`.
proof fn lemma_find_char_at(s: Seq<char>, c: char, i: int)
    requires
        0 <= i <= s.len(),
        forall|j: int| 0 <= j < i ==> s[j] != c,
        i < s.len() ==> s[i] == c,
    ensures
        find_char(s, c) == i,
    decreases i,
{
    if i == 0 {
    } else {
        lemma_find_char_at(s.skip(1), c, i - 1);
    }
}

/// Runtime search for the first occurrence of `c`, equal to `find_char` on
/// the view.
pub fn find_char_in(s: &str, c: char) -> (r: usize)
    ensures
        r == find_char(s@, c),
{
    let n = s.unicode_len();
    let mut i: usize = 0;
    while i < n && s.get_char(i) != c
        invariant
            0 <= i <= n,
            n == s@.len(),
            forall|j: int| 0 <= j < i ==> s@[j] != c,
        decreases n - i,
    {
        i = i + 1;
    }
    proof {
        lemma_find_char_at(s@, c, i as int);
    }
    i
}

/// When no character of `a` is `c`, searching `a + b` finds the first
/// occurrence inside `b`.
pub proof fn lemma_find_char_concat(a: Seq<char>, b: Seq<char>, c: char)
    requires
        forall|j: int| 0 <= j < a.len() ==> a[j] != c,
    ensures
        find_char(a + b, c) == a.len() + find_char(b, c),
    decreases a.len(),
{
    if a.len() == 0 {
        assert(a + b =~= b);
    } else {
        assert((a + b)[0] == a[0]);
        lemma_find_char_concat(a.skip(1), b, c);
        assert((a + b).skip(1) =~= a.skip(1) + b);
    }
}

/// `s` split on `c`: the separators are dropped and the pieces between them
/// are kept, empty pieces included, so the result never has fewer than one
/// piece.
pub open spec fn split_on(s: Seq<char>, c: char) -> Seq<Seq<char>>
    decreases s.len(),
    via split_on_decreases
{
    if find_char(s, c) >= s.len() {
        seq![s]
    } else {
        seq![s.take(find_char(s, c))] + split_on(s.skip(find_char(s, c) + 1), c)
    }
}

#[via_fn]
proof fn split_on_decreases(s: Seq<char>, c: char) {
    lemma_find_char(s, c);
}

/// The pieces of `parts` laid end to end with `sep` between consecutive
/// pieces.
pub open spec fn join_with(parts: Seq<Seq<char>>, sep: Seq<char>) -> Seq<char>
    decreases parts.len(),
{
    if parts.len() == 0 {
        Seq::empty()
    } else if parts.len() == 1 {
        parts[0]
    } else {
        join_with(parts.drop_last(), sep) + sep + parts.last()
    }
}

/// Joining distributes over putting one piece in front of at least one other.
pub proof fn lemma_join_cons(a: Seq<char>, parts: Seq<Seq<char>>, sep: Seq<char>)
    requires
        parts.len() >= 1,
    ensures
        join_with(seq![a] + parts, sep) == a + sep + join_with(parts, sep),
    decreases parts.len(),
{
    let whole = seq![a] + parts;
    if parts.len() == 1 {
        assert(whole.drop_last() =~= seq![a]);
        assert(whole.last() == parts[0]);
        assert(join_with(seq![a], sep) == a);
        assert(join_with(whole, sep) =~= a + sep + join_with(parts, sep));
    } else {
        lemma_join_cons(a, parts.drop_last(), sep);
        assert(whole.drop_last() =~= seq![a] + parts.drop_last());
        assert(whole.last() == parts.last());
        assert((a + sep + join_with(parts.drop_last(), sep)) + sep + parts.last() =~= a + sep + (
        join_with(parts.drop_last(), sep) + sep + parts.last()));
    }
}

/// Splitting on `c` and joining the pieces with `c` gives back the original
/// sequence; splitting always yields at least one piece.
pub proof fn lemma_join_split(s: Seq<char>, c: char)
    ensures
        split_on(s, c).len() >= 1,
        join_with(split_on(s, c), seq![c]) == s,
    decreases s.len(),
{
    lemma_find_char(s, c);
    let i = find_char(s, c);
    if i >= s.len() {
    } else {
        lemma_join_split(s.skip(i + 1), c);
        lemma_join_cons(s.take(i), split_on(s.skip(i + 1), c), seq![c]);
        assert(s.take(i) + seq![c] + s.skip(i + 1) =~= s);
    }
}

/// Runtime split on a character, equal to `split_on` on views.
pub fn split_str(s: &str, c: char) -> (r: Vec<String>)
    ensures
        r@.map_values(|p: String| p@) == split_on(s@, c),
{
    let n = s.unicode_len();
    let mut r: Vec<String> = Vec::new();
    let mut piece_start: usize = 0;
    let mut i: usize = 0;
    proof {
        assert(s@.skip(0) =~= s@);
        assert(r@.map_values(|p: String| p@) + split_on(s@, c) =~= split_on(s@, c));
    }
    while i < n
        invariant
            0 <= piece_start <= i <= n,
            n == s@.len(),
            forall|j: int| piece_start <= j < i ==> s@[j] != c,
            split_on(s@, c) == r@.map_values(|p: String| p@) + split_on(
                s@.skip(piece_start as int),
                c,
            ),
        decreases n - i,
    {
        if s.get_char(i) == c {
            let piece = s.substring_char(piece_start, i);
            let ghost old_parts = r@.map_values(|p: String| p@);
            r.push(String::from_str(piece));
            proof {
                let tail = s@.skip(piece_start as int);
                lemma_find_char_at(tail, c, i - piece_start);
                assert(tail.take(i - piece_start) =~= s@.subrange(piece_start as int, i as int));
                assert(tail.skip(i - piece_start + 1) =~= s@.skip(i + 1));
                assert(r@.map_values(|p: String| p@) =~= old_parts + seq![
                    s@.subrange(piece_start as int, i as int),
                ]);
                assert(old_parts + (seq![tail.take(i - piece_start)] + split_on(s@.skip(i + 1), c))
                    =~= (old_parts + seq![tail.take(i - piece_start)]) + split_on(
                    s@.skip(i + 1),
                    c,
                ));
            }
            piece_start = i + 1;
        }
        i = i + 1;
    }
    let piece = s.substring_char(piece_start, n);
    let ghost old_parts = r@.map_values(|p: String| p@);
    r.push(String::from_str(piece));
    proof {
        let tail = s@.skip(piece_start as int);
        lemma_find_char_at(tail, c, n - piece_start);
        assert(tail =~= s@.subrange(piece_start as int, n as int));
        assert(r@.map_values(|p: String| p@) =~= old_parts + seq![tail]);
    }
    r
}

/// Runtime join with a separator, equal to `join_with` on views.
pub fn join_strings(parts: &Vec<String>, sep: &str) -> (r: String)
    ensures
        r@ == join_with(parts@.map_values(|p: String| p@), sep@),
{
    let mut r = String::new();
    let mut i: usize = 0;
    while i < parts.len()
        invariant
            0 <= i <= parts@.len(),
            r@ == join_with(parts@.take(i as int).map_values(|p: String| p@), sep@),
        decreases parts@.len() - i,
    {
        proof {
            let before = parts@.take(i as int).map_values(|p: String| p@);
            let after = parts@.take(i as int + 1).map_values(|p: String| p@);
            assert(after.drop_last() =~= before);
            assert(after.last() == parts@[i as int]@);
            if i == 0 {
                assert(Seq::<char>::empty() + parts@[0]@ =~= parts@[0]@);
            }
        }
        if i > 0 {
            r.append(sep);
        }
        r.append(parts[i].as_str());
        i = i + 1;
    }
    proof {
        assert(parts@.take(parts@.len() as int) =~= parts@);
    }
    r
}

/// Whether `s` ends with the sequence `suffix`.
pub open spec fn ends_with_spec(s: Seq<char>, suffix: Seq<char>) -> bool {
    suffix.len() <= s.len() && s.skip(s.len() - suffix.len()) == suffix
}

/// Runtime suffix test, equal to `ends_with_spec` on the views.
pub fn str_ends_with(s: &str, suffix: &str) -> (r: bool)
    ensures
        r == ends_with_spec(s@, suffix@),
{
    let n = s.unicode_len();
    let m = suffix.unicode_len();
    if m > n {
        return false;
    }
    let offset = n - m;
    let ghost tail = s@.skip(n as int - m as int);
    let mut i: usize = 0;
    while i < m
        invariant
            0 <= i <= m,
            m <= n,
            offset == n - m,
            n == s@.len(),
            m == suffix@.len(),
            tail == s@.skip(n as int - m as int),
            forall|j: int| 0 <= j < i ==> tail[j] == suffix@[j],
        decreases m - i,
    {
        if s.get_char(offset + i) != suffix.get_char(i) {
            proof {
                assert(tail[i as int] != suffix@[i as int]);
            }
            return false;
        }
        i = i + 1;
    }
    proof {
        assert(tail =~= suffix@);
    }
    true
}

/// The case-folded form of a sequence of characters, as Rust's
/// `str::to_lowercase` computes it. It depends on the characters alone; no
/// further properties of it are assumed.
pub uninterp spec fn lower_of(s: Seq<char>) -> Seq<char>;

/// Relies on `str::to_lowercase` from std: the returned string is the
/// lowercase form of the input, a pure function of the input characters,
/// named `lower_of` here.
#[verifier::external_body]
pub(crate) fn lowercase(s: &str) -> (r: String)
    ensures
        r@ == lower_of(s@),
{
    s.to_lowercase()
}

} // verus!
