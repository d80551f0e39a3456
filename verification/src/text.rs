//! Character-level text helpers: the line, trimming and search rules of the note format.
use vstd::prelude::*;
use vstd::std_specs::iter::IteratorSpec;

verus! {

/// The characters of a string slice, in order.
pub fn str_chars(s: &str) -> (v: Vec<char>)
    ensures
        v@ == s@,
{
    broadcast use vstd::string::group_string_axioms;

    let mut v: Vec<char> = Vec::new();
    for c in iter: s.chars()
        invariant
            v@ == iter.seq().take(iter.index() as int),
    {
        v.push(c);
    }
    assert(v@ =~= s@);
    v
}


/// Unicode's White_Space property, as `char::is_whitespace` documents it.
pub open spec fn is_white_space(c: char) -> bool {
    let u = c as u32;
    ||| 0x9 <= u <= 0xd
    ||| u == 0x20
    ||| u == 0x85
    ||| u == 0xa0
    ||| u == 0x1680
    ||| 0x2000 <= u <= 0x200a
    ||| u == 0x2028
    ||| u == 0x2029
    ||| u == 0x202f
    ||| u == 0x205f
    ||| u == 0x3000
}

/// `char::is_whitespace`: true for the characters with Unicode's White_Space property.
#[verifier::external_body]
fn char_is_whitespace(c: char) -> (r: bool)
    ensures
        r == is_white_space(c),
{
    c.is_whitespace()
}

/// The characters of a slice, collected into a `String` (`FromIterator<&char>`).
#[verifier::external_body]
pub(crate) fn string_from_chars(chars: &[char]) -> (s: String)
    ensures
        s@ == chars@,
{
    chars.iter().collect()
}

/// Characters that trimming removes from the ends of a value.
#[derive(Clone, Copy, PartialEq, Eq, Structural)]
pub enum Trimmed {
    WhiteSpace,
    DoubleQuote,
    SingleQuote,
}

pub open spec fn is_trimmed(k: Trimmed, c: char) -> bool {
    match k {
        Trimmed::WhiteSpace => is_white_space(c),
        Trimmed::DoubleQuote => c == '"',
        Trimmed::SingleQuote => c == '\'',
    }
}

fn is_trimmed_exec(k: Trimmed, c: char) -> (r: bool)
    ensures
        r == is_trimmed(k, c),
{
    match k {
        Trimmed::WhiteSpace => char_is_whitespace(c),
        Trimmed::DoubleQuote => c == '"',
        Trimmed::SingleQuote => c == '\'',
    }
}

pub open spec fn strip_start(s: Seq<char>, k: Trimmed) -> Seq<char>
    decreases s.len(),
{
    if s.len() > 0 && is_trimmed(k, s[0]) {
        strip_start(s.drop_first(), k)
    } else {
        s
    }
}

pub open spec fn strip_end(s: Seq<char>, k: Trimmed) -> Seq<char>
    decreases s.len(),
{
    if s.len() > 0 && is_trimmed(k, s.last()) {
        strip_end(s.drop_last(), k)
    } else {
        s
    }
}

/// `str::trim` (for white space) and `str::trim_matches` (for a quote character).
pub open spec fn strip(s: Seq<char>, k: Trimmed) -> Seq<char> {
    strip_end(strip_start(s, k), k)
}

/// Bounds of the trimmed part of `v[from..to]`.
pub fn strip_range(v: &Vec<char>, from: usize, to: usize, k: Trimmed) -> (r: (usize, usize))
    requires
        from <= to <= v@.len(),
    ensures
        from <= r.0 <= r.1 <= to,
        v@.subrange(r.0 as int, r.1 as int) == strip(v@.subrange(from as int, to as int), k),
{
    let mut a = from;
    while a < to && is_trimmed_exec(k, v[a])
        invariant
            from <= a <= to <= v@.len(),
            strip_start(v@.subrange(from as int, to as int), k) == strip_start(
                v@.subrange(a as int, to as int),
                k,
            ),
        decreases to - a,
    {
        assert(v@.subrange(a as int, to as int).drop_first() =~= v@.subrange(a + 1, to as int));
        a = a + 1;
    }
    let mut b = to;
    while b > a && is_trimmed_exec(k, v[b - 1])
        invariant
            from <= a <= b <= to <= v@.len(),
            strip_end(v@.subrange(a as int, to as int), k) == strip_end(
                v@.subrange(a as int, b as int),
                k,
            ),
        decreases b - a,
    {
        assert(v@.subrange(a as int, b as int).drop_last() =~= v@.subrange(a as int, b - 1));
        b = b - 1;
    }
    (a, b)
}

/// Index of the first `c` at or after `p`, or the length when there is none.
pub open spec fn next_char_index(s: Seq<char>, p: int, c: char) -> int
    decreases s.len() - p,
{
    if p >= s.len() || s[p] == c {
        p
    } else {
        next_char_index(s, p + 1, c)
    }
}

pub proof fn lemma_next_char_index(s: Seq<char>, p: int, c: char)
    requires
        0 <= p,
    ensures
        p <= next_char_index(s, p, c),
        p <= s.len() ==> next_char_index(s, p, c) <= s.len(),
        next_char_index(s, p, c) < s.len() ==> s[next_char_index(s, p, c)] == c,
        forall|j: int| p <= j < next_char_index(s, p, c) ==> s[j] != c,
    decreases s.len() - p,
{
    if p < s.len() && s[p] != c {
        lemma_next_char_index(s, p + 1, c);
    }
}

pub fn find_char(v: &Vec<char>, p: usize, c: char) -> (r: usize)
    requires
        p <= v@.len(),
    ensures
        r == next_char_index(v@, p as int, c),
        p <= r <= v@.len(),
{
    let mut i = p;
    while i < v.len() && v[i] != c
        invariant
            p <= i <= v@.len(),
            next_char_index(v@, p as int, c) == next_char_index(v@, i as int, c),
        decreases v@.len() - i,
    {
        i = i + 1;
    }
    i
}

/// End of the content of the line starting at `p`: before its `\n`, and before a `\r`
/// that directly precedes that `\n` (the line rule of `str::lines`).
pub open spec fn line_content_end(s: Seq<char>, p: int) -> int {
    let e = next_char_index(s, p, '\n');
    if e < s.len() && e > p && s[e - 1] == '\r' {
        e - 1
    } else {
        e
    }
}

pub fn copy_range(v: &Vec<char>, from: usize, to: usize) -> (r: Vec<char>)
    requires
        from <= to <= v@.len(),
    ensures
        r@ == v@.subrange(from as int, to as int),
{
    let mut r: Vec<char> = Vec::new();
    for i in from..to
        invariant
            from <= i <= to <= v@.len(),
            r@ == v@.subrange(from as int, i as int),
    {
        r.push(v[i]);
        assert(r@ =~= v@.subrange(from as int, i + 1));
    }
    r
}

pub fn chars_equal(a: &Vec<char>, b: &Vec<char>) -> (r: bool)
    ensures
        r == (a@ == b@),
{
    if a.len() != b.len() {
        return false;
    }
    for i in 0..a.len()
        invariant
            a@.len() == b@.len(),
            forall|j: int| 0 <= j < i ==> a@[j] == b@[j],
    {
        if a[i] != b[i] {
            return false;
        }
    }
    assert(a@ =~= b@);
    true
}

} // verus!
