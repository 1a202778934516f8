//! Character-level helpers on text: copying, white space and quotes.

use vstd::prelude::*;
use vstd::std_specs::iter::IteratorSpec;

verus! {

/// Relies on `String::push`: appends one character.
#[verifier::external_body]
pub(crate) fn push_char(s: &mut String, c: char)
    ensures
        final(s)@ == old(s)@.push(c),
{
    s.push(c)
}

/// The characters of a string, in order.
pub fn chars_of(s: &str) -> (r: Vec<char>)
    ensures
        r@ == s@,
{
    let mut r: Vec<char> = Vec::new();
    for c in it: s.chars()
        invariant
            it.seq() == s@,
            r@ == it.seq().subrange(0, it.index() as int),
    {
        r.push(c);
    }
    proof {
        assert(r@ =~= s@);
    }
    r
}

/// The string of `v[a..b]`.
pub fn string_of(v: &Vec<char>, a: usize, b: usize) -> (r: String)
    requires
        a <= b <= v@.len(),
    ensures
        r@ == v@.subrange(a as int, b as int),
{
    let mut r = String::new();
    let mut i = a;
    while i < b
        invariant
            a <= i <= b,
            b <= v@.len(),
            r@ == v@.subrange(a as int, i as int),
        decreases b - i,
    {
        push_char(&mut r, v[i]);
        proof {
            assert(r@ =~= v@.subrange(a as int, i + 1));
        }
        i = i + 1;
    }
    r
}

/// Unicode's white space, as `char::is_whitespace` defines it.
pub open spec fn is_ws(c: char) -> bool {
    ('\u{9}' <= c && c <= '\u{d}') || c == ' ' || c == '\u{85}' || c == '\u{a0}' || c == '\u{1680}'
        || ('\u{2000}' <= c && c <= '\u{200a}') || c == '\u{2028}' || c == '\u{2029}' || c
        == '\u{202f}' || c == '\u{205f}' || c == '\u{3000}'
}

/// Whether a character is white space.
pub fn is_whitespace(c: char) -> (r: bool)
    ensures
        r == is_ws(c),
{
    ('\u{9}' <= c && c <= '\u{d}') || c == ' ' || c == '\u{85}' || c == '\u{a0}' || c == '\u{1680}'
        || ('\u{2000}' <= c && c <= '\u{200a}') || c == '\u{2028}' || c == '\u{2029}' || c
        == '\u{202f}' || c == '\u{205f}' || c == '\u{3000}'
}

/// The first position at or after `a` that is not white space, or `b`.
pub open spec fn trim_start(s: Seq<char>, a: int, b: int) -> int
    decreases b - a,
{
    if a >= b {
        b
    } else if is_ws(s[a]) {
        trim_start(s, a + 1, b)
    } else {
        a
    }
}

/// One past the last position before `b` that is not white space, or `a`.
pub open spec fn trim_end(s: Seq<char>, a: int, b: int) -> int
    decreases b - a,
{
    if a >= b {
        a
    } else if is_ws(s[b - 1]) {
        trim_end(s, a, b - 1)
    } else {
        b
    }
}

/// The bounds of `s[a..b]` without its leading and trailing white space.
pub open spec fn trimmed_span(s: Seq<char>, a: int, b: int) -> (int, int) {
    let x = trim_start(s, a, b);
    (x, trim_end(s, x, b))
}

/// Trims white space off both ends of `v[a..b]`.
pub(crate) fn trim_span(v: &Vec<char>, a: usize, b: usize) -> (r: (usize, usize))
    requires
        a <= b <= v@.len(),
    ensures
        r.0 as int == trimmed_span(v@, a as int, b as int).0,
        r.1 as int == trimmed_span(v@, a as int, b as int).1,
        a <= r.0 <= r.1 <= b,
{
    let mut x = a;
    while x < b && is_whitespace(v[x])
        invariant
            a <= x <= b,
            b <= v@.len(),
            trim_start(v@, x as int, b as int) == trim_start(v@, a as int, b as int),
        decreases b - x,
    {
        x = x + 1;
    }
    let mut y = b;
    while y > x && is_whitespace(v[y - 1])
        invariant
            x <= y <= b,
            b <= v@.len(),
            trim_end(v@, x as int, y as int) == trim_end(v@, x as int, b as int),
        decreases y - x,
    {
        y = y - 1;
    }
    (x, y)
}

/// `s[a..b]` has at least two characters, the first `begin` and the last `end`.
pub open spec fn surrounded(s: Seq<char>, a: int, b: int, begin: char, end: char) -> bool {
    b - a >= 2 && s[a] == begin && s[b - 1] == end
}

/// `s[a..b]` is wrapped in ASCII quotes, or in typographic ones.
pub open spec fn quoted_span(s: Seq<char>, a: int, b: int) -> bool {
    surrounded(s, a, b, '"', '"') || surrounded(s, a, b, '\u{201C}', '\u{201D}')
}

/// The bounds of `s[a..b]` without the quotes that wrap it, if any.
pub open spec fn unquoted_span(s: Seq<char>, a: int, b: int) -> (int, int) {
    if quoted_span(s, a, b) {
        (a + 1, b - 1)
    } else {
        (a, b)
    }
}

/// Whether `v[a..b]` is wrapped in quotes.
pub(crate) fn is_quoted(v: &Vec<char>, a: usize, b: usize) -> (r: bool)
    requires
        a <= b <= v@.len(),
    ensures
        r == quoted_span(v@, a as int, b as int),
{
    if b - a < 2 {
        return false;
    }
    (v[a] == '"' && v[b - 1] == '"') || (v[a] == '\u{201C}' && v[b - 1] == '\u{201D}')
}

/// Removes the quotes that wrap `v[a..b]`, if any.
pub(crate) fn remove_quotes(v: &Vec<char>, a: usize, b: usize) -> (r: (usize, usize))
    requires
        a <= b <= v@.len(),
    ensures
        r.0 as int == unquoted_span(v@, a as int, b as int).0,
        r.1 as int == unquoted_span(v@, a as int, b as int).1,
        a <= r.0 <= r.1 <= b,
{
    if is_quoted(v, a, b) {
        (a + 1, b - 1)
    } else {
        (a, b)
    }
}

} // verus!
