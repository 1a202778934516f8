//! The grammar of command arguments, and the lexer that follows it.

use vstd::prelude::*;

verus! {

/// What kind of argument a token is.
#[derive(Clone, Copy, Debug, PartialEq, Eq, Structural)]
pub enum TokenKind {
    Argument,
    QuotedArgument,
}

/// An argument's kind and its bounds in the message, in characters.
#[derive(Clone, Copy, Debug, PartialEq, Eq, Structural)]
pub struct Token {
    pub kind: TokenKind,
    pub start: usize,
    pub end: usize,
}

impl Token {
    /// A token of the given kind and bounds.
    pub fn new(kind: TokenKind, start: usize, end: usize) -> (r: Self)
        ensures
            r == (Token { kind: kind, start: start, end: end }),
    {
        Token { kind, start, end }
    }
}

/// The quotes an argument may open with: ASCII ones, or the typographic ones that
/// some keyboards put in place of them.
#[derive(Clone, Copy, Debug, PartialEq, Eq, Structural)]
pub enum QuoteKind {
    Ascii,
    Apple,
}

/// The kind of quote that `c` opens, if any.
pub open spec fn quote_kind(c: char) -> Option<QuoteKind> {
    if c == '"' {
        Some(QuoteKind::Ascii)
    } else if c == '\u{201C}' {
        Some(QuoteKind::Apple)
    } else {
        None
    }
}

/// Whether `c` closes a quote of kind `k`.
pub open spec fn ends_quote(k: QuoteKind, c: char) -> bool {
    match k {
        QuoteKind::Ascii => c == '"',
        QuoteKind::Apple => c == '\u{201D}',
    }
}

impl QuoteKind {
    /// The kind of quote that `c` opens, if any.
    pub fn new(c: char) -> (r: Option<Self>)
        ensures
            r == quote_kind(c),
    {
        if c == '"' {
            Some(QuoteKind::Ascii)
        } else if c == '\u{201C}' {
            Some(QuoteKind::Apple)
        } else {
            None
        }
    }

    /// Whether `c` closes a quote of this kind.
    pub fn is_ending_quote(self, c: char) -> (r: bool)
        ensures
            r == ends_quote(self, c),
    {
        match self {
            QuoteKind::Ascii => c == '"',
            QuoteKind::Apple => c == '\u{201D}',
        }
    }
}

/// The non-empty delimiter `d` occurs in `s` at `p`.
pub open spec fn delim_at(s: Seq<char>, p: int, d: Seq<char>) -> bool {
    &&& d.len() > 0
    &&& 0 <= p
    &&& p + d.len() <= s.len()
    &&& s.subrange(p, p + d.len()) == d
}

/// The first of the delimiters `ds[i..]` that occurs in `s` at `p`.
pub open spec fn first_delim(s: Seq<char>, p: int, ds: Seq<Seq<char>>, i: int) -> Option<int>
    decreases ds.len() - i,
{
    if i < 0 || i >= ds.len() {
        None
    } else if delim_at(s, p, ds[i]) {
        Some(i)
    } else {
        first_delim(s, p, ds, i + 1)
    }
}

/// Where an unquoted argument that starts at `a` ends: at the first position where
/// a delimiter occurs, or at the end of `s`.
pub open spec fn plain_end(s: Seq<char>, ds: Seq<Seq<char>>, a: int) -> int
    decreases s.len() - a,
{
    if a >= s.len() {
        s.len() as int
    } else if first_delim(s, a, ds, 0).is_some() {
        a
    } else {
        plain_end(s, ds, a + 1)
    }
}

/// Where the stream continues after the delimiter found at `e`, if one is.
pub open spec fn after_delim(s: Seq<char>, ds: Seq<Seq<char>>, e: int) -> int {
    match first_delim(s, e, ds, 0) {
        Some(i) => e + ds[i].len(),
        None => e,
    }
}

/// Where a quote of kind `k` closes, scanning from `p`: the first closing quote not
/// preceded by a backslash, or the end of `s`.
pub open spec fn quote_close(s: Seq<char>, k: QuoteKind, p: int, prev_backslash: bool) -> int
    decreases s.len() - p,
{
    if p >= s.len() {
        s.len() as int
    } else if ends_quote(k, s[p]) && !prev_backslash {
        p
    } else {
        quote_close(s, k, p + 1, s[p] == '\\')
    }
}

/// Where the stream continues once each delimiter `ds[i..]`, in order, is skipped
/// where it occurs.
pub open spec fn eat_all(s: Seq<char>, p: int, ds: Seq<Seq<char>>, i: int) -> int
    decreases ds.len() - i,
{
    if i < 0 || i >= ds.len() {
        p
    } else {
        eat_all(s, if delim_at(s, p, ds[i]) { p + ds[i].len() } else { p }, ds, i + 1)
    }
}

/// The argument that starts at `a` and where the stream continues after it. An
/// argument that opens with a quote runs to its closing quote, and the delimiters
/// that follow are skipped; without a closing quote it is a plain argument to the
/// end. Any other argument runs to the next delimiter, which is skipped.
pub open spec fn lex_at(s: Seq<char>, ds: Seq<Seq<char>>, a: int) -> (Token, int) {
    match quote_kind(s[a]) {
        Some(k) => {
            let close = quote_close(s, k, a + 1, false);
            if close < s.len() {
                let end = close + 1;
                (Token { kind: TokenKind::QuotedArgument, start: a as usize, end: end as usize },
                eat_all(s, end, ds, 0))
            } else {
                (Token { kind: TokenKind::Argument, start: a as usize, end: s.len() as usize },
                s.len() as int)
            }
        },
        None => {
            let e = plain_end(s, ds, a);
            (Token { kind: TokenKind::Argument, start: a as usize, end: e as usize },
            after_delim(s, ds, e))
        },
    }
}

/// The non-empty arguments of `s` from position `a` on.
pub open spec fn tokens_from(s: Seq<char>, ds: Seq<Seq<char>>, a: int) -> Seq<Token>
    decreases s.len() - a,
{
    if a < 0 || a >= s.len() {
        Seq::empty()
    } else {
        let t = lex_at(s, ds, a).0;
        let next = lex_at(s, ds, a).1;
        if next <= a || next > s.len() {
            Seq::empty()
        } else if t.start < t.end {
            seq![t] + tokens_from(s, ds, next)
        } else {
            tokens_from(s, ds, next)
        }
    }
}

/// The delimiters, each as its characters.
pub open spec fn delims_view(ds: Seq<Vec<char>>) -> Seq<Seq<char>> {
    ds.map_values(|d: Vec<char>| d@)
}

/// Whether the non-empty delimiter `d` occurs in `v` at `p`.
pub(crate) fn delim_at_exec(v: &Vec<char>, p: usize, d: &Vec<char>) -> (r: bool)
    ensures
        r == delim_at(v@, p as int, d@),
{
    if d.len() == 0 || p > v.len() || d.len() > v.len() - p {
        return false;
    }
    let mut i: usize = 0;
    let n = v.len();
    while i < d.len()
        invariant
            i <= d@.len(),
            n == v@.len(),
            p + d@.len() <= n,
            forall|j: int| 0 <= j < i ==> v@[p + j] == d@[j],
        decreases d@.len() - i,
    {
        if v[p + i] != d[i] {
            proof {
                assert(v@.subrange(p as int, p + d@.len())[i as int] != d@[i as int]);
            }
            return false;
        }
        i = i + 1;
    }
    proof {
        assert(v@.subrange(p as int, p + d@.len()) =~= d@);
    }
    true
}

/// The first delimiter that occurs in `v` at `p`.
pub(crate) fn first_delim_exec(v: &Vec<char>, p: usize, ds: &Vec<Vec<char>>) -> (r: Option<usize>)
    ensures
        match r {
            Some(i) => first_delim(v@, p as int, delims_view(ds@), 0) == Some(i as int) && i
                < ds@.len(),
            None => first_delim(v@, p as int, delims_view(ds@), 0).is_none(),
        },
{
    let ghost dv = delims_view(ds@);
    let mut i: usize = 0;
    while i < ds.len()
        invariant
            i <= ds@.len(),
            dv == delims_view(ds@),
            first_delim(v@, p as int, dv, 0) == first_delim(v@, p as int, dv, i as int),
        decreases ds@.len() - i,
    {
        if delim_at_exec(v, p, &ds[i]) {
            return Some(i);
        }
        i = i + 1;
    }
    None
}

/// An unquoted argument ends within the text, not before its start.
pub proof fn lemma_plain_end_bounds(s: Seq<char>, ds: Seq<Seq<char>>, a: int)
    requires
        0 <= a <= s.len(),
    ensures
        a <= plain_end(s, ds, a) <= s.len(),
    decreases s.len() - a,
{
    if a < s.len() && first_delim(s, a, ds, 0).is_none() {
        lemma_plain_end_bounds(s, ds, a + 1);
    }
}

/// A delimiter found by `first_delim` occurs there.
pub proof fn lemma_first_delim_occurs(s: Seq<char>, p: int, ds: Seq<Seq<char>>, i: int)
    requires
        0 <= i,
    ensures
        match first_delim(s, p, ds, i) {
            Some(j) => i <= j < ds.len() && delim_at(s, p, ds[j]),
            None => true,
        },
    decreases ds.len() - i,
{
    if i < ds.len() && !delim_at(s, p, ds[i]) {
        lemma_first_delim_occurs(s, p, ds, i + 1);
    }
}

/// Where an unquoted argument that starts at `a` ends.
pub(crate) fn plain_end_exec(v: &Vec<char>, ds: &Vec<Vec<char>>, a: usize) -> (r: usize)
    requires
        a <= v@.len(),
    ensures
        r as int == plain_end(v@, delims_view(ds@), a as int),
        a <= r <= v@.len(),
{
    let mut p = a;
    while p < v.len()
        invariant
            a <= p <= v@.len(),
            plain_end(v@, delims_view(ds@), p as int) == plain_end(v@, delims_view(ds@), a as int),
        decreases v@.len() - p,
    {
        if first_delim_exec(v, p, ds).is_some() {
            return p;
        }
        p = p + 1;
    }
    p
}

/// Where a quote of kind `k` closes, scanning from `p`.
pub(crate) fn quote_close_exec(v: &Vec<char>, k: QuoteKind, p: usize) -> (r: usize)
    requires
        p <= v@.len(),
    ensures
        r as int == quote_close(v@, k, p as int, false),
        p <= r <= v@.len(),
{
    let mut i = p;
    let mut prev_backslash = false;
    while i < v.len()
        invariant
            p <= i <= v@.len(),
            quote_close(v@, k, i as int, prev_backslash) == quote_close(v@, k, p as int, false),
        decreases v@.len() - i,
    {
        let c = v[i];
        if k.is_ending_quote(c) && !prev_backslash {
            return i;
        }
        prev_backslash = c == '\\';
        i = i + 1;
    }
    i
}

/// Skips each delimiter, in order, where it occurs.
pub(crate) fn eat_all_exec(v: &Vec<char>, p: usize, ds: &Vec<Vec<char>>) -> (r: usize)
    requires
        p <= v@.len(),
    ensures
        r as int == eat_all(v@, p as int, delims_view(ds@), 0),
        p <= r <= v@.len(),
{
    let ghost dv = delims_view(ds@);
    let mut q = p;
    let mut i: usize = 0;
    let n = v.len();
    while i < ds.len()
        invariant
            i <= ds@.len(),
            n == v@.len(),
            p <= q <= v@.len(),
            dv == delims_view(ds@),
            eat_all(v@, q as int, dv, i as int) == eat_all(v@, p as int, dv, 0),
        decreases ds@.len() - i,
    {
        proof {
            assert(ds@[i as int]@ == dv[i as int]);
        }
        if delim_at_exec(v, q, &ds[i]) {
            q = q + ds[i].len();
        }
        i = i + 1;
    }
    q
}

/// The argument that starts at `a`, and where the stream continues after it.
pub(crate) fn lex(v: &Vec<char>, ds: &Vec<Vec<char>>, a: usize) -> (r: (Token, usize))
    requires
        a < v@.len(),
    ensures
        r.0 == lex_at(v@, delims_view(ds@), a as int).0,
        r.1 as int == lex_at(v@, delims_view(ds@), a as int).1,
        a < r.1 <= v@.len() || (r.0.start < r.0.end && r.1 == v@.len()),
        r.0.start <= r.0.end <= v@.len(),
        r.0.start == a,
{
    let n = v.len();
    match QuoteKind::new(v[a]) {
        Some(k) => {
            let close = quote_close_exec(v, k, a + 1);
            if close < v.len() {
                let end = close + 1;
                let next = eat_all_exec(v, end, ds);
                (Token::new(TokenKind::QuotedArgument, a, end), next)
            } else {
                (Token::new(TokenKind::Argument, a, v.len()), v.len())
            }
        },
        None => {
            let e = plain_end_exec(v, ds, a);
            proof {
                if e == a {
                    lemma_plain_end_bounds(v@, delims_view(ds@), a as int + 1);
                }
            }
            let next = match first_delim_exec(v, e, ds) {
                Some(i) => {
                    proof {
                        assert(ds@[i as int]@ == delims_view(ds@)[i as int]);
                        lemma_first_delim_occurs(v@, e as int, delims_view(ds@), 0);
                    }
                    e + ds[i].len()
                },
                None => e,
            };
            (Token::new(TokenKind::Argument, a, e), next)
        },
    }
}

} // verus!
