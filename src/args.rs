//! Splitting a command's text into arguments: by delimiters, with quoted arguments
//! kept whole.

use vstd::prelude::*;

use crate::lexer::{delim_at, delim_at_exec, delims_view, lex, tokens_from, Token, TokenKind};
use crate::text::{
    chars_of, is_quoted, quoted_span, remove_quotes, string_of, trim_span, trimmed_span,
    unquoted_span,
};

verus! {

/// How an argument operation failed.
#[derive(Debug)]
pub enum Error<E> {
    /// There are no arguments left.
    Eos,
    /// The argument did not parse.
    Parse(E),
}

/// What separates arguments: one character, or a string.
#[derive(Clone, Debug)]
pub enum Delimiter {
    Single(char),
    Multiple(String),
}

/// The characters of a delimiter.
pub open spec fn delim_chars(d: Delimiter) -> Seq<char> {
    match d {
        Delimiter::Single(c) => seq![c],
        Delimiter::Multiple(s) => s@,
    }
}

impl Delimiter {
    /// The characters of the delimiter.
    fn to_chars(&self) -> (r: Vec<char>)
        ensures
            r@ == delim_chars(*self),
    {
        match self {
            Delimiter::Single(c) => {
                let mut v: Vec<char> = Vec::new();
                v.push(*c);
                proof {
                    assert(v@ =~= seq![*c]);
                }
                v
            },
            Delimiter::Multiple(s) => chars_of(s.as_str()),
        }
    }
}

/// What is done to each argument before it is handed out: quotes removed, white
/// space trimmed, both (in the order they were asked for), or neither.
#[derive(Clone, Copy, Debug, PartialEq, Eq, Structural)]
pub enum State {
    Unchanged,
    Quoted,
    Trimmed,
    QuotedTrimmed,
    TrimmedQuoted,
}

/// Some delimiter of `ds` occurs in `s`.
pub open spec fn some_delim_occurs(s: Seq<char>, ds: Seq<Seq<char>>) -> bool {
    exists|i: int, p: int| 0 <= i < ds.len() && #[trigger] delim_at(s, p, ds[i])
}

/// The arguments of a message: with no delimiter in it, the whole message is the
/// one argument, unless it is all white space; otherwise the non-empty arguments
/// that the delimiters separate.
pub open spec fn arguments_of(s: Seq<char>, ds: Seq<Seq<char>>) -> Seq<Token> {
    if some_delim_occurs(s, ds) {
        tokens_from(s, ds, 0)
    } else {
        let (x, y) = trimmed_span(s, 0, s.len() as int);
        if x >= y {
            Seq::empty()
        } else {
            seq![
                Token {
                    kind: if quoted_span(s, x, y) {
                        TokenKind::QuotedArgument
                    } else {
                        TokenKind::Argument
                    },
                    start: 0,
                    end: s.len() as usize,
                },
            ]
        }
    }
}

/// The bounds of an argument once the state's changes are applied.
pub open spec fn applied_span(s: Seq<char>, st: State, a: int, b: int) -> (int, int) {
    match st {
        State::Unchanged => (a, b),
        State::Quoted => unquoted_span(s, a, b),
        State::Trimmed => trimmed_span(s, a, b),
        State::QuotedTrimmed => {
            let (x, y) = unquoted_span(s, a, b);
            trimmed_span(s, x, y)
        },
        State::TrimmedQuoted => {
            let (x, y) = trimmed_span(s, a, b);
            unquoted_span(s, x, y)
        },
    }
}

/// The text of an argument once the state's changes are applied.
pub open spec fn applied(s: Seq<char>, st: State, t: Token) -> Seq<char> {
    let (x, y) = applied_span(s, st, t.start as int, t.end as int);
    s.subrange(x, y)
}

/// A command's arguments, read one after another.
#[derive(Clone, Debug)]
pub struct Args {
    pub(crate) message: String,
    pub(crate) chars: Vec<char>,
    pub(crate) tokens: Vec<Token>,
    pub(crate) offset: usize,
    pub(crate) state: State,
}

/// The arguments as a value.
pub ghost struct ArgsView {
    pub message: Seq<char>,
    pub tokens: Seq<Token>,
    pub offset: usize,
    pub state: State,
}

impl View for Args {
    type V = ArgsView;

    open(crate) spec fn view(&self) -> ArgsView {
        ArgsView {
            message: self.message@,
            tokens: self.tokens@,
            offset: self.offset,
            state: self.state,
        }
    }
}

impl ArgsView {
    /// Every argument lies within the message.
    pub open spec fn wf(self) -> bool {
        forall|i: int| 0 <= i < self.tokens.len() ==> (#[trigger] self.tokens[i]).start
            <= self.tokens[i].end <= self.message.len()
    }

    /// No argument is left to read.
    pub open spec fn exhausted(self) -> bool {
        self.offset >= self.tokens.len()
    }

    /// The current argument as handed out, if one is left.
    pub open spec fn current(self) -> Option<Seq<char>> {
        if self.exhausted() {
            None
        } else {
            Some(applied(self.message, self.state, self.tokens[self.offset as int]))
        }
    }
}

impl Args {
    /// The invariant: the characters are the message's, and every argument lies within it.
    pub open(crate) spec fn wf(&self) -> bool {
        &&& self.chars@ == self.message@
        &&& self@.wf()
    }

    /// Whether some non-empty delimiter occurs in the message.
    fn some_occurs(v: &Vec<char>, ds: &Vec<Vec<char>>) -> (r: bool)
        ensures
            r == some_delim_occurs(v@, delims_view(ds@)),
    {
        let ghost dv = delims_view(ds@);
        let mut i: usize = 0;
        while i < ds.len()
            invariant
                i <= ds@.len(),
                dv == delims_view(ds@),
                forall|j: int, p: int| 0 <= j < i ==> !#[trigger] delim_at(v@, p, dv[j]),
            decreases ds@.len() - i,
        {
            let mut p: usize = 0;
            while p < v.len()
                invariant
                    i < ds@.len(),
                    p <= v@.len(),
                    dv == delims_view(ds@),
                    forall|q: int| 0 <= q < p ==> !#[trigger] delim_at(v@, q, dv[i as int]),
                decreases v@.len() - p,
            {
                proof {
                    assert(ds@[i as int]@ == dv[i as int]);
                }
                if delim_at_exec(v, p, &ds[i]) {
                    proof {
                        assert(delim_at(v@, p as int, dv[i as int]));
                    }
                    return true;
                }
                p = p + 1;
            }
            proof {
                assert forall|q: int| !#[trigger] delim_at(v@, q, dv[i as int]) by {
                    if 0 <= q < p {
                    }
                }
            }
            i = i + 1;
        }
        false
    }

    /// Splits `message` into arguments by the delimiters that occur in it.
    pub fn new(message: &str, possible_delimiters: &[Delimiter]) -> (r: Self)
        ensures
            r.wf(),
            r@.message == message@,
            r@.tokens == arguments_of(
                message@,
                possible_delimiters@.map_values(|d: Delimiter| delim_chars(d)),
            ),
            r@.offset == 0,
            r@.state == State::Unchanged,
    {
        let v = chars_of(message);
        let ghost dsv = possible_delimiters@.map_values(|d: Delimiter| delim_chars(d));
        let mut ds: Vec<Vec<char>> = Vec::new();
        let mut i: usize = 0;
        while i < possible_delimiters.len()
            invariant
                i <= possible_delimiters@.len(),
                dsv == possible_delimiters@.map_values(|d: Delimiter| delim_chars(d)),
                delims_view(ds@) == dsv.subrange(0, i as int),
            decreases possible_delimiters@.len() - i,
        {
            let d = possible_delimiters[i].to_chars();
            let ghost before = ds@;
            ds.push(d);
            proof {
                assert(delims_view(ds@) =~= delims_view(before).push(d@));
                assert(dsv.subrange(0, i + 1) =~= dsv.subrange(0, i as int).push(dsv[i as int]));
            }
            i = i + 1;
        }
        proof {
            assert(dsv.subrange(0, i as int) =~= dsv);
        }
        let n = v.len();
        let mut tokens: Vec<Token> = Vec::new();
        if Self::some_occurs(&v, &ds) {
            let mut a: usize = 0;
            proof {
                assert(tokens@ + tokens_from(v@, dsv, 0) =~= tokens_from(v@, dsv, 0));
            }
            while a < n
                invariant
                    a <= n,
                    n == v@.len(),
                    delims_view(ds@) == dsv,
                    tokens@ + tokens_from(v@, dsv, a as int) == tokens_from(v@, dsv, 0),
                    forall|j: int| 0 <= j < tokens@.len() ==> (#[trigger] tokens@[j]).start
                        <= tokens@[j].end <= n,
                decreases n - a,
            {
                let (t, next) = lex(&v, &ds, a);
                let ghost before = tokens@;
                if t.start < t.end {
                    tokens.push(t);
                    proof {
                        assert(tokens@ + tokens_from(v@, dsv, next as int) =~= before + tokens_from(v@, dsv, a as int));
                    }
                }
                a = next;
            }
            proof {
                assert(tokens@ =~= tokens_from(v@, dsv, 0));
            }
        } else {
            let (x, y) = trim_span(&v, 0, n);
            if x < y {
                let kind = if is_quoted(&v, x, y) {
                    TokenKind::QuotedArgument
                } else {
                    TokenKind::Argument
                };
                tokens.push(Token::new(kind, 0, n));
                proof {
                    assert(tokens@ =~= arguments_of(message@, dsv));
                }
            } else {
                proof {
                    assert(tokens@ =~= arguments_of(message@, dsv));
                }
            }
        }
        Args { message: message.to_owned(), chars: v, tokens, offset: 0, state: State::Unchanged }
    }
}

impl Args {
    /// The bounds of argument `i` once `st`'s changes are applied.
    fn apply(&self, st: State, a: usize, b: usize) -> (r: (usize, usize))
        requires
            self.wf(),
            a <= b <= self@.message.len(),
        ensures
            r.0 as int == applied_span(self@.message, st, a as int, b as int).0,
            r.1 as int == applied_span(self@.message, st, a as int, b as int).1,
            r.0 <= r.1 <= self@.message.len(),
    {
        let v = &self.chars;
        match st {
            State::Unchanged => (a, b),
            State::Quoted => remove_quotes(v, a, b),
            State::Trimmed => trim_span(v, a, b),
            State::QuotedTrimmed => {
                let (x, y) = remove_quotes(v, a, b);
                trim_span(v, x, y)
            },
            State::TrimmedQuoted => {
                let (x, y) = trim_span(v, a, b);
                remove_quotes(v, x, y)
            },
        }
    }

    /// Moves to the next argument; does nothing once none is left.
    pub fn advance(&mut self) -> (r: &mut Self)
        requires
            old(self).wf(),
        ensures
            r.wf(),
            r@ == (if old(self)@.exhausted() {
                old(self)@
            } else {
                ArgsView { offset: (old(self)@.offset + 1) as usize, ..old(self)@ }
            }),
            *final(self) == *final(r),
    {
        if self.is_empty() {
            return self;
        }
        let n = self.tokens.len();
        self.offset = self.offset + 1;
        self
    }

    /// Moves back one argument; does nothing at the first.
    pub fn rewind(&mut self) -> (r: &mut Self)
        requires
            old(self).wf(),
        ensures
            r.wf(),
            r@ == (if old(self)@.offset == 0 {
                old(self)@
            } else {
                ArgsView { offset: (old(self)@.offset - 1) as usize, ..old(self)@ }
            }),
            *final(self) == *final(r),
    {
        if self.offset == 0 {
            return self;
        }
        self.offset = self.offset - 1;
        self
    }

    /// Goes back to the first argument.
    pub fn restore(&mut self)
        requires
            old(self).wf(),
        ensures
            final(self).wf(),
            final(self)@ == (ArgsView { offset: 0, ..old(self)@ }),
    {
        self.offset = 0;
    }

    /// The current argument, with the changes of `trimmed` and `quoted` applied.
    pub fn current(&self) -> (r: Option<String>)
        requires
            self.wf(),
        ensures
            match r {
                Some(s) => self@.current() == Some(s@),
                None => self@.current().is_none(),
            },
    {
        if self.is_empty() {
            return None;
        }
        let t = self.tokens[self.offset];
        proof {
            assert(self@.tokens[self.offset as int] == t);
        }
        let (x, y) = self.apply(self.state, t.start, t.end);
        Some(string_of(&self.chars, x, y))
    }

    /// Trims white space off every argument handed out from now on.
    pub fn trimmed(&mut self) -> (r: &mut Self)
        requires
            old(self).wf(),
        ensures
            r.wf(),
            r@ == (ArgsView {
                state: match old(self)@.state {
                    State::Unchanged => State::Trimmed,
                    State::Quoted => State::QuotedTrimmed,
                    st => st,
                },
                ..old(self)@
            }),
            *final(self) == *final(r),
    {
        match self.state {
            State::Unchanged => self.state = State::Trimmed,
            State::Quoted => self.state = State::QuotedTrimmed,
            _ => {},
        }
        self
    }

    /// Stops trimming white space.
    pub fn untrimmed(&mut self) -> (r: &mut Self)
        requires
            old(self).wf(),
        ensures
            r.wf(),
            r@ == (ArgsView {
                state: match old(self)@.state {
                    State::Trimmed => State::Unchanged,
                    State::QuotedTrimmed => State::Quoted,
                    State::TrimmedQuoted => State::Quoted,
                    st => st,
                },
                ..old(self)@
            }),
            *final(self) == *final(r),
    {
        match self.state {
            State::Trimmed => self.state = State::Unchanged,
            State::QuotedTrimmed | State::TrimmedQuoted => self.state = State::Quoted,
            _ => {},
        }
        self
    }

    /// Removes the quotes around every argument handed out from now on, if the
    /// current argument is a quoted one.
    pub fn quoted(&mut self) -> (r: &mut Self)
        requires
            old(self).wf(),
        ensures
            r.wf(),
            r@ == (if !old(self)@.exhausted() && old(self)@.tokens[old(self)@.offset as int].kind
                == TokenKind::QuotedArgument {
                ArgsView {
                    state: match old(self)@.state {
                        State::Unchanged => State::Quoted,
                        State::Trimmed => State::TrimmedQuoted,
                        st => st,
                    },
                    ..old(self)@
                }
            } else {
                old(self)@
            }),
            *final(self) == *final(r),
    {
        if self.is_empty() {
            return self;
        }
        let is_quoted = self.tokens[self.offset].kind == TokenKind::QuotedArgument;
        if is_quoted {
            match self.state {
                State::Unchanged => self.state = State::Quoted,
                State::Trimmed => self.state = State::TrimmedQuoted,
                _ => {},
            }
        }
        self
    }

    /// Stops removing quotes.
    pub fn unquoted(&mut self) -> (r: &mut Self)
        requires
            old(self).wf(),
        ensures
            r.wf(),
            r@ == (ArgsView {
                state: match old(self)@.state {
                    State::Quoted => State::Unchanged,
                    State::QuotedTrimmed => State::Trimmed,
                    State::TrimmedQuoted => State::Trimmed,
                    st => st,
                },
                ..old(self)@
            }),
            *final(self) == *final(r),
    {
        match self.state {
            State::Quoted => self.state = State::Unchanged,
            State::QuotedTrimmed | State::TrimmedQuoted => self.state = State::Trimmed,
            _ => {},
        }
        self
    }

    /// The message as given.
    pub fn message(&self) -> (r: &str)
        ensures
            r@ == self@.message,
    {
        self.message.as_str()
    }

    /// The message from the current argument on; empty once none is left.
    pub fn rest(&self) -> (r: String)
        requires
            self.wf(),
        ensures
            r@ == (if self@.exhausted() {
                Seq::empty()
            } else {
                self@.message.subrange(
                    self@.tokens[self@.offset as int].start as int,
                    self@.message.len() as int,
                )
            }),
    {
        match self.remains() {
            Some(s) => s,
            None => String::new(),
        }
    }

    /// The message from the current argument on, if one is left.
    pub fn remains(&self) -> (r: Option<String>)
        requires
            self.wf(),
        ensures
            match r {
                Some(s) => !self@.exhausted() && s@ == self@.message.subrange(
                    self@.tokens[self@.offset as int].start as int,
                    self@.message.len() as int,
                ),
                None => self@.exhausted(),
            },
    {
        if self.is_empty() {
            return None;
        }
        let t = self.tokens[self.offset];
        proof {
            assert(self@.tokens[self.offset as int] == t);
        }
        Some(string_of(&self.chars, t.start, self.chars.len()))
    }

    /// The number of arguments.
    pub fn len(&self) -> (r: usize)
        ensures
            r == self@.tokens.len(),
    {
        self.tokens.len()
    }

    /// Whether no argument is left to read.
    pub fn is_empty(&self) -> (r: bool)
        ensures
            r == self@.exhausted(),
    {
        self.offset >= self.len()
    }

    /// The number of arguments left to read.
    pub fn remaining(&self) -> (r: usize)
        ensures
            r == (if self@.exhausted() {
                0
            } else {
                self@.tokens.len() - self@.offset
            }),
    {
        if self.is_empty() {
            return 0;
        }
        self.len() - self.offset
    }

    /// The position of the current argument.
    pub fn offset(&self) -> (r: usize)
        ensures
            r == self@.offset,
    {
        self.offset
    }

    /// Moves to the argument at `offset`; past the last one, none is left.
    pub fn seek(&mut self, offset: usize)
        requires
            old(self).wf(),
        ensures
            final(self).wf(),
            final(self)@ == (ArgsView { offset: offset, ..old(self)@ }),
    {
        self.offset = offset;
    }

    /// The changes applied to arguments handed out.
    pub fn state(&self) -> (r: State)
        ensures
            r == self@.state,
    {
        self.state
    }

    /// Sets the changes applied to arguments handed out.
    pub fn set_state(&mut self, state: State)
        requires
            old(self).wf(),
        ensures
            final(self).wf(),
            final(self)@ == (ArgsView { state: state, ..old(self)@ }),
    {
        self.state = state;
    }

    /// Drops the argument at `pos` from the list for good; the message keeps it.
    pub fn remove_argument(&mut self, pos: usize)
        requires
            old(self).wf(),
            pos < old(self)@.tokens.len(),
        ensures
            final(self).wf(),
            final(self)@ == (ArgsView { tokens: old(self)@.tokens.remove(pos as int), ..old(self)@ }),
    {
        self.tokens.remove(pos);
        proof {
            assert forall|i: int| 0 <= i < self@.tokens.len() implies (#[trigger] self@.tokens[i]).start
                <= self@.tokens[i].end <= self@.message.len() by {
                if i < pos {
                    assert(self@.tokens[i] == old(self)@.tokens[i]);
                } else {
                    assert(self@.tokens[i] == old(self)@.tokens[i + 1]);
                }
            }
        }
    }

    /// Every argument, as written.
    pub fn raw(&self) -> (r: RawArguments)
        requires
            self.wf(),
        ensures
            r@.wf(),
            r@.msg == self@.message,
            r@.tokens == self@.tokens,
            !r@.quoted,
    {
        RawArguments { msg: self.chars.clone(), tokens: self.tokens.clone(), quoted: false }
    }

    /// Every argument, without the quotes that wrap it.
    pub fn raw_quoted(&self) -> (r: RawArguments)
        requires
            self.wf(),
        ensures
            r@.wf(),
            r@.msg == self@.message,
            r@.tokens == self@.tokens,
            r@.quoted,
    {
        let mut raw = self.raw();
        raw.quoted = true;
        raw
    }
}

/// The arguments of a message in turn, as written or without their quotes.
#[derive(Debug)]
pub struct RawArguments {
    pub(crate) msg: Vec<char>,
    pub(crate) tokens: Vec<Token>,
    pub(crate) quoted: bool,
}

/// The arguments left, as a value.
pub ghost struct RawView {
    pub msg: Seq<char>,
    pub tokens: Seq<Token>,
    pub quoted: bool,
}

impl View for RawArguments {
    type V = RawView;

    open(crate) spec fn view(&self) -> RawView {
        RawView { msg: self.msg@, tokens: self.tokens@, quoted: self.quoted }
    }
}

impl RawView {
    /// The arguments lie within the message.
    pub open spec fn wf(self) -> bool {
        forall|i: int| 0 <= i < self.tokens.len() ==> (#[trigger] self.tokens[i]).start
            <= self.tokens[i].end <= self.msg.len()
    }
}

impl RawArguments {

    /// The next argument, if any is left.
    pub fn next(&mut self) -> (r: Option<String>)
        requires
            old(self)@.wf(),
        ensures
            final(self)@.wf(),
            final(self)@.msg == old(self)@.msg,
            final(self)@.quoted == old(self)@.quoted,
            match r {
                Some(s) => {
                    let t = old(self)@.tokens[0];
                    let (x, y) = if old(self)@.quoted {
                        unquoted_span(old(self)@.msg, t.start as int, t.end as int)
                    } else {
                        (t.start as int, t.end as int)
                    };
                    &&& old(self)@.tokens.len() > 0
                    &&& final(self)@.tokens == old(self)@.tokens.drop_first()
                    &&& s@ == old(self)@.msg.subrange(x, y)
                },
                None => old(self)@.tokens.len() == 0 && final(self)@.tokens == old(self)@.tokens,
            },
    {
        if self.tokens.len() == 0 {
            return None;
        }
        let t = self.tokens.remove(0);
        let (x, y) = if self.quoted {
            remove_quotes(&self.msg, t.start, t.end)
        } else {
            (t.start, t.end)
        };
        Some(string_of(&self.msg, x, y))
    }
}

} // verus!
