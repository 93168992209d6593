use vstd::prelude::*;

use crate::error::{error_at, NumberError, ParseError, ParseErrorKind, ParseErrorKindModel, ParseErrorModel};
use crate::helper::{decimal_value, is_decimal, parse_decimal};
use crate::span::Span;
use crate::text::str_eq;
use crate::token::Token;
use crate::warning::ParseWarning;

verus! {

/// The result of parsing.
pub type PResult<T> = Result<T, ParseError>;

/// A parser over a list of tokens: each token with its kind, its text and its span.
pub struct Parser {
    tokens: Vec<(Token, String, Span)>,
    source_len: usize,
    offset: usize,
    warnings: Vec<ParseWarning>,
    recursion: u16,
}

/// The state of a parser: the tokens, the length of the source, how many tokens were
/// read, the warnings so far, and how many more levels of nesting are allowed.
#[verifier::ext_equal]
pub struct PState {
    pub tokens: Seq<(Token, String, Span)>,
    pub source_len: usize,
    pub offset: nat,
    pub warnings: Seq<ParseWarning>,
    pub recursion: nat,
}

/// What a parse gives in the model: a value and the state after it, or an error.
/// An error in the model, with the state in which parsing stopped.
pub type SErr = (ParseErrorModel, PState);

/// What a parse gives in the model: a value and the state after it, or an error and the
/// state in which it stopped.
pub type SRes<T> = Result<(T, PState), SErr>;

/// What the lexer guarantees of a token: a string has its two quotes, a code point
/// starts with `U+`, and a number is a non-empty string of decimal digits.
pub open spec fn token_wf(t: (Token, String, Span)) -> bool {
    match t.0 {
        Token::String => t.1@.len() >= 2,
        Token::CodePoint => t.1@.len() >= 2 && t.1@[0] == 'U' && t.1@[1] == '+',
        Token::Number => t.1@.len() >= 1 && is_decimal(t.1@),
        _ => true,
    }
}

pub open spec fn tokens_wf(tokens: Seq<(Token, String, Span)>) -> bool {
    forall|i: int| 0 <= i < tokens.len() ==> #[trigger] token_wf(tokens[i])
}

impl PState {
    pub open spec fn wf(self) -> bool {
        &&& tokens_wf(self.tokens)
        &&& self.offset <= self.tokens.len()
        &&& self.tokens.len() <= usize::MAX
        &&& self.recursion <= u16::MAX
    }

    /// How many tokens are left.
    pub open spec fn remaining(self) -> nat {
        if self.offset <= self.tokens.len() {
            (self.tokens.len() - self.offset) as nat
        } else {
            0
        }
    }

    /// Whether the next token has the given kind.
    pub open spec fn is(self, t: Token) -> bool {
        self.offset < self.tokens.len() && self.tokens[self.offset as int].0 == t
    }

    /// The text of the next token.
    pub open spec fn text(self) -> Seq<char> {
        self.tokens[self.offset as int].1@
    }

    /// Whether the next token is the given reserved word.
    pub open spec fn is_reserved(self, name: Seq<char>) -> bool {
        self.is(Token::ReservedName) && self.text() == name
    }

    pub open spec fn advance(self) -> PState {
        PState { offset: self.offset + 1, ..self }
    }

    /// The span of the next token, or the empty span at the end of the source.
    pub open spec fn span(self) -> Span {
        if self.offset < self.tokens.len() {
            self.tokens[self.offset as int].2
        } else {
            Span { start: self.source_len, end: self.source_len }
        }
    }

    /// The span of the token read last.
    pub open spec fn last_span(self) -> Span {
        self.tokens[self.offset - 1].2
    }

    /// The text of the token read last.
    pub open spec fn last_text(self) -> Seq<char> {
        self.tokens[self.offset - 1].1@
    }

    pub open spec fn with_recursion(self, r: nat) -> PState {
        PState { recursion: r, ..self }
    }

    pub open spec fn add_warning(self, w: ParseWarning) -> PState {
        PState { warnings: self.warnings.push(w), ..self }
    }

    /// Reads a token of the given kind, or fails.
    pub open spec fn expect(self, t: Token) -> Result<PState, SErr> {
        if self.is(t) {
            Ok(self.advance())
        } else {
            Err((error_at(ParseErrorKindModel::ExpectedToken(t), self.span()), self))
        }
    }

    /// Reads a token of the given kind and gives its text, or fails.
    pub open spec fn expect_as(self, t: Token) -> SRes<Seq<char>> {
        if self.is(t) {
            Ok((self.text(), self.advance()))
        } else {
            Err((error_at(ParseErrorKindModel::ExpectedToken(t), self.span()), self))
        }
    }

    /// Reads the given reserved word, or fails.
    pub open spec fn expect_reserved(self, name: Seq<char>) -> Result<PState, SErr> {
        if self.is_reserved(name) {
            Ok(self.advance())
        } else {
            Err((error_at(ParseErrorKindModel::ExpectedKeyword(name), self.span()), self))
        }
    }

    /// Enters a nested expression, or fails when the nesting is too deep.
    pub open spec fn recursion_start(self) -> Result<PState, SErr> {
        if self.recursion == 0 {
            Err((error_at(ParseErrorKindModel::RecursionLimit, self.span()), self))
        } else {
            Ok(self.with_recursion((self.recursion - 1) as nat))
        }
    }

    pub open spec fn recursion_end(self) -> PState {
        self.with_recursion(self.recursion + 1)
    }

    /// Reads a number that must be at most `max`, if the next token is one.
    pub open spec fn consume_number(self, max: u32) -> SRes<Option<u32>> {
        if self.is(Token::Number) {
            if decimal_value(self.text()) <= max {
                Ok((Some(decimal_value(self.text()) as u32), self.advance()))
            } else {
                Err((error_at(ParseErrorKindModel::Number(NumberError::TooLarge), self.span()), self))
            }
        } else {
            Ok((None, self))
        }
    }

    /// Reads a number that must be at most `max`, or fails.
    pub open spec fn expect_number(self, max: u32) -> SRes<u32> {
        match self.consume_number(max) {
            Err(e) => Err(e),
            Ok((Some(n), st)) => Ok((n, st)),
            Ok((None, st)) => Err(
                (error_at(ParseErrorKindModel::Expected("number"@), st.span()), st),
            ),
        }
    }
}

impl View for Parser {
    type V = PState;

    closed spec fn view(&self) -> PState {
        PState {
            tokens: self.tokens@,
            source_len: self.source_len,
            offset: self.offset as nat,
            warnings: self.warnings@,
            recursion: self.recursion as nat,
        }
    }
}

impl Parser {
    /// A parser at the start of the given tokens, allowing the given depth of nesting.
    pub fn new(tokens: Vec<(Token, String, Span)>, source_len: usize, recursion: u16) -> (p: Parser)
        requires
            tokens_wf(tokens@),
        ensures
            p@ == (PState {
                tokens: tokens@,
                source_len,
                offset: 0,
                warnings: Seq::empty(),
                recursion: recursion as nat,
            }),
            p@.wf(),
    {
        assert(tokens@.len() == tokens.len());
        Parser { tokens, source_len, offset: 0, warnings: Vec::new(), recursion }
    }

    /// The warnings issued so far.
    pub fn warnings(&self) -> (w: &Vec<ParseWarning>)
        ensures
            w@ == self@.warnings,
    {
        &self.warnings
    }

    /// Whether every token has been read.
    pub fn is_empty(&self) -> (b: bool)
        ensures
            b == (self@.offset >= self@.tokens.len()),
    {
        self.offset >= self.tokens.len()
    }

    /// The kind and text of the next token, if there is one.
    pub fn peek(&self) -> (r: Option<(Token, &str)>)
        ensures
            self@.offset < self@.tokens.len() ==> (r matches Some((t, s)) && t
                == self@.tokens[self@.offset as int].0 && s@ == self@.text()),
            self@.offset >= self@.tokens.len() ==> r is None,
    {
        if self.offset < self.tokens.len() {
            let t = &self.tokens[self.offset];
            Some((t.0, t.1.as_str()))
        } else {
            None
        }
    }

    /// Whether the next token has the given kind.
    pub fn is(&self, token: Token) -> (b: bool)
        ensures
            b == self@.is(token),
    {
        self.offset < self.tokens.len() && self.tokens[self.offset].0 == token
    }

    /// The text of the next token.
    pub fn current_text(&self) -> (s: &str)
        requires
            self@.offset < self@.tokens.len(),
        ensures
            s@ == self@.text(),
    {
        self.tokens[self.offset].1.as_str()
    }

    /// The text of the token read last.
    pub fn last_text(&self) -> (s: &str)
        requires
            0 < self@.offset <= self@.tokens.len(),
        ensures
            s@ == self@.last_text(),
    {
        self.tokens[self.offset - 1].1.as_str()
    }

    /// The span of the next token, or the empty span at the end of the source.
    pub fn span(&self) -> (s: Span)
        ensures
            s == self@.span(),
    {
        if self.offset < self.tokens.len() {
            self.tokens[self.offset].2
        } else {
            Span::new(self.source_len, self.source_len)
        }
    }

    /// The span of the token read last.
    pub fn last_span(&self) -> (s: Span)
        requires
            0 < self@.offset <= self@.tokens.len(),
        ensures
            s == self@.last_span(),
    {
        self.tokens[self.offset - 1].2
    }

    /// Moves past the next token.
    pub fn advance(&mut self)
        requires
            old(self)@.wf(),
            old(self)@.offset < old(self)@.tokens.len(),
        ensures
            final(self)@ == old(self)@.advance(),
    {
        let n = self.tokens.len();
        assert(self.offset < n);
        self.offset = self.offset + 1;
    }

    /// Reads a token of the given kind, if the next token is one.
    pub fn consume(&mut self, token: Token) -> (b: bool)
        requires
            old(self)@.wf(),
        ensures
            b == old(self)@.is(token),
            final(self)@ == (if b { old(self)@.advance() } else { old(self)@ }),
    {
        if self.is(token) {
            self.advance();
            true
        } else {
            false
        }
    }

    /// Reads a token of the given kind and gives its text, if the next token is one.
    pub fn consume_as(&mut self, token: Token) -> (r: Option<String>)
        requires
            old(self)@.wf(),
        ensures
            old(self)@.is(token) ==> r is Some && r->0@ == old(self)@.text() && final(self)@
                == old(self)@.advance(),
            !old(self)@.is(token) ==> r is None && final(self)@ == old(self)@,
    {
        if self.is(token) {
            let s = self.tokens[self.offset].1.clone();
            self.advance();
            Some(s)
        } else {
            None
        }
    }

    /// Reads the given reserved word, if the next token is it.
    pub fn consume_reserved(&mut self, reserved: &str) -> (b: bool)
        requires
            old(self)@.wf(),
        ensures
            b == old(self)@.is_reserved(reserved@),
            final(self)@ == (if b { old(self)@.advance() } else { old(self)@ }),
    {
        if self.is(Token::ReservedName) && str_eq(self.current_text(), reserved) {
            self.advance();
            true
        } else {
            false
        }
    }

    /// Reads a token of the given kind, or fails.
    pub fn expect(&mut self, token: Token) -> (r: PResult<()>)
        requires
            old(self)@.wf(),
        ensures
            match old(self)@.expect(token) {
                Ok(st) => r is Ok && final(self)@ == st,
                Err((e, st)) => r is Err && r->Err_0@ == e && final(self)@ == st,
            },
    {
        if !self.consume(token) {
            return Err(ParseErrorKind::ExpectedToken(token).at(self.span()));
        }
        Ok(())
    }

    /// Reads a token of the given kind and gives its text, or fails.
    pub fn expect_as(&mut self, token: Token) -> (r: PResult<String>)
        requires
            old(self)@.wf(),
        ensures
            match old(self)@.expect_as(token) {
                Ok((s, st)) => r is Ok && r->Ok_0@ == s && final(self)@ == st,
                Err((e, st)) => r is Err && r->Err_0@ == e && final(self)@ == st,
            },
    {
        match self.consume_as(token) {
            Some(s) => Ok(s),
            None => Err(ParseErrorKind::ExpectedToken(token).at(self.span())),
        }
    }

    /// Reads the given reserved word, or fails.
    pub fn expect_reserved(&mut self, reserved: &'static str) -> (r: PResult<()>)
        requires
            old(self)@.wf(),
        ensures
            match old(self)@.expect_reserved(reserved@) {
                Ok(st) => r is Ok && final(self)@ == st,
                Err((e, st)) => r is Err && r->Err_0@ == e && final(self)@ == st,
            },
    {
        if !self.consume_reserved(reserved) {
            return Err(ParseErrorKind::ExpectedKeyword(reserved).at(self.span()));
        }
        Ok(())
    }

    /// Enters a nested expression, or fails when the nesting is too deep.
    pub fn recursion_start(&mut self) -> (r: PResult<()>)
        requires
            old(self)@.wf(),
        ensures
            match old(self)@.recursion_start() {
                Ok(st) => r is Ok && final(self)@ == st,
                Err((e, st)) => r is Err && r->Err_0@ == e && final(self)@ == st,
            },
    {
        if self.recursion == 0 {
            return Err(ParseErrorKind::RecursionLimit.at(self.span()));
        }
        self.recursion = self.recursion - 1;
        Ok(())
    }

    /// Leaves a nested expression.
    pub fn recursion_end(&mut self)
        requires
            old(self)@.wf(),
            old(self)@.recursion < u16::MAX,
        ensures
            final(self)@ == old(self)@.recursion_end(),
    {
        self.recursion = self.recursion + 1;
    }

    /// Records a warning.
    pub fn add_warning(&mut self, warning: ParseWarning)
        requires
            old(self)@.wf(),
        ensures
            final(self)@ == old(self)@.add_warning(warning),
    {
        self.warnings.push(warning);
    }

    /// Reads a number that must be at most `max`, if the next token is one.
    pub fn consume_number(&mut self, max: u32) -> (r: PResult<Option<u32>>)
        requires
            old(self)@.wf(),
        ensures
            match old(self)@.consume_number(max) {
                Ok((n, st)) => r is Ok && r->Ok_0 == n && final(self)@ == st,
                Err((e, st)) => r is Err && r->Err_0@ == e && final(self)@ == st,
            },
    {
        if self.is(Token::Number) {
            proof {
                assert(token_wf(self@.tokens[self@.offset as int]));
            }
            match parse_decimal(self.current_text(), max) {
                Some(n) => {
                    self.advance();
                    Ok(Some(n))
                },
                None => Err(ParseErrorKind::Number(NumberError::TooLarge).at(self.span())),
            }
        } else {
            Ok(None)
        }
    }

    /// Reads a number that must be at most `max`, or fails.
    pub fn expect_number(&mut self, max: u32) -> (r: PResult<u32>)
        requires
            old(self)@.wf(),
        ensures
            match old(self)@.expect_number(max) {
                Ok((n, st)) => r is Ok && r->Ok_0 == n && final(self)@ == st,
                Err((e, st)) => r is Err && r->Err_0@ == e && final(self)@ == st,
            },
    {
        match self.consume_number(max)? {
            Some(n) => Ok(n),
            None => Err(ParseErrorKind::Expected("number").at(self.span())),
        }
    }
}

} // verus!
