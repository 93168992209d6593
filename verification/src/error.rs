use vstd::prelude::*;

use crate::span::Span;
use crate::token::Token;

verus! {

/// Errors in a character set.
#[derive(Clone, Debug, PartialEq, Eq)]
pub enum CharClassError {
    /// The set is empty: `[]`.
    Empty,
    /// A caret right after the opening bracket: `[^`.
    CaretInGroup,
    /// A range whose first character is not smaller than its last one.
    DescendingRange(char, char),
    /// `.` or `codepoint` combined with other items.
    Unallowed,
    /// A name that does not denote a character class.
    UnknownNamedClass(String),
    /// `.` or `codepoint` negated.
    Negative,
}

/// Errors in a string that must hold exactly one character.
#[derive(Clone, Copy, Debug, PartialEq, Eq, Structural)]
pub enum CharStringError {
    Empty,
    TooManyCodePoints,
}

/// Errors in a code point.
#[derive(Clone, Copy, Debug, PartialEq, Eq, Structural)]
pub enum CodePointError {
    /// Not a Unicode scalar value, or more than six hexadecimal digits.
    Invalid,
}

/// Errors in a number.
#[derive(Clone, Copy, Debug, PartialEq, Eq, Structural)]
pub enum NumberError {
    Empty,
    InvalidDigit,
    TooLarge,
    TooSmall,
    LeadingZero,
}

/// Errors in a repetition.
#[derive(Clone, Copy, Debug, PartialEq, Eq, Structural)]
pub enum RepetitionError {
    /// The lower bound is greater than the upper bound.
    NotAscending,
    /// A `?` after a repetition.
    QmSuffix,
    /// Two repetitions in a row.
    Multi,
}

/// The kinds of parse errors.
#[derive(Clone, Debug, PartialEq, Eq)]
pub enum ParseErrorKind {
    ExpectedToken(Token),
    ExpectedKeyword(&'static str),
    Expected(&'static str),
    LonePipe,
    LetBindingExists,
    KeywordAfterLet(String),
    UnexpectedKeyword(String),
    UnallowedNot,
    UnallowedMultiNot(usize),
    UnallowedDoubleNot,
    RangeIsNotIncreasing,
    RecursionLimit,
    CharString(CharStringError),
    CharClass(CharClassError),
    CodePoint(CodePointError),
    Number(NumberError),
    Repetition(RepetitionError),
    InvalidEscapeInStringAt(usize),
}

/// A parse error: its kind, and where it occurred.
#[derive(Clone, Debug, PartialEq, Eq)]
pub struct ParseError {
    pub kind: ParseErrorKind,
    pub span: Option<Span>,
}

/// What a `CharClassError` means, with its text as a sequence of characters.
pub enum CharClassErrorModel {
    Empty,
    CaretInGroup,
    DescendingRange(char, char),
    Unallowed,
    UnknownNamedClass(Seq<char>),
    Negative,
}

/// What a `ParseErrorKind` means, with its texts as sequences of characters.
pub enum ParseErrorKindModel {
    ExpectedToken(Token),
    ExpectedKeyword(Seq<char>),
    Expected(Seq<char>),
    LonePipe,
    LetBindingExists,
    KeywordAfterLet(Seq<char>),
    UnexpectedKeyword(Seq<char>),
    UnallowedNot,
    UnallowedMultiNot(usize),
    UnallowedDoubleNot,
    RangeIsNotIncreasing,
    RecursionLimit,
    CharString(CharStringError),
    CharClass(CharClassErrorModel),
    CodePoint(CodePointError),
    Number(NumberError),
    Repetition(RepetitionError),
    InvalidEscapeInStringAt(usize),
}

/// What a `ParseError` means.
pub struct ParseErrorModel {
    pub kind: ParseErrorKindModel,
    pub span: Option<Span>,
}

impl View for CharClassError {
    type V = CharClassErrorModel;

    open spec fn view(&self) -> CharClassErrorModel {
        match self {
            CharClassError::Empty => CharClassErrorModel::Empty,
            CharClassError::CaretInGroup => CharClassErrorModel::CaretInGroup,
            CharClassError::DescendingRange(a, b) => CharClassErrorModel::DescendingRange(*a, *b),
            CharClassError::Unallowed => CharClassErrorModel::Unallowed,
            CharClassError::UnknownNamedClass(s) => CharClassErrorModel::UnknownNamedClass(s@),
            CharClassError::Negative => CharClassErrorModel::Negative,
        }
    }
}

impl View for ParseErrorKind {
    type V = ParseErrorKindModel;

    open spec fn view(&self) -> ParseErrorKindModel {
        match self {
            ParseErrorKind::ExpectedToken(t) => ParseErrorKindModel::ExpectedToken(*t),
            ParseErrorKind::ExpectedKeyword(s) => ParseErrorKindModel::ExpectedKeyword(s@),
            ParseErrorKind::Expected(s) => ParseErrorKindModel::Expected(s@),
            ParseErrorKind::LonePipe => ParseErrorKindModel::LonePipe,
            ParseErrorKind::LetBindingExists => ParseErrorKindModel::LetBindingExists,
            ParseErrorKind::KeywordAfterLet(s) => ParseErrorKindModel::KeywordAfterLet(s@),
            ParseErrorKind::UnexpectedKeyword(s) => ParseErrorKindModel::UnexpectedKeyword(s@),
            ParseErrorKind::UnallowedNot => ParseErrorKindModel::UnallowedNot,
            ParseErrorKind::UnallowedMultiNot(n) => ParseErrorKindModel::UnallowedMultiNot(*n),
            ParseErrorKind::UnallowedDoubleNot => ParseErrorKindModel::UnallowedDoubleNot,
            ParseErrorKind::RangeIsNotIncreasing => ParseErrorKindModel::RangeIsNotIncreasing,
            ParseErrorKind::RecursionLimit => ParseErrorKindModel::RecursionLimit,
            ParseErrorKind::CharString(e) => ParseErrorKindModel::CharString(*e),
            ParseErrorKind::CharClass(e) => ParseErrorKindModel::CharClass(e@),
            ParseErrorKind::CodePoint(e) => ParseErrorKindModel::CodePoint(*e),
            ParseErrorKind::Number(e) => ParseErrorKindModel::Number(*e),
            ParseErrorKind::Repetition(e) => ParseErrorKindModel::Repetition(*e),
            ParseErrorKind::InvalidEscapeInStringAt(n) => ParseErrorKindModel::InvalidEscapeInStringAt(*n),
        }
    }
}

impl View for ParseError {
    type V = ParseErrorModel;

    open spec fn view(&self) -> ParseErrorModel {
        ParseErrorModel { kind: self.kind@, span: self.span }
    }
}

/// The error of the given kind at the given span.
pub open spec fn error_at(kind: ParseErrorKindModel, span: Span) -> ParseErrorModel {
    ParseErrorModel { kind, span: Some(span) }
}

impl ParseErrorKind {
    /// Attaches a span to this kind of error.
    pub fn at(self, span: Span) -> (e: ParseError)
        ensures
            e@ == error_at(self@, span),
    {
        ParseError { kind: self, span: Some(span) }
    }
}

} // verus!
