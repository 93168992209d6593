use vstd::prelude::*;

use crate::error::{ParseError, ParseErrorKind};
use crate::span::Span;

verus! {

/// The regex flavors that compiled expressions can target.
#[derive(Clone, Copy, Debug, PartialEq, Eq, Structural)]
pub enum RegexFlavor {
    Pcre,
    Python,
    Java,
    JavaScript,
    DotNet,
    Ruby,
    Rust,
}

/// An error that occurred while compiling an expression, with the place where it
/// occurred, if there is one.
#[derive(Debug, Clone, PartialEq, Eq)]
pub struct CompileError {
    pub kind: CompileErrorKind,
    pub span: Option<Span>,
}

/// The kinds of compile errors.
#[derive(Debug, Clone, PartialEq, Eq)]
#[non_exhaustive]
pub enum CompileErrorKind {
    ParseError(ParseErrorKind),
    Unsupported(Feature, RegexFlavor),
    HugeReference,
    UnknownReferenceNumber(u32),
    UnknownReferenceName(String),
    NameUsedMultipleTimes(String),
    EmptyClass,
    EmptyClassNegated,
    UnsupportedNegatedClass(String),
    Other(&'static str),
}

/// The features that a regex flavor may lack.
#[derive(Debug, Clone, Copy, PartialEq, Eq, Structural)]
#[non_exhaustive]
pub enum Feature {
    NamedCaptureGroups,
    Lookaround,
    Grapheme,
    UnicodeLineBreak,
    Backreference,
    ForwardReference,
    RelativeReference,
    NonNegativeRelativeReference,
}

impl CompileErrorKind {
    /// Attaches a span to this kind of error.
    pub fn at(self, span: Span) -> (e: CompileError)
        ensures
            e == (CompileError { kind: self, span: Some(span) }),
    {
        CompileError { kind: self, span: Some(span) }
    }
}

/// The name of a feature, as error messages show it.
pub open spec fn feature_name(f: Feature) -> Seq<char> {
    match f {
        Feature::NamedCaptureGroups => "named capture groups"@,
        Feature::Lookaround => "lookahead/behind"@,
        Feature::Grapheme => "grapheme cluster matcher (\\X)"@,
        Feature::UnicodeLineBreak => "Unicode line break (\\R)"@,
        Feature::Backreference => "Backreference"@,
        Feature::ForwardReference => "Forward reference"@,
        Feature::RelativeReference => "Relative backreference"@,
        Feature::NonNegativeRelativeReference => "Non-negative relative backreference"@,
    }
}

impl Feature {
    /// The name of this feature, as error messages show it.
    pub fn name(self) -> (s: &'static str)
        ensures
            s@ == feature_name(self),
    {
        match self {
            Feature::NamedCaptureGroups => "named capture groups",
            Feature::Lookaround => "lookahead/behind",
            Feature::Grapheme => "grapheme cluster matcher (\\X)",
            Feature::UnicodeLineBreak => "Unicode line break (\\R)",
            Feature::Backreference => "Backreference",
            Feature::ForwardReference => "Forward reference",
            Feature::RelativeReference => "Relative backreference",
            Feature::NonNegativeRelativeReference => "Non-negative relative backreference",
        }
    }
}

/// A parse error, as a compile error: the same kind and the same span.
impl From<ParseError> for CompileError {
    fn from(e: ParseError) -> (r: Self) {
        CompileError { kind: CompileErrorKind::ParseError(e.kind), span: e.span }
    }
}

impl vstd::std_specs::convert::FromSpecImpl<ParseError> for CompileError {
    open spec fn obeys_from_spec() -> bool {
        true
    }

    open spec fn from_spec(e: ParseError) -> CompileError {
        CompileError { kind: CompileErrorKind::ParseError(e.kind), span: e.span }
    }
}

} // verus!
