use vstd::prelude::*;

use crate::span::Span;

verus! {

/// Syntax that is still accepted, but should no longer be used.
#[derive(Clone, Copy, Debug, PartialEq, Eq, Structural)]
pub enum DeprecationWarning {
    /// `<%`, which is now written `^`.
    StartLiteral,
    /// `%>`, which is now written `$`.
    EndLiteral,
    /// `[.]`, which is the same as `.`.
    DotInSet,
}

/// The kinds of parse warnings.
#[derive(Clone, Copy, Debug, PartialEq, Eq, Structural)]
pub enum ParseWarningKind {
    Deprecation(DeprecationWarning),
}

/// A parse warning and where it occurred.
#[derive(Clone, Copy, Debug, PartialEq, Eq, Structural)]
pub struct ParseWarning {
    pub kind: ParseWarningKind,
    pub span: Span,
}

impl ParseWarningKind {
    /// Attaches a span to this kind of warning.
    pub fn at(self, span: Span) -> (w: ParseWarning)
        ensures
            w == (ParseWarning { kind: self, span }),
    {
        ParseWarning { kind: self, span }
    }
}

} // verus!
