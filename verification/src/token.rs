use vstd::prelude::*;

verus! {

/// The kinds of tokens that the parser reads.
#[derive(Clone, Copy, Debug, PartialEq, Eq, Structural)]
pub enum Token {
    /// `^`
    Caret,
    /// `$`
    Dollar,
    /// `%`
    BWord,
    /// `<%`, the old spelling of `^`
    BStart,
    /// `%>`, the old spelling of `$`
    BEnd,
    /// `*`
    Star,
    /// `+`
    Plus,
    /// `?`
    QuestionMark,
    /// `|`
    Pipe,
    /// `:`
    Colon,
    /// `(`
    OpenParen,
    /// `)`
    CloseParen,
    /// `{`
    OpenBrace,
    /// `}`
    CloseBrace,
    /// `,`
    Comma,
    /// `!`
    Not,
    /// `[`
    OpenBracket,
    /// `-`
    Dash,
    /// `]`
    CloseBracket,
    /// `.`
    Dot,
    /// `;`
    Semicolon,
    /// `=`
    Equals,
    /// `>>`
    LookAhead,
    /// `<<`
    LookBehind,
    /// `::`
    DoubleColon,
    /// a string in single or double quotes
    String,
    /// a code point such as `U+1F600`
    CodePoint,
    /// a number made of decimal digits
    Number,
    /// an identifier
    Identifier,
    /// a reserved word such as `let` or `lazy`
    ReservedName,
}

} // verus!
