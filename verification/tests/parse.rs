use pomsky::error::{
    CharClassError, CharStringError, CodePointError, NumberError, ParseError, ParseErrorKind,
    RepetitionError,
};
use pomsky::exprs::{
    Alternation, BooleanSetting, Boundary, BoundaryKind, Capture, CharClass, CharGroup, Group,
    GroupItem, GroupKind, GroupName, Let, Literal, Lookaround, LookaroundKind, Quantifier,
    Reference, ReferenceTarget, Regex, Repetition, RepetitionKind, Rule, Stmt, StmtExpr, Variable,
};
use pomsky::parser::Parser;
use pomsky::parser_impl::StringOrChar;
use pomsky::range::Range;
use pomsky::span::Span;
use pomsky::token::Token;
use pomsky::warning::{DeprecationWarning, ParseWarning, ParseWarningKind};

/// A parser over the given tokens, laid out one after another with a space between
/// them, allowing the given depth of nesting.
fn parser_with(items: &[(Token, &str)], recursion: u16) -> Parser {
    let mut tokens = Vec::new();
    let mut pos = 0usize;
    for &(t, s) in items {
        let n = s.chars().count();
        tokens.push((t, s.to_string(), Span::new(pos, pos + n)));
        pos += n + 1;
    }
    Parser::new(tokens, pos.saturating_sub(1), recursion)
}

fn parser(items: &[(Token, &str)]) -> Parser {
    parser_with(items, 128)
}

fn sp(start: usize, end: usize) -> Span {
    Span::new(start, end)
}

fn lit(s: &str, start: usize, end: usize) -> Rule {
    Rule::Literal(Literal { content: s.to_string(), span: sp(start, end) })
}

fn err(kind: ParseErrorKind, start: usize, end: usize) -> ParseError {
    ParseError { kind, span: Some(sp(start, end)) }
}

fn class(items: Vec<GroupItem>, negative: bool, start: usize, end: usize) -> Rule {
    Rule::CharClass(CharClass { inner: CharGroup::Items(items), negative, span: sp(start, end) })
}


#[test]
fn literal() {
    let mut p = parser(&[(Token::String, "'a'")]);
    assert_eq!(p.parse_modified(), Ok(lit("a", 0, 3)));
    assert!(p.is_empty());
}

#[test]
fn double_quoted_escapes() {
    let mut p = parser(&[(Token::String, r#""a\"b\\""#)]);
    assert_eq!(p.parse_modified(), Ok(lit("a\"b\\", 0, 8)));
}

#[test]
fn single_quoted_verbatim() {
    let mut p = parser(&[(Token::String, r"'a\n'")]);
    assert_eq!(p.parse_modified(), Ok(lit("a\\n", 0, 5)));
}

#[test]
fn invalid_escape() {
    let mut p = parser(&[(Token::String, r#""x\n""#)]);
    assert_eq!(p.parse_modified(), Err(err(ParseErrorKind::InvalidEscapeInStringAt(2), 0, 5)));
}

#[test]
fn alternation() {
    let mut p = parser(&[(Token::String, "'a'"), (Token::Pipe, "|"), (Token::String, "'b'")]);
    assert_eq!(
        p.parse_modified(),
        Ok(Rule::Alternation(Alternation { rules: vec![lit("a", 0, 3), lit("b", 6, 9)], span: sp(0, 9) }))
    );
}

#[test]
fn leading_pipe() {
    let mut p = parser(&[(Token::Pipe, "|"), (Token::String, "'a'")]);
    assert_eq!(p.parse_modified(), Ok(lit("a", 2, 5)));
}

#[test]
fn lone_pipe() {
    let mut p = parser(&[(Token::Pipe, "|")]);
    assert_eq!(p.parse_modified(), Err(err(ParseErrorKind::LonePipe, 0, 1)));
    let mut p = parser(&[(Token::String, "'a'"), (Token::Pipe, "|")]);
    assert_eq!(p.parse_modified(), Err(err(ParseErrorKind::LonePipe, 4, 5)));
}

#[test]
fn empty_input() {
    let mut p = parser(&[]);
    assert_eq!(
        p.parse_modified(),
        Ok(Rule::Alternation(Alternation { rules: vec![], span: sp(0, 0) }))
    );
}

#[test]
fn sequence() {
    let mut p = parser(&[(Token::String, "'a'"), (Token::String, "'b'")]);
    assert_eq!(
        p.parse_modified(),
        Ok(Rule::Group(Group {
            parts: vec![lit("a", 0, 3), lit("b", 4, 7)],
            kind: GroupKind::Implicit,
            span: sp(0, 7),
        }))
    );
}

#[test]
fn repetition_braces_lazy() {
    let mut p = parser(&[
        (Token::String, "'a'"),
        (Token::OpenBrace, "{"),
        (Token::Number, "2"),
        (Token::Comma, ","),
        (Token::Number, "5"),
        (Token::CloseBrace, "}"),
        (Token::ReservedName, "lazy"),
    ]);
    assert_eq!(
        p.parse_modified(),
        Ok(Rule::Repetition(Box::new(Repetition {
            rule: lit("a", 0, 3),
            kind: RepetitionKind { lower_bound: 2, upper_bound: Some(5) },
            quantifier: Quantifier::Lazy,
            span: sp(0, 18),
        })))
    );
}

#[test]
fn repetition_shorthands() {
    for (tok, text, kind) in [
        (Token::Plus, "+", RepetitionKind { lower_bound: 1, upper_bound: None }),
        (Token::Star, "*", RepetitionKind { lower_bound: 0, upper_bound: None }),
        (Token::QuestionMark, "?", RepetitionKind { lower_bound: 0, upper_bound: Some(1) }),
    ] {
        let mut p = parser(&[(Token::String, "'a'"), (tok, text), (Token::ReservedName, "greedy")]);
        assert_eq!(
            p.parse_modified(),
            Ok(Rule::Repetition(Box::new(Repetition {
                rule: lit("a", 0, 3),
                kind,
                quantifier: Quantifier::Greedy,
                span: sp(0, 12),
            })))
        );
    }
}

#[test]
fn repetition_fixed_and_open() {
    let mut p = parser(&[(Token::String, "'a'"), (Token::OpenBrace, "{"), (Token::Number, "3"), (Token::CloseBrace, "}")]);
    assert_eq!(
        p.parse_repeated(),
        Ok(Some(Rule::Repetition(Box::new(Repetition {
            rule: lit("a", 0, 3),
            kind: RepetitionKind { lower_bound: 3, upper_bound: Some(3) },
            quantifier: Quantifier::Default,
            span: sp(0, 9),
        }))))
    );
    let mut p = parser(&[(Token::OpenBrace, "{"), (Token::Comma, ","), (Token::Number, "4"), (Token::CloseBrace, "}")]);
    assert_eq!(
        p.parse_repetition_braces(),
        Ok(Some(RepetitionKind { lower_bound: 0, upper_bound: Some(4) }))
    );
    let mut p = parser(&[(Token::OpenBrace, "{"), (Token::Number, "4"), (Token::Comma, ","), (Token::CloseBrace, "}")]);
    assert_eq!(
        p.parse_repetition_braces(),
        Ok(Some(RepetitionKind { lower_bound: 4, upper_bound: None }))
    );
}

#[test]
fn repetition_errors() {
    let mut p = parser(&[(Token::String, "'a'"), (Token::Plus, "+"), (Token::Plus, "+")]);
    assert_eq!(p.parse_modified(), Err(err(ParseErrorKind::Repetition(RepetitionError::Multi), 6, 7)));
    let mut p = parser(&[(Token::String, "'a'"), (Token::Plus, "+"), (Token::QuestionMark, "?")]);
    assert_eq!(
        p.parse_modified(),
        Err(err(ParseErrorKind::Repetition(RepetitionError::QmSuffix), 6, 7))
    );
    let mut p = parser(&[(Token::String, "'a'"), (Token::Plus, "+"), (Token::OpenBrace, "{"), (Token::Number, "2"), (Token::CloseBrace, "}")]);
    assert_eq!(p.parse_modified(), Err(err(ParseErrorKind::Repetition(RepetitionError::Multi), 6, 11)));
    let mut p = parser(&[(Token::OpenBrace, "{"), (Token::Number, "5"), (Token::Comma, ","), (Token::Number, "2"), (Token::CloseBrace, "}")]);
    assert_eq!(
        p.parse_repetition_braces(),
        Err(err(ParseErrorKind::Repetition(RepetitionError::NotAscending), 2, 7))
    );
    let mut p = parser(&[(Token::OpenBrace, "{"), (Token::CloseBrace, "}")]);
    assert_eq!(p.parse_repetition_braces(), Err(err(ParseErrorKind::Expected("number"), 2, 3)));
    let mut p = parser(&[(Token::OpenBrace, "{"), (Token::Number, "2"), (Token::Number, "3"), (Token::CloseBrace, "}")]);
    assert_eq!(p.parse_repetition_braces(), Err(err(ParseErrorKind::Expected("`}` or `,`"), 4, 5)));
    let mut p = parser(&[(Token::OpenBrace, "{"), (Token::Number, "2"), (Token::Comma, ",")]);
    assert_eq!(
        p.parse_repetition_braces(),
        Err(err(ParseErrorKind::ExpectedToken(Token::CloseBrace), 5, 5))
    );
    let mut p = parser(&[(Token::OpenBrace, "{"), (Token::Number, "4294967296"), (Token::CloseBrace, "}")]);
    assert_eq!(p.parse_repetition_braces(), Err(err(ParseErrorKind::Number(NumberError::TooLarge), 2, 12)));
}

#[test]
fn char_set_ranges() {
    let mut p = parser(&[
        (Token::OpenBracket, "["),
        (Token::String, "'a'"),
        (Token::Dash, "-"),
        (Token::String, "'z'"),
        (Token::String, "'0'"),
        (Token::Dash, "-"),
        (Token::String, "'9'"),
        (Token::CloseBracket, "]"),
    ]);
    assert_eq!(
        p.parse_modified(),
        Ok(class(
            vec![GroupItem::Range { first: 'a', last: 'z' }, GroupItem::Range { first: '0', last: '9' }],
            false,
            0,
            23
        ))
    );
}

#[test]
fn char_set_strings_and_chars() {
    let mut p = parser(&[
        (Token::OpenBracket, "["),
        (Token::String, "\"ab\""),
        (Token::Identifier, "n"),
        (Token::CodePoint, "U+41"),
        (Token::Identifier, "U1F600"),
        (Token::CloseBracket, "]"),
    ]);
    assert_eq!(
        p.parse_modified(),
        Ok(class(
            vec![
                GroupItem::Char('a'),
                GroupItem::Char('b'),
                GroupItem::Char('\n'),
                GroupItem::Char('A'),
                GroupItem::Char('\u{1F600}'),
            ],
            false,
            0,
            22
        ))
    );
}

#[test]
fn char_set_named_and_negated() {
    let mut p = parser(&[(Token::OpenBracket, "["), (Token::Not, "!"), (Token::Identifier, "w"), (Token::Identifier, "digit"), (Token::CloseBracket, "]")]);
    assert_eq!(
        p.parse_modified(),
        Ok(class(
            vec![
                GroupItem::Named { name: GroupName::Word, negative: true },
                GroupItem::Named { name: GroupName::Digit, negative: false },
            ],
            false,
            0,
            13
        ))
    );
}

#[test]
fn char_set_dot_warns() {
    let mut p = parser(&[(Token::OpenBracket, "["), (Token::Dot, "."), (Token::CloseBracket, "]")]);
    assert_eq!(
        p.parse_modified(),
        Ok(Rule::CharClass(CharClass { inner: CharGroup::Dot, negative: false, span: sp(0, 5) }))
    );
    assert_eq!(
        p.warnings(),
        &vec![ParseWarning { kind: ParseWarningKind::Deprecation(DeprecationWarning::DotInSet), span: sp(2, 3) }]
    );
}

#[test]
fn char_set_errors() {
    let cc = |e| ParseErrorKind::CharClass(e);
    let mut p = parser(&[(Token::OpenBracket, "["), (Token::CloseBracket, "]")]);
    assert_eq!(p.parse_modified(), Err(err(cc(CharClassError::Empty), 0, 3)));
    let mut p = parser(&[(Token::OpenBracket, "["), (Token::Caret, "^"), (Token::String, "'a'"), (Token::CloseBracket, "]")]);
    assert_eq!(p.parse_modified(), Err(err(cc(CharClassError::CaretInGroup), 2, 3)));
    let mut p = parser(&[(Token::OpenBracket, "["), (Token::String, "'z'"), (Token::Dash, "-"), (Token::String, "'a'"), (Token::CloseBracket, "]")]);
    assert_eq!(p.parse_modified(), Err(err(cc(CharClassError::DescendingRange('z', 'a')), 2, 11)));
    let mut p = parser(&[(Token::OpenBracket, "["), (Token::Not, "!"), (Token::Not, "!"), (Token::Identifier, "w"), (Token::CloseBracket, "]")]);
    assert_eq!(p.parse_modified(), Err(err(ParseErrorKind::UnallowedMultiNot(2), 2, 5)));
    let mut p = parser(&[(Token::OpenBracket, "["), (Token::Not, "!"), (Token::String, "'a'"), (Token::CloseBracket, "]")]);
    assert_eq!(p.parse_modified(), Err(err(ParseErrorKind::UnallowedNot, 2, 3)));
    let mut p = parser(&[(Token::OpenBracket, "["), (Token::Dot, "."), (Token::String, "'a'"), (Token::CloseBracket, "]")]);
    assert_eq!(p.parse_modified(), Err(err(cc(CharClassError::Unallowed), 2, 7)));
    let mut p = parser(&[(Token::OpenBracket, "["), (Token::ReservedName, "let"), (Token::CloseBracket, "]")]);
    assert_eq!(p.parse_modified(), Err(err(ParseErrorKind::UnexpectedKeyword("let".to_string()), 2, 5)));
    let mut p = parser(&[(Token::OpenBracket, "["), (Token::Identifier, "foo"), (Token::CloseBracket, "]")]);
    assert_eq!(p.parse_modified(), Err(err(cc(CharClassError::UnknownNamedClass("foo".to_string())), 2, 5)));
    let mut p = parser(&[(Token::OpenBracket, "["), (Token::Not, "!"), (Token::Dot, "."), (Token::CloseBracket, "]")]);
    assert_eq!(p.parse_modified(), Err(err(cc(CharClassError::Negative), 4, 5)));
    let mut p = parser(&[(Token::OpenBracket, "["), (Token::String, "'ab'"), (Token::Dash, "-"), (Token::String, "'z'"), (Token::CloseBracket, "]")]);
    assert_eq!(
        p.parse_modified(),
        Err(err(ParseErrorKind::CharString(CharStringError::TooManyCodePoints), 2, 6))
    );
    let mut p = parser(&[(Token::OpenBracket, "["), (Token::String, "'a'"), (Token::Dash, "-"), (Token::CloseBracket, "]")]);
    assert_eq!(p.parse_modified(), Err(err(ParseErrorKind::Expected("code point or character"), 8, 9)));
    let mut p = parser(&[(Token::OpenBracket, "["), (Token::String, "'a'")]);
    assert_eq!(
        p.parse_modified(),
        Err(err(ParseErrorKind::Expected("character class, string, code point, Unicode property or `]`"), 5, 5))
    );
}

#[test]
fn code_points() {
    let mut p = parser(&[(Token::CodePoint, "U+41")]);
    assert_eq!(p.parse_modified(), Ok(class(vec![GroupItem::Char('A')], false, 0, 4)));
    let invalid = ParseErrorKind::CodePoint(CodePointError::Invalid);
    let mut p = parser(&[(Token::CodePoint, "U+D800")]);
    assert_eq!(p.parse_modified(), Err(err(invalid.clone(), 0, 6)));
    let mut p = parser(&[(Token::CodePoint, "U+1234567")]);
    assert_eq!(p.parse_modified(), Err(err(invalid.clone(), 0, 9)));
    let mut p = parser(&[(Token::Identifier, "U110000")]);
    assert_eq!(p.parse_modified(), Err(err(invalid, 0, 7)));
    // an identifier that is no hexadecimal number is a variable
    let mut p = parser(&[(Token::Identifier, "Uxyz")]);
    assert_eq!(p.parse_modified(), Ok(Rule::Variable(Variable { name: "Uxyz".to_string(), span: sp(0, 4) })));
}

#[test]
fn negation() {
    let mut p = parser(&[(Token::Not, "!"), (Token::BWord, "%")]);
    assert_eq!(p.parse_modified(), Ok(Rule::Boundary(Boundary { kind: BoundaryKind::NotWord, span: sp(2, 3) })));
    let mut p = parser(&[(Token::Not, "!"), (Token::OpenBracket, "["), (Token::Identifier, "w"), (Token::CloseBracket, "]")]);
    assert_eq!(
        p.parse_modified(),
        Ok(class(vec![GroupItem::Named { name: GroupName::Word, negative: false }], true, 2, 7))
    );
    let mut p = parser(&[(Token::Not, "!"), (Token::Not, "!"), (Token::BWord, "%")]);
    assert_eq!(p.parse_modified(), Err(err(ParseErrorKind::UnallowedMultiNot(2), 0, 3)));
    let mut p = parser(&[(Token::Not, "!"), (Token::String, "'a'")]);
    assert_eq!(p.parse_modified(), Err(err(ParseErrorKind::UnallowedNot, 0, 1)));
    let mut p = parser(&[(Token::Not, "!"), (Token::Caret, "^")]);
    assert_eq!(p.parse_modified(), Err(err(ParseErrorKind::UnallowedNot, 0, 1)));
    let mut p = parser(&[(Token::Not, "!")]);
    assert_eq!(p.parse_modified(), Err(err(ParseErrorKind::Expected("expression"), 1, 1)));
}

#[test]
fn negation_cannot_repeat() {
    let mut r = Rule::Boundary(Boundary { kind: BoundaryKind::Word, span: sp(0, 1) });
    assert_eq!(r.negate(), Ok(()));
    assert_eq!(r, Rule::Boundary(Boundary { kind: BoundaryKind::NotWord, span: sp(0, 1) }));
    assert_eq!(r.negate(), Err(ParseErrorKind::UnallowedDoubleNot));
    let mut r = class(vec![GroupItem::Char('a')], false, 0, 3);
    assert_eq!(r.negate(), Ok(()));
    assert_eq!(r.negate(), Err(ParseErrorKind::UnallowedDoubleNot));
}

#[test]
fn boundaries_and_dot() {
    let mut p = parser(&[(Token::Caret, "^"), (Token::Dot, "."), (Token::Dollar, "$")]);
    assert_eq!(
        p.parse_modified(),
        Ok(Rule::Group(Group {
            parts: vec![
                Rule::Boundary(Boundary { kind: BoundaryKind::Start, span: sp(0, 1) }),
                Rule::CharClass(CharClass { inner: CharGroup::Dot, negative: false, span: sp(2, 3) }),
                Rule::Boundary(Boundary { kind: BoundaryKind::End, span: sp(4, 5) }),
            ],
            kind: GroupKind::Implicit,
            span: sp(0, 5),
        }))
    );
}

#[test]
fn lookaround() {
    let mut p = parser(&[(Token::LookAhead, ">>"), (Token::String, "'a'")]);
    assert_eq!(
        p.parse_modified(),
        Ok(Rule::Lookaround(Box::new(Lookaround { rule: lit("a", 3, 6), kind: LookaroundKind::Ahead, span: sp(0, 6) })))
    );
    let mut p = parser(&[(Token::Not, "!"), (Token::LookBehind, "<<"), (Token::String, "'a'")]);
    assert_eq!(
        p.parse_modified(),
        Ok(Rule::Lookaround(Box::new(Lookaround {
            rule: lit("a", 5, 8),
            kind: LookaroundKind::BehindNegative,
            span: sp(2, 8),
        })))
    );
}

#[test]
fn groups() {
    let mut p = parser(&[(Token::Colon, ":"), (Token::Identifier, "name"), (Token::OpenParen, "("), (Token::String, "'a'"), (Token::CloseParen, ")")]);
    assert_eq!(
        p.parse_modified(),
        Ok(Rule::Group(Group {
            parts: vec![lit("a", 9, 12)],
            kind: GroupKind::Capturing(Capture { name: Some("name".to_string()) }),
            span: sp(0, 14),
        }))
    );
    let mut p = parser(&[(Token::ReservedName, "atomic"), (Token::OpenParen, "("), (Token::String, "'a'"), (Token::CloseParen, ")")]);
    assert_eq!(
        p.parse_modified(),
        Ok(Rule::Group(Group { parts: vec![lit("a", 9, 12)], kind: GroupKind::Atomic, span: sp(0, 14) }))
    );
    let mut p = parser(&[(Token::OpenParen, "("), (Token::String, "'a'")]);
    assert_eq!(p.parse_modified(), Err(err(ParseErrorKind::Expected("`)` or an expression"), 5, 5)));
    let mut p = parser(&[(Token::Colon, ":"), (Token::String, "'a'")]);
    assert_eq!(p.parse_modified(), Err(err(ParseErrorKind::ExpectedToken(Token::OpenParen), 2, 5)));
}

#[test]
fn recursion_limit() {
    let toks = [(Token::OpenParen, "("), (Token::OpenParen, "("), (Token::String, "'a'"), (Token::CloseParen, ")"), (Token::CloseParen, ")")];
    let mut p = parser_with(&toks, 4);
    assert_eq!(p.parse_modified(), Err(err(ParseErrorKind::RecursionLimit, 4, 7)));
    let mut p = parser_with(&toks, 5);
    assert!(p.parse_modified().is_ok());
}

#[test]
fn let_binding() {
    let mut p = parser(&[
        (Token::ReservedName, "let"),
        (Token::Identifier, "x"),
        (Token::Equals, "="),
        (Token::String, "'a'"),
        (Token::Semicolon, ";"),
        (Token::Identifier, "x"),
    ]);
    assert_eq!(
        p.parse_modified(),
        Ok(Rule::StmtExpr(Box::new(StmtExpr {
            stmt: Stmt::Let(Let { name: "x".to_string(), rule: lit("a", 8, 11), name_span: sp(4, 5) }),
            rule: Rule::Variable(Variable { name: "x".to_string(), span: sp(14, 15) }),
            span: sp(0, 15),
        })))
    );
}

#[test]
fn mode_modifier() {
    let mut p = parser(&[(Token::ReservedName, "enable"), (Token::ReservedName, "lazy"), (Token::Semicolon, ";"), (Token::String, "'a'")]);
    assert_eq!(
        p.parse_modified(),
        Ok(Rule::StmtExpr(Box::new(StmtExpr {
            stmt: Stmt::Enable(BooleanSetting::Lazy),
            rule: lit("a", 14, 17),
            span: sp(0, 17),
        })))
    );
    let mut p = parser(&[(Token::ReservedName, "disable"), (Token::ReservedName, "greedy")]);
    assert_eq!(p.parse_mode_modifier(), Err(err(ParseErrorKind::ExpectedKeyword("lazy"), 8, 14)));
}

#[test]
fn let_errors() {
    let mut p = parser(&[
        (Token::ReservedName, "let"),
        (Token::Identifier, "x"),
        (Token::Equals, "="),
        (Token::String, "'a'"),
        (Token::Semicolon, ";"),
        (Token::ReservedName, "let"),
        (Token::Identifier, "x"),
        (Token::Equals, "="),
        (Token::String, "'b'"),
        (Token::Semicolon, ";"),
        (Token::Identifier, "x"),
    ]);
    assert_eq!(p.parse_modified(), Err(err(ParseErrorKind::LetBindingExists, 18, 19)));
    let mut p = parser(&[(Token::ReservedName, "let"), (Token::ReservedName, "range"), (Token::Equals, "=")]);
    assert_eq!(p.parse_modified(), Err(err(ParseErrorKind::KeywordAfterLet("range".to_string()), 4, 9)));
    let mut p = parser(&[(Token::ReservedName, "let"), (Token::Identifier, "x"), (Token::Equals, "="), (Token::String, "'a'"), (Token::String, "'b'")]);
    assert!(p.parse_modified().is_ok() == false);
    let mut p = parser(&[(Token::ReservedName, "let"), (Token::Identifier, "x"), (Token::Equals, "="), (Token::String, "'a'")]);
    assert_eq!(p.parse_modified(), Err(err(ParseErrorKind::Expected("expression or `;`"), 11, 11)));
}

#[test]
fn references() {
    let cases: Vec<(Vec<(Token, &str)>, ReferenceTarget, usize)> = vec![
        (vec![(Token::DoubleColon, "::"), (Token::Number, "3")], ReferenceTarget::Number(3), 4),
        (vec![(Token::DoubleColon, "::"), (Token::Plus, "+"), (Token::Number, "1")], ReferenceTarget::Relative(1), 6),
        (vec![(Token::DoubleColon, "::"), (Token::Dash, "-"), (Token::Number, "2")], ReferenceTarget::Relative(-2), 6),
        (vec![(Token::DoubleColon, "::"), (Token::Identifier, "name")], ReferenceTarget::Named("name".to_string()), 7),
    ];
    for (toks, target, end) in cases {
        let mut p = parser(&toks);
        assert_eq!(p.parse_modified(), Ok(Rule::Reference(Reference { target, span: sp(0, end) })));
    }
    let mut p = parser(&[(Token::DoubleColon, "::")]);
    assert_eq!(p.parse_modified(), Err(err(ParseErrorKind::Expected("number of group name"), 2, 2)));
    let mut p = parser(&[(Token::DoubleColon, "::"), (Token::Plus, "+"), (Token::Number, "2147483648")]);
    assert_eq!(p.parse_modified(), Err(err(ParseErrorKind::Number(NumberError::TooLarge), 5, 15)));
}

#[test]
fn ranges() {
    let mut p = parser(&[(Token::ReservedName, "range"), (Token::String, "'0'"), (Token::Dash, "-"), (Token::String, "'255'")]);
    assert_eq!(
        p.parse_modified(),
        Ok(Rule::Range(Range { start: vec![0], end: vec![2, 5, 5], radix: 10, span: sp(0, 17) }))
    );
    let mut p = parser(&[
        (Token::ReservedName, "range"),
        (Token::String, "'a'"),
        (Token::Dash, "-"),
        (Token::String, "'FF'"),
        (Token::ReservedName, "base"),
        (Token::Number, "16"),
    ]);
    assert_eq!(
        p.parse_modified(),
        Ok(Rule::Range(Range { start: vec![10], end: vec![15, 15], radix: 16, span: sp(0, 24) }))
    );
}

#[test]
fn range_errors() {
    let mut p = parser(&[(Token::ReservedName, "range"), (Token::String, "'10'"), (Token::Dash, "-"), (Token::String, "'9'")]);
    assert_eq!(p.parse_modified(), Err(err(ParseErrorKind::RangeIsNotIncreasing, 6, 16)));
    let mut p = parser(&[(Token::ReservedName, "range"), (Token::String, "'7'"), (Token::Dash, "-"), (Token::String, "'5'")]);
    assert_eq!(p.parse_modified(), Err(err(ParseErrorKind::RangeIsNotIncreasing, 6, 15)));
    let mut p = parser(&[(Token::ReservedName, "range"), (Token::String, "'01'"), (Token::Dash, "-"), (Token::String, "'9'")]);
    assert_eq!(p.parse_modified(), Err(err(ParseErrorKind::Number(NumberError::LeadingZero), 6, 10)));
    let mut p = parser(&[(Token::ReservedName, "range"), (Token::String, "'1'"), (Token::Dash, "-"), (Token::String, "'1a'")]);
    assert_eq!(p.parse_modified(), Err(err(ParseErrorKind::Number(NumberError::InvalidDigit), 12, 16)));
    let mut p = parser(&[(Token::ReservedName, "range"), (Token::String, "''"), (Token::Dash, "-"), (Token::String, "'1'")]);
    assert_eq!(p.parse_modified(), Err(err(ParseErrorKind::Number(NumberError::Empty), 6, 8)));
    let base = |n| {
        vec![(Token::ReservedName, "range"), (Token::String, "'1'"), (Token::Dash, "-"), (Token::String, "'2'"), (Token::ReservedName, "base"), (Token::Number, n)]
    };
    let mut p = parser(&base("37"));
    assert_eq!(p.parse_modified(), Err(err(ParseErrorKind::Number(NumberError::TooLarge), 21, 23)));
    let mut p = parser(&base("1"));
    assert_eq!(p.parse_modified(), Err(err(ParseErrorKind::Number(NumberError::TooSmall), 21, 22)));
    let mut p = parser(&base("300"));
    assert_eq!(p.parse_modified(), Err(err(ParseErrorKind::Number(NumberError::TooLarge), 21, 24)));
}

#[test]
fn regex() {
    let mut p = parser(&[(Token::ReservedName, "regex"), (Token::String, "\"[a]\"")]);
    assert_eq!(p.parse_modified(), Ok(Rule::Regex(Regex { content: "[a]".to_string(), span: sp(0, 11) })));
    let mut p = parser(&[(Token::ReservedName, "regex")]);
    assert_eq!(p.parse_modified(), Err(err(ParseErrorKind::ExpectedToken(Token::String), 5, 5)));
}

#[test]
fn string_or_char_to_char() {
    assert_eq!(StringOrChar::Char('x').to_char(), Ok('x'));
    assert_eq!(StringOrChar::String("'y'".to_string()).to_char(), Ok('y'));
    assert_eq!(
        StringOrChar::String("''".to_string()).to_char(),
        Err(ParseErrorKind::CharString(CharStringError::Empty))
    );
    assert_eq!(
        StringOrChar::String("\"ab\"".to_string()).to_char(),
        Err(ParseErrorKind::CharString(CharStringError::TooManyCodePoints))
    );
}

#[test]
fn nothing_read_when_nothing_found() {
    let mut p = parser(&[(Token::Semicolon, ";")]);
    assert_eq!(p.parse_sequence(), Ok(None));
    assert_eq!(p.parse_atom(), Ok(None));
    assert_eq!(p.parse_group(), Ok(None));
    assert_eq!(p.parse_let(), Ok(None));
    assert!(!p.is_empty());
    assert_eq!(p.peek(), Some((Token::Semicolon, ";")));
}

#[test]
fn braces_need_a_number() {
    let mut p = parser(&[(Token::OpenBrace, "{"), (Token::Comma, ","), (Token::CloseBrace, "}")]);
    assert_eq!(p.parse_repetition_braces(), Err(err(ParseErrorKind::Expected("number"), 4, 5)));
}

#[test]
fn repetitions_after_a_quantifier() {
    // 'a' {3,} lazy ?
    let mut p = parser(&[
        (Token::String, "'a'"),
        (Token::OpenBrace, "{"),
        (Token::Number, "3"),
        (Token::Comma, ","),
        (Token::CloseBrace, "}"),
        (Token::ReservedName, "lazy"),
        (Token::QuestionMark, "?"),
    ]);
    let inner = Rule::Repetition(Box::new(Repetition {
        rule: lit("a", 0, 3),
        kind: RepetitionKind { lower_bound: 3, upper_bound: None },
        quantifier: Quantifier::Lazy,
        span: sp(0, 16),
    }));
    assert_eq!(
        p.parse_repeated(),
        Ok(Some(Rule::Repetition(Box::new(Repetition {
            rule: inner,
            kind: RepetitionKind { lower_bound: 0, upper_bound: Some(1) },
            quantifier: Quantifier::Default,
            span: sp(0, 18),
        }))))
    );
    assert!(p.is_empty());
    // 'a' + greedy + lazy
    let mut p = parser(&[
        (Token::String, "'a'"),
        (Token::Plus, "+"),
        (Token::ReservedName, "greedy"),
        (Token::Plus, "+"),
        (Token::ReservedName, "lazy"),
    ]);
    let inner = Rule::Repetition(Box::new(Repetition {
        rule: lit("a", 0, 3),
        kind: RepetitionKind { lower_bound: 1, upper_bound: None },
        quantifier: Quantifier::Greedy,
        span: sp(0, 12),
    }));
    assert_eq!(
        p.parse_repeated(),
        Ok(Some(Rule::Repetition(Box::new(Repetition {
            rule: inner,
            kind: RepetitionKind { lower_bound: 1, upper_bound: None },
            quantifier: Quantifier::Lazy,
            span: sp(0, 19),
        }))))
    );
    // 'a' + lazy + ? : the second repetition has no keyword, so `?` after it is refused
    let mut p = parser(&[
        (Token::String, "'a'"),
        (Token::Plus, "+"),
        (Token::ReservedName, "lazy"),
        (Token::Plus, "+"),
        (Token::QuestionMark, "?"),
    ]);
    assert_eq!(
        p.parse_repeated(),
        Err(err(ParseErrorKind::Repetition(RepetitionError::QmSuffix), 13, 14))
    );
}

#[test]
fn deprecated_boundaries() {
    let mut p = parser(&[(Token::BStart, "<%"), (Token::String, "'a'"), (Token::BEnd, "%>")]);
    assert_eq!(
        p.parse_modified(),
        Ok(Rule::Group(Group {
            parts: vec![
                Rule::Boundary(Boundary { kind: BoundaryKind::Start, span: sp(0, 2) }),
                lit("a", 3, 6),
                Rule::Boundary(Boundary { kind: BoundaryKind::End, span: sp(7, 9) }),
            ],
            kind: GroupKind::Implicit,
            span: sp(0, 9),
        }))
    );
    assert_eq!(
        p.warnings(),
        &vec![
            ParseWarning {
                kind: ParseWarningKind::Deprecation(DeprecationWarning::StartLiteral),
                span: sp(0, 2),
            },
            ParseWarning {
                kind: ParseWarningKind::Deprecation(DeprecationWarning::EndLiteral),
                span: sp(7, 9),
            },
        ]
    );
    let mut p = parser(&[(Token::Caret, "^")]);
    assert_eq!(p.parse_boundary(), Some(Rule::Boundary(Boundary { kind: BoundaryKind::Start, span: sp(0, 1) })));
    assert!(p.warnings().is_empty());
}

#[test]
fn state_after_errors() {
    // an invalid code point is read before it is refused
    let mut p = parser(&[(Token::CodePoint, "U+D800"), (Token::String, "'a'")]);
    assert_eq!(
        p.parse_code_point(),
        Err(err(ParseErrorKind::CodePoint(CodePointError::Invalid), 0, 6))
    );
    assert_eq!(p.peek(), Some((Token::String, "'a'")));
    // so is an identifier that names a code point out of range
    let mut p = parser(&[(Token::Identifier, "U110000"), (Token::Dot, ".")]);
    assert_eq!(
        p.parse_code_point(),
        Err(err(ParseErrorKind::CodePoint(CodePointError::Invalid), 0, 7))
    );
    assert_eq!(p.peek(), Some((Token::Dot, ".")));
    // a missing token is not read
    let mut p = parser(&[(Token::OpenBrace, "{"), (Token::Number, "2"), (Token::Comma, ","), (Token::Dot, ".")]);
    assert_eq!(
        p.parse_repetition_braces(),
        Err(err(ParseErrorKind::ExpectedToken(Token::CloseBrace), 6, 7))
    );
    assert_eq!(p.peek(), Some((Token::Dot, ".")));
}

#[test]
fn first_repeated_let_name() {
    // let a = 'x'; let b = 'y'; let b = 'z'; let a = 'w'; 'q'
    let mut items = Vec::new();
    for (name, lit) in [("a", "'x'"), ("b", "'y'"), ("b", "'z'"), ("a", "'w'")] {
        items.push((Token::ReservedName, "let"));
        items.push((Token::Identifier, name));
        items.push((Token::Equals, "="));
        items.push((Token::String, lit));
        items.push((Token::Semicolon, ";"));
    }
    items.push((Token::String, "'q'"));
    let mut p = parser(&items);
    // the third binding is the first to repeat a name: its name `b` is at 32..33
    assert_eq!(p.parse_modified(), Err(err(ParseErrorKind::LetBindingExists, 32, 33)));
}

#[test]
fn statements_wrap_in_source_order() {
    // enable lazy; let a = 'x'; a
    let mut p = parser(&[
        (Token::ReservedName, "enable"),
        (Token::ReservedName, "lazy"),
        (Token::Semicolon, ";"),
        (Token::ReservedName, "let"),
        (Token::Identifier, "a"),
        (Token::Equals, "="),
        (Token::String, "'x'"),
        (Token::Semicolon, ";"),
        (Token::Identifier, "a"),
    ]);
    let body = Rule::Variable(Variable { name: "a".to_string(), span: sp(28, 29) });
    let inner = Rule::StmtExpr(Box::new(StmtExpr {
        stmt: Stmt::Let(Let { name: "a".to_string(), rule: lit("x", 22, 25), name_span: sp(18, 19) }),
        rule: body,
        span: sp(14, 29),
    }));
    assert_eq!(
        p.parse_modified(),
        Ok(Rule::StmtExpr(Box::new(StmtExpr {
            stmt: Stmt::Enable(BooleanSetting::Lazy),
            rule: inner,
            span: sp(0, 29),
        })))
    );
}

#[test]
fn sequence_and_alternatives_in_order() {
    // | 'a' 'b' | 'c'
    let mut p = parser(&[
        (Token::Pipe, "|"),
        (Token::String, "'a'"),
        (Token::String, "'b'"),
        (Token::Pipe, "|"),
        (Token::String, "'c'"),
    ]);
    let first = Rule::Group(Group {
        parts: vec![lit("a", 2, 5), lit("b", 6, 9)],
        kind: GroupKind::Implicit,
        span: sp(2, 9),
    });
    assert_eq!(
        p.parse_or(),
        Ok(Rule::Alternation(Alternation { rules: vec![first, lit("c", 12, 15)], span: sp(2, 15) }))
    );
    let mut p = parser(&[(Token::CloseParen, ")")]);
    assert_eq!(p.parse_or(), Ok(Rule::Alternation(Alternation { rules: vec![], span: sp(0, 0) })));
    assert_eq!(p.parse_sequence(), Ok(None));
}
