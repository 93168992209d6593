use std::collections::{HashMap, HashSet};

use pomsky::compile::{CompileState, RegexQuantifier};
use pomsky::compiler_error::{CompileError, CompileErrorKind, Feature, RegexFlavor};
use pomsky::error::{CharClassError, NumberError, ParseError, ParseErrorKind};
use pomsky::exprs::{
    Alternation, CharGroup, GroupItem, GroupName, Literal, RepetitionKind, Rule,
};
use pomsky::helper::{
    digits_greater, parse_decimal, parse_hex_u32, parse_number, parse_quoted_text,
    strip_first_last,
};
use pomsky::error::RepetitionError;
use pomsky::pretty::PrettyPrinter;
use pomsky::range::Range;
use pomsky::span::Span;
use pomsky::text::str_eq;
use pomsky::warning::DeprecationWarning;

#[test]
fn feature_names() {
    let all = [
        (Feature::NamedCaptureGroups, "named capture groups"),
        (Feature::Lookaround, "lookahead/behind"),
        (Feature::Grapheme, "grapheme cluster matcher (\\X)"),
        (Feature::UnicodeLineBreak, "Unicode line break (\\R)"),
        (Feature::Backreference, "Backreference"),
        (Feature::ForwardReference, "Forward reference"),
        (Feature::RelativeReference, "Relative backreference"),
        (Feature::NonNegativeRelativeReference, "Non-negative relative backreference"),
    ];
    for (f, name) in all {
        assert_eq!(f.name(), name);
    }
    let names: HashSet<&str> = all.iter().map(|(f, _)| f.name()).collect();
    assert_eq!(names.len(), all.len());
}

#[test]
fn compile_error_at() {
    let e = CompileErrorKind::HugeReference.at(Span::new(3, 7));
    assert_eq!(e, CompileError { kind: CompileErrorKind::HugeReference, span: Some(Span::new(3, 7)) });
    let e = CompileErrorKind::Unsupported(Feature::Lookaround, RegexFlavor::Rust).at(Span::new(0, 2));
    assert_eq!(e.kind, CompileErrorKind::Unsupported(Feature::Lookaround, RegexFlavor::Rust));
    assert_eq!(e.span, Some(Span::new(0, 2)));
}

#[test]
fn compile_error_from_parse_error() {
    let p = ParseError { kind: ParseErrorKind::LonePipe, span: Some(Span::new(1, 2)) };
    let c: CompileError = p.into();
    assert_eq!(
        c,
        CompileError { kind: CompileErrorKind::ParseError(ParseErrorKind::LonePipe), span: Some(Span::new(1, 2)) }
    );
    let p = ParseError { kind: ParseErrorKind::RecursionLimit, span: None };
    assert_eq!(CompileError::from(p).span, None);
}

#[test]
fn compile_state_new() {
    let mut names = HashMap::new();
    names.insert("x".to_string(), 1u32);
    let rule = Rule::Literal(Literal { content: "a".to_string(), span: Span::new(0, 3) });
    let s = CompileState::new(RegexQuantifier::Lazy, names.clone(), 4, vec![("v", &rule)]);
    assert_eq!(s.next_idx, 1);
    assert_eq!(s.used_names, names);
    assert_eq!(s.groups_count, 4);
    assert_eq!(s.default_quantifier, RegexQuantifier::Lazy);
    assert_eq!(s.variables.len(), 1);
    assert_eq!(s.variables[0].0, "v");
    assert!(s.current_vars.is_empty());
}

#[test]
fn range_pretty_print() {
    let r = Range::new(vec![0], vec![2, 5, 5], 10, Span::new(0, 1));
    let mut buf = PrettyPrinter::new();
    r.pretty_print(&mut buf);
    assert_eq!(buf.finish(), "range '0'-'255'");
    let r = Range::new(vec![10], vec![15, 15, 35], 36, Span::new(0, 1));
    let mut buf = PrettyPrinter::new();
    buf.push_str("x ");
    r.pretty_print(&mut buf);
    assert_eq!(buf.finish(), "x range 'A'-'FFZ'");
}

#[test]
fn span_join_laws() {
    let a = Span::new(2, 5);
    let b = Span::new(4, 9);
    let c = Span::new(0, 1);
    assert_eq!(a.join(b), Span::new(2, 9));
    assert_eq!(a.join(b), b.join(a));
    assert_eq!(a.join(b).join(c), a.join(b.join(c)));
    assert_eq!(a.join(a), a);
    assert_eq!(a.start(), Span::new(2, 2));
    assert_eq!(Span::empty(), Span::new(0, 0));
}

#[test]
fn quoted_text() {
    assert_eq!(parse_quoted_text("'a\\b'"), Ok("a\\b".to_string()));
    assert_eq!(parse_quoted_text("\"a\\\\b\\\"\""), Ok("a\\b\"".to_string()));
    assert_eq!(parse_quoted_text("\"\""), Ok(String::new()));
    assert_eq!(parse_quoted_text("\"ab\\x\""), Err(ParseErrorKind::InvalidEscapeInStringAt(3)));
    assert_eq!(parse_quoted_text("\"\\\""), Err(ParseErrorKind::InvalidEscapeInStringAt(1)));
    assert_eq!(strip_first_last("'héllo'"), "héllo");
}

#[test]
fn numbers() {
    assert_eq!(parse_number("255", 10), Ok(vec![2, 5, 5]));
    assert_eq!(parse_number("zZ0", 36), Ok(vec![35, 35, 0]));
    assert_eq!(parse_number("0", 2), Ok(vec![0]));
    assert_eq!(parse_number("", 10), Err(NumberError::Empty));
    assert_eq!(parse_number("012", 10), Err(NumberError::LeadingZero));
    assert_eq!(parse_number("19", 8), Err(NumberError::InvalidDigit));
    assert_eq!(parse_number("1-", 10), Err(NumberError::InvalidDigit));
    assert_eq!(parse_decimal("4294967295", u32::MAX), Some(u32::MAX));
    assert_eq!(parse_decimal("4294967296", u32::MAX), None);
    assert_eq!(parse_decimal("007", 255), Some(7));
    assert_eq!(parse_decimal("256", 255), None);
    assert_eq!(parse_hex_u32("1F600"), Some(0x1F600));
    assert_eq!(parse_hex_u32("+ff"), Some(255));
    assert_eq!(parse_hex_u32("+"), None);
    assert_eq!(parse_hex_u32(""), None);
    assert_eq!(parse_hex_u32("FFFFFFFF"), Some(u32::MAX));
    assert_eq!(parse_hex_u32("100000000"), None);
    assert_eq!(parse_hex_u32("12g"), None);
    assert!(digits_greater(&vec![2, 5, 6], &vec![2, 5, 5]));
    assert!(!digits_greater(&vec![2, 5, 5], &vec![2, 5, 5]));
    assert!(!digits_greater(&vec![1, 9], &vec![2, 0]));
    assert!(digits_greater(&vec![1, 9], &vec![1]));
}

#[test]
fn text_helpers() {
    assert!(str_eq("abc", "abc"));
    assert!(!str_eq("abc", "abd"));
    assert!(!str_eq("abc", "ab"));
}

#[test]
fn char_groups() {
    assert_eq!(
        CharGroup::try_from_range('a', 'f'),
        Some(CharGroup::Items(vec![GroupItem::Range { first: 'a', last: 'f' }]))
    );
    assert_eq!(CharGroup::try_from_range('f', 'a'), None);
    assert_eq!(CharGroup::try_from_range('a', 'a'), None);
    assert_eq!(CharGroup::from_chars("ab"), CharGroup::Items(vec![GroupItem::Char('a'), GroupItem::Char('b')]));
    assert_eq!(CharGroup::from_char('x'), CharGroup::Items(vec![GroupItem::Char('x')]));
    assert_eq!(
        CharGroup::try_from_group_name("space", true),
        Ok((CharGroup::Items(vec![GroupItem::Named { name: GroupName::Space, negative: true }]), None))
    );
    assert_eq!(
        CharGroup::try_from_group_name("h", false),
        Ok((CharGroup::Items(vec![GroupItem::Named { name: GroupName::HorizSpace, negative: false }]), None))
    );
    assert_eq!(
        CharGroup::try_from_group_name("vert_space", false),
        Ok((CharGroup::Items(vec![GroupItem::Named { name: GroupName::VertSpace, negative: false }]), None))
    );
    assert_eq!(CharGroup::try_from_group_name(".", false), Ok((CharGroup::Dot, Some(DeprecationWarning::DotInSet))));
    assert_eq!(CharGroup::try_from_group_name("codepoint", false), Ok((CharGroup::CodePoint, None)));
    assert_eq!(CharGroup::try_from_group_name("cp", true), Err(CharClassError::Negative));
    assert_eq!(
        CharGroup::try_from_group_name("Latin", false),
        Err(CharClassError::UnknownNamedClass("Latin".to_string()))
    );

    let mut g = CharGroup::from_char('a');
    assert_eq!(g.add(CharGroup::from_chars("bc")), Ok(()));
    assert_eq!(g, CharGroup::from_chars("abc"));
    assert_eq!(g.add(CharGroup::Dot), Err(CharClassError::Unallowed));
    assert_eq!(g, CharGroup::from_chars("abc"));
    let mut d = CharGroup::CodePoint;
    assert_eq!(d.add(CharGroup::from_char('a')), Err(CharClassError::Unallowed));
}

#[test]
fn repetition_kinds() {
    assert_eq!(RepetitionKind::try_from_bounds(2, Some(2)), Ok(RepetitionKind::fixed(2)));
    assert_eq!(RepetitionKind::try_from_bounds(3, Some(2)), Err(RepetitionError::NotAscending));
    assert_eq!(
        RepetitionKind::try_from_bounds(3, None),
        Ok(RepetitionKind { lower_bound: 3, upper_bound: None })
    );
    assert_eq!(RepetitionKind::one_inf(), RepetitionKind { lower_bound: 1, upper_bound: None });
    assert_eq!(RepetitionKind::zero_inf(), RepetitionKind { lower_bound: 0, upper_bound: None });
    assert_eq!(RepetitionKind::zero_one(), RepetitionKind { lower_bound: 0, upper_bound: Some(1) });
}

#[test]
fn alternation_span() {
    let a = Rule::Literal(Literal { content: "a".to_string(), span: Span::new(4, 7) });
    let b = Rule::Literal(Literal { content: "b".to_string(), span: Span::new(10, 13) });
    let alt = Alternation::new_expr(vec![a, b]);
    assert_eq!(alt.span(), Span::new(4, 13));
    assert_eq!(Alternation::new_expr(vec![]).span(), Span::new(0, 0));
}
