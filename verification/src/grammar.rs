use vstd::prelude::*;

use crate::char_group::{chars_items, group_add, group_from_name};
use crate::error::{
    error_at, CharClassErrorModel, CharStringError, CodePointError, NumberError,
    ParseErrorKindModel, ParseErrorModel, RepetitionError,
};
use crate::exprs::{
    alternation_model, repetition_bounds, BooleanSetting, BoundaryKind, CharGroupModel,
    GroupItem, GroupKindModel, LookaroundKind, Quantifier, ReferenceTargetModel,
    RepetitionKind, RuleModel, StmtModel,
};
use crate::helper::{hex_u32, lex_greater, number_digits, quoted_text};
use crate::parser::{PState, SErr, SRes};
use crate::span::{span_join, Span};
use crate::text::is_scalar_value;
use crate::token::Token;
use crate::warning::{DeprecationWarning, ParseWarning, ParseWarningKind};

verus! {

// The grammar, as spec functions over the parser's state. Each one says what the parse
// function of the same name gives: a value and the state after it, or an error.

/// `b` is a state that parsing can reach from `a`: the same tokens, and no token un-read.
pub open spec fn reaches(a: PState, b: PState) -> bool {
    &&& b.wf()
    &&& b.tokens == a.tokens
    &&& b.source_len == a.source_len
    &&& a.offset <= b.offset
}

/// `b` is reached from `a` by reading at least one token.
pub open spec fn advances(a: PState, b: PState) -> bool {
    reaches(a, b) && a.offset < b.offset
}

/// The same error at the same place, of another kind.
pub open spec fn rekind(e: SErr, kind: ParseErrorKindModel) -> SErr {
    (ParseErrorModel { kind, span: e.0.span }, e.1)
}

/// A string literal or a single character inside a character set.
pub enum StringOrCharModel {
    String(Seq<char>),
    Char(char),
}

/// The character that a string or character stands for, when it stands for exactly one.
pub open spec fn to_char_model(s: StringOrCharModel) -> Result<char, ParseErrorKindModel> {
    match s {
        StringOrCharModel::Char(c) => Ok(c),
        StringOrCharModel::String(s) => match quoted_text(s) {
            Err(k) => Err(k),
            Ok(t) => if t.len() == 1 {
                Ok(t[0])
            } else if t.len() > 1 {
                Err(ParseErrorKindModel::CharString(CharStringError::TooManyCodePoints))
            } else {
                Err(ParseErrorKindModel::CharString(CharStringError::Empty))
            },
        },
    }
}

/// `enable lazy;` or `disable lazy;`
#[verifier::opaque]
pub open spec fn spec_mode_modifier(st: PState) -> SRes<Option<(StmtModel, Span)>> {
    let (stmt, st1) = if st.is_reserved("enable"@) {
        (Some(StmtModel::Enable(BooleanSetting::Lazy)), st.advance())
    } else if st.is_reserved("disable"@) {
        (Some(StmtModel::Disable(BooleanSetting::Lazy)), st.advance())
    } else {
        (None, st)
    };
    match stmt {
        None => Ok((None, st)),
        Some(stmt) => {
            let span_start = st1.last_span();
            match st1.expect_reserved("lazy"@) {
                Err(e) => Err(e),
                Ok(st2) => match st2.expect(Token::Semicolon) {
                    Err(e) => Err(e),
                    Ok(st3) => Ok((Some((stmt, span_join(span_start, st3.last_span()))), st3)),
                },
            }
        },
    }
}

/// The number of `!` in a row, the span they cover, and the state after them.
pub open spec fn count_nots(st: PState, n: nat, span: Span) -> (nat, Span, PState)
    decreases st.remaining(),
{
    if st.is(Token::Not) {
        let st1 = st.advance();
        count_nots(st1, n + 1, span_join(span, st1.last_span()))
    } else {
        (n, span, st)
    }
}

/// A repetition in braces: `{2}`, `{2,}`, `{,2}` or `{2,5}`.
#[verifier::opaque]
pub open spec fn spec_repetition_braces(st: PState) -> SRes<Option<RepetitionKind>> {
    if !st.is(Token::OpenBrace) {
        Ok((None, st))
    } else {
        let s1 = st.advance();
        let num_start = s1.span();
        match s1.consume_number(u32::MAX) {
            Err(e) => Err(e),
            Ok((lower, s2)) => {
                let comma = s2.is(Token::Comma);
                let s3 = if comma { s2.advance() } else { s2 };
                match s3.consume_number(u32::MAX) {
                    Err(e) => Err(e),
                    Ok((upper, s4)) => {
                        let num_end = s4.last_span();
                        let num_span = span_join(num_start, num_end);
                        let kind: Result<RepetitionKind, SErr> = if comma {
                            match (lower, upper) {
                                (None, None) => Err(
                                    (error_at(ParseErrorKindModel::Expected("number"@), s4.span()), s4),
                                ),
                                _ => {
                                    let low = match lower {
                                        Some(l) => l,
                                        None => 0u32,
                                    };
                                    match repetition_bounds(low, upper) {
                                        Ok(k) => Ok(k),
                                        Err(e) => Err(
                                            (error_at(ParseErrorKindModel::Repetition(e), num_span), s4),
                                        ),
                                    }
                                },
                            }
                        } else {
                            match (lower, upper) {
                                (Some(_), Some(_)) => Err(
                                    (error_at(ParseErrorKindModel::Expected("`}` or `,`"@), num_end), s4),
                                ),
                                (Some(r), None) => Ok(
                                    RepetitionKind { lower_bound: r, upper_bound: Some(r) },
                                ),
                                (None, Some(r)) => Ok(
                                    RepetitionKind { lower_bound: r, upper_bound: Some(r) },
                                ),
                                (None, None) => Err(
                                    (error_at(ParseErrorKindModel::Expected("number"@), s4.span()), s4),
                                ),
                            }
                        };
                        match kind {
                            Err(e) => Err(e),
                            Ok(k) => match s4.expect(Token::CloseBrace) {
                                Err(e) => Err(e),
                                Ok(s5) => Ok((Some(k), s5)),
                            },
                        }
                    },
                }
            },
        }
    }
}

/// The repetition after an atom: `+`, `*`, `?` or braces, then maybe `greedy` or `lazy`.
/// Without `greedy` or `lazy`, a second repetition right after it is an error.
#[verifier::opaque]
pub open spec fn spec_repetition(st: PState) -> SRes<Option<(RepetitionKind, Quantifier, Span)>> {
    let start = st.span();
    let kind: SRes<Option<RepetitionKind>> = if st.is(Token::Plus) {
        Ok((Some(RepetitionKind { lower_bound: 1, upper_bound: None }), st.advance()))
    } else if st.is(Token::Star) {
        Ok((Some(RepetitionKind { lower_bound: 0, upper_bound: None }), st.advance()))
    } else if st.is(Token::QuestionMark) {
        Ok((Some(RepetitionKind { lower_bound: 0, upper_bound: Some(1) }), st.advance()))
    } else {
        spec_repetition_braces(st)
    };
    match kind {
        Err(e) => Err(e),
        Ok((None, s)) => Ok((None, s)),
        Ok((Some(kind), s1)) => {
            let (quantifier, s2) = if s1.is_reserved("greedy"@) {
                (Quantifier::Greedy, s1.advance())
            } else if s1.is_reserved("lazy"@) {
                (Quantifier::Lazy, s1.advance())
            } else {
                (Quantifier::Default, s1)
            };
            let multi_span = s2.span();
            if !(quantifier is Default) {
                Ok((Some((kind, quantifier, span_join(start, s2.last_span()))), s2))
            } else if s2.is(Token::Plus) || s2.is(Token::Star) {
                Err(
                    (
                        error_at(ParseErrorKindModel::Repetition(RepetitionError::Multi), multi_span),
                        s2.advance(),
                    ),
                )
            } else if s2.is(Token::QuestionMark) {
                Err(
                    (
                        error_at(ParseErrorKindModel::Repetition(RepetitionError::QmSuffix), multi_span),
                        s2.advance(),
                    ),
                )
            } else {
                match spec_repetition_braces(s2) {
                    Err(e) => Err(e),
                    Ok((Some(_), s3)) => Err(
                        (
                            error_at(
                                ParseErrorKindModel::Repetition(RepetitionError::Multi),
                                span_join(multi_span, s3.last_span()),
                            ),
                            s3,
                        ),
                    ),
                    Ok((None, s3)) => Ok((Some((kind, quantifier, span_join(start, s3.last_span()))), s3)),
                }
            }
        },
    }
}

/// `atomic`, `:name`, `:` or nothing before a group, with the span of what was read.
pub open spec fn spec_group_kind(st: PState) -> ((GroupKindModel, Span), PState) {
    if st.is_reserved("atomic"@) {
        let s = st.advance();
        ((GroupKindModel::Atomic, s.last_span()), s)
    } else if st.is(Token::Colon) {
        let s = st.advance();
        let span = s.last_span();
        if s.is(Token::Identifier) {
            ((GroupKindModel::Capturing(Some(s.text())), span), s.advance())
        } else {
            ((GroupKindModel::Capturing(None), span), s)
        }
    } else {
        ((GroupKindModel::Normal, Span { start: st.span().start, end: st.span().start }), st)
    }
}

/// A string literal.
#[verifier::opaque]
pub open spec fn spec_string(st: PState) -> SRes<Option<RuleModel>> {
    if st.is(Token::String) {
        let s = st.advance();
        let span = s.last_span();
        match quoted_text(st.text()) {
            Err(k) => Err((error_at(k, span), s)),
            Ok(content) => Ok((Some(RuleModel::Literal { content, span }), s)),
        }
    } else {
        Ok((None, st))
    }
}

/// A code point: `U+1F600`, or an identifier `U1F600`.
#[verifier::opaque]
pub open spec fn spec_code_point(st: PState) -> SRes<Option<(char, Span)>> {
    if st.is(Token::CodePoint) {
        let s = st.advance();
        let span = s.last_span();
        let hex = st.text().skip(2);
        if hex.len() > 6 {
            Err((error_at(ParseErrorKindModel::CodePoint(CodePointError::Invalid), span), s))
        } else {
            match hex_u32(hex) {
                Some(n) => if is_scalar_value(n as int) {
                    Ok((Some((n as char, span)), s))
                } else {
                    Err((error_at(ParseErrorKindModel::CodePoint(CodePointError::Invalid), span), s))
                },
                None => Err((error_at(ParseErrorKindModel::CodePoint(CodePointError::Invalid), span), s)),
            }
        }
    } else if st.is(Token::Identifier) && st.text().len() > 0 && st.text()[0] == 'U' {
        let span = st.span();
        match hex_u32(st.text().skip(1)) {
            Some(n) => if is_scalar_value(n as int) {
                Ok((Some((n as char, span)), st.advance()))
            } else {
                Err(
                    (
                        error_at(ParseErrorKindModel::CodePoint(CodePointError::Invalid), span),
                        st.advance(),
                    ),
                )
            },
            None => Ok((None, st)),
        }
    } else {
        Ok((None, st))
    }
}

/// A code point as an expression.
#[verifier::opaque]
pub open spec fn spec_code_point_rule(st: PState) -> SRes<Option<RuleModel>> {
    match spec_code_point(st) {
        Err(e) => Err(e),
        Ok((None, s)) => Ok((None, s)),
        Ok((Some((c, span)), s)) => Ok(
            (
                Some(
                    RuleModel::CharClass {
                        inner: CharGroupModel::Items(seq![GroupItem::Char(c)]),
                        negative: false,
                        span,
                    },
                ),
                s,
            ),
        ),
    }
}

/// The character that an identifier `n`, `r`, `t`, `a`, `e` or `f` stands for.
pub open spec fn special_char(name: Seq<char>) -> Option<char> {
    if name == "n"@ {
        Some('\n')
    } else if name == "r"@ {
        Some('\r')
    } else if name == "t"@ {
        Some('\t')
    } else if name == "a"@ {
        Some('\u{07}')
    } else if name == "e"@ {
        Some('\u{1B}')
    } else if name == "f"@ {
        Some('\u{0C}')
    } else {
        None
    }
}

/// A special character such as `n` (a line feed).
#[verifier::opaque]
pub open spec fn spec_special_char(st: PState) -> (Option<char>, PState) {
    if st.is(Token::Identifier) {
        match special_char(st.text()) {
            Some(c) => (Some(c), st.advance()),
            None => (None, st),
        }
    } else {
        (None, st)
    }
}

/// A string, code point or special character inside a character set.
#[verifier::opaque]
pub open spec fn spec_string_or_char(st: PState) -> SRes<Option<StringOrCharModel>> {
    if st.is(Token::String) {
        Ok((Some(StringOrCharModel::String(st.text())), st.advance()))
    } else {
        match spec_code_point(st) {
            Err(e) => Err(e),
            Ok((Some((c, _)), s)) => Ok((Some(StringOrCharModel::Char(c)), s)),
            Ok((None, s)) => match spec_special_char(s) {
                (Some(c), s2) => Ok((Some(StringOrCharModel::Char(c)), s2)),
                (None, s2) => Ok((None, s2)),
            },
        }
    }
}

/// A string or a character range inside a character set, e.g. `"axd"` or `'0'-'7'`.
#[verifier::opaque]
pub open spec fn spec_char_group_chars_or_range(st: PState) -> SRes<Option<CharGroupModel>> {
    let span1 = st.span();
    match spec_string_or_char(st) {
        Err(e) => Err(e),
        Ok((None, s)) => Ok((None, s)),
        Ok((Some(first), s1)) => if s1.is(Token::Dash) {
            let s2 = s1.advance();
            let span2 = s2.span();
            match spec_string_or_char(s2) {
                Err(e) => Err(e),
                Ok((None, s3)) => Err(
                    (
                        error_at(ParseErrorKindModel::Expected("code point or character"@), s3.span()),
                        s3,
                    ),
                ),
                Ok((Some(last), s3)) => match to_char_model(first) {
                    Err(k) => Err((error_at(k, span1), s3)),
                    Ok(f) => match to_char_model(last) {
                        Err(k) => Err((error_at(k, span2), s3)),
                        Ok(l) => if f < l {
                            Ok(
                                (
                                    Some(
                                        CharGroupModel::Items(
                                            seq![GroupItem::Range { first: f, last: l }],
                                        ),
                                    ),
                                    s3,
                                ),
                            )
                        } else {
                            Err(
                                (
                                    error_at(
                                        ParseErrorKindModel::CharClass(
                                            CharClassErrorModel::DescendingRange(f, l),
                                        ),
                                        span_join(span1, span2),
                                    ),
                                    s3,
                                ),
                            )
                        },
                    },
                },
            }
        } else {
            match first {
                StringOrCharModel::String(s) => match quoted_text(s) {
                    Err(k) => Err((error_at(k, span1), s1)),
                    Ok(t) => Ok((Some(CharGroupModel::Items(chars_items(t))), s1)),
                },
                StringOrCharModel::Char(c) => Ok(
                    (Some(CharGroupModel::Items(seq![GroupItem::Char(c)])), s1),
                ),
            }
        },
    }
}

/// A name or a dot inside a character set; a reserved word there is an error.
#[verifier::opaque]
pub open spec fn spec_char_group_ident(st: PState, negative: bool) -> SRes<Option<CharGroupModel>> {
    if st.is(Token::Dot) || st.is(Token::Identifier) {
        let s = st.advance();
        let span = s.last_span();
        match group_from_name(st.text(), negative) {
            Err(e) => Err((error_at(ParseErrorKindModel::CharClass(e), span), s)),
            Ok((g, w)) => {
                let s2 = match w {
                    Some(w) => s.add_warning(
                        ParseWarning { kind: ParseWarningKind::Deprecation(w), span },
                    ),
                    None => s,
                };
                Ok((Some(g), s2))
            },
        }
    } else if st.is(Token::ReservedName) {
        Err(
            (
                error_at(ParseErrorKindModel::UnexpectedKeyword(st.text()), st.advance().last_span()),
                st.advance(),
            ),
        )
    } else {
        Ok((None, st))
    }
}

/// One item of a character set, with the `!` before it: a string, a character or a range,
/// which must not be negated, or a name or dot, which may be negated once.
pub open spec fn spec_char_set_item(st: PState) -> SRes<Option<CharGroupModel>> {
    let (nots, nots_span, s1) = count_nots(st, 0, st.span());
    match spec_char_group_chars_or_range(s1) {
        Err(e) => Err(e),
        Ok((Some(g), s2)) => if nots > 0 {
            Err((error_at(ParseErrorKindModel::UnallowedNot, nots_span), s2))
        } else {
            Ok((Some(g), s2))
        },
        Ok((None, s2)) => match spec_char_group_ident(s2, nots % 2 != 0) {
            Err(e) => Err(e),
            Ok((Some(g), s3)) => if nots > 1 {
                Err((error_at(ParseErrorKindModel::UnallowedMultiNot(nots as usize), nots_span), s3))
            } else {
                Ok((Some(g), s3))
            },
            Ok((None, s3)) => Ok((None, s3)),
        },
    }
}

/// The items of a character set, read until no item follows.
pub open spec fn spec_char_set_items(st: PState, items: Seq<CharGroupModel>) -> SRes<Seq<CharGroupModel>>
    decreases st.remaining(),
{
    match spec_char_set_item(st) {
        Err(e) => Err(e),
        Ok((None, s)) => Ok((items, s)),
        Ok((Some(g), s)) => if advances(st, s) {
            spec_char_set_items(s, items.push(g))
        } else {
            // never taken: an item is at least one token
            Ok((items, s))
        },
    }
}

/// The items of a character set combined into one: the first, with each of the others
/// added in turn.
pub open spec fn combine_groups(items: Seq<CharGroupModel>) -> Result<CharGroupModel, CharClassErrorModel>
    decreases items.len(),
{
    if items.len() == 0 {
        Ok(CharGroupModel::Items(Seq::empty()))
    } else if items.len() == 1 {
        Ok(items[0])
    } else {
        match combine_groups(items.drop_last()) {
            Err(e) => Err(e),
            Ok(g) => group_add(g, items.last()),
        }
    }
}

/// An error in combining a prefix of the items is the error of combining them all.
pub proof fn lemma_combine_error_stays(items: Seq<CharGroupModel>, k: int)
    requires
        1 <= k <= items.len(),
        combine_groups(items.take(k)) is Err,
    ensures
        combine_groups(items) == combine_groups(items.take(k)),
    decreases items.len() - k,
{
    if k < items.len() {
        assert(items.take(k + 1).drop_last() =~= items.take(k));
        lemma_combine_error_stays(items, k + 1);
    } else {
        assert(items.take(k) =~= items);
    }
}

/// The contents of a character set.
#[verifier::opaque]
pub open spec fn spec_char_set_inner(st: PState) -> SRes<CharGroupModel> {
    let span_start = st.span();
    match spec_char_set_items(st, Seq::empty()) {
        Err(e) => Err(e),
        Ok((items, s)) => match combine_groups(items) {
            Ok(g) => Ok((g, s)),
            Err(e) => Err(
                (error_at(ParseErrorKindModel::CharClass(e), span_join(span_start, s.last_span())), s),
            ),
        },
    }
}

/// A character set in brackets; it must not start with `^` and must not be empty.
#[verifier::opaque]
pub open spec fn spec_char_set(st: PState) -> SRes<Option<RuleModel>> {
    if !st.is(Token::OpenBracket) {
        Ok((None, st))
    } else {
        let s1 = st.advance();
        let start_span = s1.last_span();
        if s1.is(Token::Caret) {
            Err(
                (
                    error_at(
                        ParseErrorKindModel::CharClass(CharClassErrorModel::CaretInGroup),
                        s1.advance().last_span(),
                    ),
                    s1.advance(),
                ),
            )
        } else {
            match spec_char_set_inner(s1) {
                Err(e) => Err(e),
                Ok((inner, s2)) => match s2.expect(Token::CloseBracket) {
                    Err(p) => Err(
                        rekind(
                            p,
                            ParseErrorKindModel::Expected(
                                "character class, string, code point, Unicode property or `]`"@,
                            ),
                        ),
                    ),
                    Ok(s3) => {
                        let span = span_join(start_span, s3.last_span());
                        if inner matches CharGroupModel::Items(v) && v.len() == 0 {
                            Err(
                                (
                                    error_at(
                                        ParseErrorKindModel::CharClass(CharClassErrorModel::Empty),
                                        span,
                                    ),
                                    s3,
                                ),
                            )
                        } else {
                            Ok((Some(RuleModel::CharClass { inner, negative: false, span }), s3))
                        }
                    },
                },
            }
        }
    }
}

/// A boundary: `^`, `$` or `%`.
#[verifier::opaque]
pub open spec fn spec_boundary(st: PState) -> (Option<RuleModel>, PState) {
    let span = st.span();
    if st.is(Token::Caret) {
        (Some(RuleModel::Boundary { kind: BoundaryKind::Start, span }), st.advance())
    } else if st.is(Token::Dollar) {
        (Some(RuleModel::Boundary { kind: BoundaryKind::End, span }), st.advance())
    } else if st.is(Token::BStart) {
        (
            Some(RuleModel::Boundary { kind: BoundaryKind::Start, span }),
            st.advance().add_warning(
                ParseWarning {
                    kind: ParseWarningKind::Deprecation(DeprecationWarning::StartLiteral),
                    span,
                },
            ),
        )
    } else if st.is(Token::BEnd) {
        (
            Some(RuleModel::Boundary { kind: BoundaryKind::End, span }),
            st.advance().add_warning(
                ParseWarning {
                    kind: ParseWarningKind::Deprecation(DeprecationWarning::EndLiteral),
                    span,
                },
            ),
        )
    } else if st.is(Token::BWord) {
        (Some(RuleModel::Boundary { kind: BoundaryKind::Word, span }), st.advance())
    } else {
        (None, st)
    }
}

/// A reference: `::name`, `::3`, `::+3` or `::-3`.
#[verifier::opaque]
pub open spec fn spec_reference(st: PState) -> SRes<Option<RuleModel>> {
    if !st.is(Token::DoubleColon) {
        Ok((None, st))
    } else {
        let s1 = st.advance();
        let start_span = s1.last_span();
        let target: SRes<ReferenceTargetModel> = if s1.is(Token::Plus) {
            match s1.advance().expect_number(0x7fff_ffff) {
                Err(e) => Err(e),
                Ok((n, s)) => Ok((ReferenceTargetModel::Relative(n as i32), s)),
            }
        } else if s1.is(Token::Dash) {
            match s1.advance().expect_number(0x7fff_ffff) {
                Err(e) => Err(e),
                Ok((n, s)) => Ok((ReferenceTargetModel::Relative((-(n as int)) as i32), s)),
            }
        } else {
            match s1.consume_number(u32::MAX) {
                Err(e) => Err(e),
                Ok((Some(n), s)) => Ok((ReferenceTargetModel::Number(n), s)),
                Ok((None, s)) => match s.expect_as(Token::Identifier) {
                    Err(p) => Err(rekind(p, ParseErrorKindModel::Expected("number of group name"@))),
                    Ok((name, s2)) => Ok((ReferenceTargetModel::Named(name), s2)),
                },
            }
        };
        match target {
            Err(e) => Err(e),
            Ok((target, s)) => Ok(
                (Some(RuleModel::Reference { target, span: span_join(start_span, s.last_span()) }), s),
            ),
        }
    }
}

/// The radix after `base` in a range: a number from 2 to 36, or 10 when there is none.
#[verifier::opaque]
pub open spec fn spec_range_radix(st: PState) -> SRes<u8> {
    if st.is_reserved("base"@) {
        match st.advance().expect_number(255) {
            Err(e) => Err(e),
            Ok((n, s)) => {
                let span = s.last_span();
                if n > 36 {
                    Err((error_at(ParseErrorKindModel::Number(NumberError::TooLarge), span), s))
                } else if n < 2 {
                    Err((error_at(ParseErrorKindModel::Number(NumberError::TooSmall), span), s))
                } else {
                    Ok((n as u8, s))
                }
            },
        }
    } else {
        Ok((10u8, st))
    }
}

/// A range of numbers: `range '0'-'255'`, maybe followed by `base 16`; the start must not
/// be greater than the end.
#[verifier::opaque]
pub open spec fn spec_range(st: PState) -> SRes<Option<RuleModel>> {
    if !st.is_reserved("range"@) {
        Ok((None, st))
    } else {
        let s1 = st.advance();
        let span_start = s1.last_span();
        match s1.expect_as(Token::String) {
            Err(e) => Err(e),
            Ok((first, s2)) => {
                let span_1 = s2.last_span();
                match s2.expect(Token::Dash) {
                    Err(e) => Err(e),
                    Ok(s3) => match s3.expect_as(Token::String) {
                        Err(e) => Err(e),
                        Ok((second, s4)) => {
                            let span_2 = s4.last_span();
                            match spec_range_radix(s4) {
                                Err(e) => Err(e),
                                Ok((radix, s5)) => {
                                    let span = span_join(span_start, s5.last_span());
                                    match number_digits(first.subrange(1, first.len() - 1), radix) {
                                        Err(k) => Err((error_at(ParseErrorKindModel::Number(k), span_1), s5)),
                                        Ok(start) => match number_digits(
                                            second.subrange(1, second.len() - 1),
                                            radix,
                                        ) {
                                            Err(k) => Err((error_at(ParseErrorKindModel::Number(k), span_2), s5)),
                                            Ok(end) => if start.len() > end.len() || (start.len()
                                                == end.len() && lex_greater(start, end)) {
                                                Err(
                                                    (
                                                        error_at(
                                                            ParseErrorKindModel::RangeIsNotIncreasing,
                                                            span_join(span_1, span_2),
                                                        ),
                                                        s5,
                                                    ),
                                                )
                                            } else {
                                                Ok(
                                                    (
                                                        Some(
                                                            RuleModel::Range { start, end, radix, span },
                                                        ),
                                                        s5,
                                                    ),
                                                )
                                            },
                                        },
                                    }
                                },
                            }
                        },
                    },
                }
            },
        }
    }
}

/// A regex used verbatim: `regex "[test]"`.
#[verifier::opaque]
pub open spec fn spec_regex(st: PState) -> SRes<Option<RuleModel>> {
    if !st.is_reserved("regex"@) {
        Ok((None, st))
    } else {
        let s1 = st.advance();
        let span_start = s1.last_span();
        match s1.expect_as(Token::String) {
            Err(e) => Err(e),
            Ok((lit, s2)) => {
                let span_end = s2.last_span();
                match quoted_text(lit) {
                    Err(k) => Err((error_at(k, span_end), s2)),
                    Ok(content) => Ok(
                        (Some(RuleModel::Regex { content, span: span_join(span_start, span_end) }), s2),
                    ),
                }
            },
        }
    }
}

/// The use of a variable.
#[verifier::opaque]
pub open spec fn spec_variable(st: PState) -> (Option<RuleModel>, PState) {
    if st.is(Token::Identifier) {
        let s = st.advance();
        (Some(RuleModel::Variable { name: st.text(), span: s.last_span() }), s)
    } else {
        (None, st)
    }
}

/// The dot, which matches any character but a line break.
#[verifier::opaque]
pub open spec fn spec_dot(st: PState) -> (Option<RuleModel>, PState) {
    if st.is(Token::Dot) {
        let s = st.advance();
        (Some(RuleModel::CharClass { inner: CharGroupModel::Dot, negative: false, span: s.last_span() }), s)
    } else {
        (None, st)
    }
}

/// The atoms that are not groups, tried in turn: a string, a character set, a boundary,
/// a reference, a code point, a range, a regex, a variable, the dot.
#[verifier::opaque]
pub open spec fn spec_atom_rest(st: PState) -> SRes<Option<RuleModel>> {
    match spec_string(st) {
        Err(e) => Err(e),
        Ok((Some(r), s)) => Ok((Some(r), s)),
        Ok((None, s)) => match spec_char_set(s) {
            Err(e) => Err(e),
            Ok((Some(r), s)) => Ok((Some(r), s)),
            Ok((None, s)) => match spec_boundary(s) {
                (Some(r), s) => Ok((Some(r), s)),
                (None, s) => match spec_reference(s) {
                    Err(e) => Err(e),
                    Ok((Some(r), s)) => Ok((Some(r), s)),
                    Ok((None, s)) => match spec_code_point_rule(s) {
                        Err(e) => Err(e),
                        Ok((Some(r), s)) => Ok((Some(r), s)),
                        Ok((None, s)) => match spec_range(s) {
                            Err(e) => Err(e),
                            Ok((Some(r), s)) => Ok((Some(r), s)),
                            Ok((None, s)) => match spec_regex(s) {
                                Err(e) => Err(e),
                                Ok((Some(r), s)) => Ok((Some(r), s)),
                                Ok((None, s)) => match spec_variable(s) {
                                    (Some(r), s) => Ok((Some(r), s)),
                                    (None, s) => Ok(spec_dot(s)),
                                },
                            },
                        },
                    },
                },
            },
        },
    }
}

/// The first statement of a sequence of `let` bindings whose name an earlier one has,
/// from index `i` on: the span of its name.
pub open spec fn first_duplicate_let(stmts: Seq<(StmtModel, Span)>, i: int) -> Option<Span>
    decreases stmts.len() - i,
{
    if i < 0 || i >= stmts.len() {
        None
    } else {
        match stmts[i].0 {
            StmtModel::Let { name, name_span, .. } => if exists|j: int|
                0 <= j < i && #[trigger] let_name(stmts[j].0) == Some(name) {
                Some(name_span)
            } else {
                first_duplicate_let(stmts, i + 1)
            },
            _ => first_duplicate_let(stmts, i + 1),
        }
    }
}

/// The name that a statement binds, if it is a `let`.
pub open spec fn let_name(s: StmtModel) -> Option<Seq<char>> {
    match s {
        StmtModel::Let { name, .. } => Some(name),
        _ => None,
    }
}

/// The statements put in front of a rule, the last one innermost; each one's span
/// reaches to the end of the innermost rule.
pub open spec fn wrap_stmts(stmts: Seq<(StmtModel, Span)>, rule: RuleModel, span_end: Span) -> RuleModel
    decreases stmts.len(),
{
    if stmts.len() == 0 {
        rule
    } else {
        let (stmt, span) = stmts.last();
        wrap_stmts(
            stmts.drop_last(),
            RuleModel::StmtExpr {
                stmt: Box::new(stmt),
                rule: Box::new(rule),
                span: span_join(span, span_end),
            },
            span_end,
        )
    }
}

// ----- The recursive part of the grammar -----
// Each call either reads a token first, or goes to a function of a lower rank (the second
// number of the `decreases` clause).

/// Statements, then an alternation; the names that `let` binds here must differ.
pub open spec fn spec_modified(st: PState) -> SRes<RuleModel>
    decreases st.remaining(), 20nat,
{
    match spec_stmts(st, Seq::empty()) {
        Err(e) => Err(e),
        Ok((stmts, s1)) => if !reaches(st, s1) {
            // never taken: parsing never moves backwards
            Err((error_at(ParseErrorKindModel::RecursionLimit, s1.span()), s1))
        } else {
            match s1.recursion_start() {
                Err(e) => Err(e),
                Ok(s2) => match spec_or(s2) {
                    Err(e) => Err(e),
                    Ok((rule, s3)) => {
                        let s4 = s3.recursion_end();
                        if stmts.len() > 1 && first_duplicate_let(stmts, 0) is Some {
                            Err(
                                (
                                    error_at(
                                        ParseErrorKindModel::LetBindingExists,
                                        first_duplicate_let(stmts, 0)->0,
                                    ),
                                    s4,
                                ),
                            )
                        } else {
                            Ok((wrap_stmts(stmts, rule, rule.span()), s4))
                        }
                    },
                },
            }
        },
    }
}

/// Mode modifiers and `let` bindings, read until neither follows.
pub open spec fn spec_stmts(st: PState, stmts: Seq<(StmtModel, Span)>) -> SRes<Seq<(StmtModel, Span)>>
    decreases st.remaining(), 19nat,
{
    match spec_mode_modifier(st) {
        Err(e) => Err(e),
        Ok((Some(s), s1)) => if advances(st, s1) {
            spec_stmts(s1, stmts.push(s))
        } else {
            // never taken: a statement is at least one token
            Ok((stmts, s1))
        },
        Ok((None, s1)) => if !reaches(st, s1) {
            // never taken: parsing never moves backwards
            Ok((stmts, s1))
        } else {
            match spec_let(s1) {
                Err(e) => Err(e),
                Ok((None, s2)) => Ok((stmts, s2)),
                Ok((Some(s), s2)) => if advances(st, s2) {
                    spec_stmts(s2, stmts.push(s))
                } else {
                    // never taken: a statement is at least one token
                    Ok((stmts, s2))
                },
            }
        },
    }
}

/// `let name = rule;`; a reserved word as the name is an error of its own.
pub open spec fn spec_let(st: PState) -> SRes<Option<(StmtModel, Span)>>
    decreases st.remaining(), 18nat,
{
    if !st.is_reserved("let"@) {
        Ok((None, st))
    } else {
        let s1 = st.advance();
        let span_start = s1.last_span();
        let name_span = s1.span();
        match s1.expect_as(Token::Identifier) {
            Err(e) => Err(
                if s1.is(Token::ReservedName) {
                    rekind(e, ParseErrorKindModel::KeywordAfterLet(s1.text()))
                } else {
                    e
                },
            ),
            Ok((name, s2)) => match s2.expect(Token::Equals) {
                Err(e) => Err(e),
                Ok(s3) => match s3.recursion_start() {
                    Err(e) => Err(e),
                    Ok(s4) => match spec_or(s4) {
                        Err(e) => Err(e),
                        Ok((rule, s5)) => match s5.recursion_end().expect(Token::Semicolon) {
                            Err(p) => Err(rekind(p, ParseErrorKindModel::Expected("expression or `;`"@))),
                            Ok(s6) => Ok(
                                (
                                    Some(
                                        (
                                            StmtModel::Let { name, rule, name_span },
                                            span_join(span_start, s6.last_span()),
                                        ),
                                    ),
                                    s6,
                                ),
                            ),
                        },
                    },
                },
            },
        }
    }
}

/// Alternatives separated by `|`, with an optional leading `|`.
pub open spec fn spec_or(st: PState) -> SRes<RuleModel>
    decreases st.remaining(), 17nat,
{
    let span = st.span();
    let leading_pipe = st.is(Token::Pipe);
    let s1 = if leading_pipe { st.advance() } else { st };
    match spec_sequence(s1) {
        Err(e) => Err(e),
        Ok((None, s2)) => if leading_pipe {
            Err((error_at(ParseErrorKindModel::LonePipe, span), s2))
        } else {
            Ok((alternation_model(Seq::empty()), s2))
        },
        Ok((Some(first), s2)) => if reaches(st, s2) {
            spec_or_rest(s2, seq![first])
        } else {
            // never taken: parsing never moves backwards
            Ok((first, s2))
        },
    }
}

/// The alternatives after the first, each after a `|`.
pub open spec fn spec_or_rest(st: PState, alts: Seq<RuleModel>) -> SRes<RuleModel>
    decreases st.remaining(), 16nat,
{
    if st.is(Token::Pipe) {
        let s1 = st.advance();
        match spec_sequence(s1) {
            Err(e) => Err(e),
            Ok((None, s2)) => Err((error_at(ParseErrorKindModel::LonePipe, s2.last_span()), s2)),
            Ok((Some(next), s2)) => if reaches(s1, s2) {
                spec_or_rest(s2, alts.push(next))
            } else {
                // never taken: parsing never moves backwards
                Ok((next, s2))
            },
        }
    } else if alts.len() == 1 {
        Ok((alts[0], st))
    } else {
        Ok((alternation_model(alts), st))
    }
}

/// Expressions in sequence: none, one, or several as an implicit group.
pub open spec fn spec_sequence(st: PState) -> SRes<Option<RuleModel>>
    decreases st.remaining(), 15nat,
{
    match spec_sequence_items(st, Seq::empty()) {
        Err(e) => Err(e),
        Ok((fixes, s)) => Ok(
            (
                if fixes.len() == 0 {
                    None
                } else if fixes.len() == 1 {
                    Some(fixes[0])
                } else {
                    Some(
                        RuleModel::Group {
                            parts: fixes,
                            kind: GroupKindModel::Implicit,
                            span: span_join(fixes[0].span(), fixes.last().span()),
                        },
                    )
                },
                s,
            ),
        ),
    }
}

/// The expressions of a sequence, read until none follows.
pub open spec fn spec_sequence_items(st: PState, fixes: Seq<RuleModel>) -> SRes<Seq<RuleModel>>
    decreases st.remaining(), 14nat,
{
    match spec_fixes(st) {
        Err(e) => Err(e),
        Ok((None, s)) => Ok((fixes, s)),
        Ok((Some(f), s)) => if advances(st, s) {
            spec_sequence_items(s, fixes.push(f))
        } else {
            // never taken: an expression is at least one token
            Ok((fixes, s))
        },
    }
}

/// An expression with optional `!` before it: one `!` negates it, more are an error.
pub open spec fn spec_fixes(st: PState) -> SRes<Option<RuleModel>>
    decreases st.remaining(), 13nat,
{
    let (nots, nots_span, s1) = count_nots(st, 0, st.span());
    if !reaches(st, s1) {
        // never taken: parsing never moves backwards
        Ok((None, s1))
    } else {
        let r = match spec_lookaround(s1) {
            Err(e) => Err(e),
            Ok((Some(r), s)) => Ok((Some(r), s)),
            Ok((None, s)) => if reaches(st, s) {
                spec_repeated(s)
            } else {
                // never taken: parsing never moves backwards
                Ok((None, s))
            },
        };
        match r {
            Err(e) => Err(e),
            Ok((None, s)) => if nots == 0 {
                Ok((None, s))
            } else {
                Err((error_at(ParseErrorKindModel::Expected("expression"@), s.span()), s))
            },
            Ok((Some(rule), s)) => if nots == 0 {
                Ok((Some(rule), s))
            } else if nots == 1 {
                match rule.negated() {
                    Ok(r2) => Ok((Some(r2), s)),
                    Err(k) => Err((error_at(k, nots_span), s)),
                }
            } else {
                Err((error_at(ParseErrorKindModel::UnallowedMultiNot(nots as usize), nots_span), s))
            },
        }
    }
}

/// A lookahead `>> rule` or lookbehind `<< rule`.
pub open spec fn spec_lookaround(st: PState) -> SRes<Option<RuleModel>>
    decreases st.remaining(), 12nat,
{
    let kind = if st.is(Token::LookAhead) {
        Some(LookaroundKind::Ahead)
    } else if st.is(Token::LookBehind) {
        Some(LookaroundKind::Behind)
    } else {
        None
    };
    match kind {
        None => Ok((None, st)),
        Some(kind) => {
            let s1 = st.advance();
            let start_span = s1.last_span();
            match s1.recursion_start() {
                Err(e) => Err(e),
                Ok(s2) => match spec_modified(s2) {
                    Err(e) => Err(e),
                    Ok((rule, s3)) => Ok(
                        (
                            Some(
                                RuleModel::Lookaround {
                                    rule: Box::new(rule),
                                    kind,
                                    span: span_join(start_span, rule.span()),
                                },
                            ),
                            s3.recursion_end(),
                        ),
                    ),
                },
            }
        },
    }
}

/// The repetitions that follow a rule, each wrapped around what came before it.
pub open spec fn spec_repetitions(st: PState, rule: RuleModel) -> SRes<RuleModel>
    decreases st.remaining(),
{
    match spec_repetition(st) {
        Err(e) => Err(e),
        Ok((None, s)) => Ok((rule, s)),
        Ok((Some((kind, quantifier, span)), s)) => {
            let r = RuleModel::Repetition {
                rule: Box::new(rule),
                kind,
                quantifier,
                span: span_join(rule.span(), span),
            };
            if advances(st, s) {
                spec_repetitions(s, r)
            } else {
                // never taken: a repetition reads at least one token
                Ok((r, s))
            }
        },
    }
}

/// An atom with the repetitions after it.
pub open spec fn spec_repeated(st: PState) -> SRes<Option<RuleModel>>
    decreases st.remaining(), 12nat,
{
    match spec_atom(st) {
        Err(e) => Err(e),
        Ok((None, s)) => Ok((None, s)),
        Ok((Some(rule), s)) => match spec_repetitions(s, rule) {
            Err(e) => Err(e),
            Ok((r, s2)) => Ok((Some(r), s2)),
        },
    }
}

/// An atom: a group, or one of the atoms of `spec_atom_rest`.
pub open spec fn spec_atom(st: PState) -> SRes<Option<RuleModel>>
    decreases st.remaining(), 11nat,
{
    match spec_group(st) {
        Err(e) => Err(e),
        Ok((Some(r), s)) => Ok((Some(r), s)),
        Ok((None, s)) => spec_atom_rest(s),
    }
}

/// A group in parentheses, maybe capturing (`:name(...)`) or atomic (`atomic(...)`).
pub open spec fn spec_group(st: PState) -> SRes<Option<RuleModel>>
    decreases st.remaining(), 10nat,
{
    let ((kind, start_span), s1) = spec_group_kind(st);
    let open: Result<Option<PState>, SErr> = if !(kind is Normal) {
        match s1.expect(Token::OpenParen) {
            Err(e) => Err(e),
            Ok(s) => Ok(Some(s)),
        }
    } else if s1.is(Token::OpenParen) {
        Ok(Some(s1.advance()))
    } else {
        Ok(None)
    };
    match open {
        Err(e) => Err(e),
        Ok(None) => Ok((None, s1)),
        Ok(Some(s2)) => if !advances(st, s2) {
            // never taken: the parenthesis was read
            Ok((None, s2))
        } else {
            match s2.recursion_start() {
                Err(e) => Err(e),
                Ok(s3) => match spec_modified(s3) {
                    Err(e) => Err(e),
                    Ok((rule, s4)) => match s4.recursion_end().expect(Token::CloseParen) {
                        Err(p) => Err(rekind(p, ParseErrorKindModel::Expected("`)` or an expression"@))),
                        Ok(s5) => Ok(
                            (
                                Some(
                                    RuleModel::Group {
                                        parts: seq![rule],
                                        kind,
                                        span: span_join(start_span, s5.last_span()),
                                    },
                                ),
                                s5,
                            ),
                        ),
                    },
                },
            }
        },
    }
}

} // verus!

