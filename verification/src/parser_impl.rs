use vstd::prelude::*;

use crate::error::{
    CharClassError, CharStringError, CodePointError, NumberError, ParseError, ParseErrorKind,
    RepetitionError,
};
use crate::exprs::{
    BooleanSetting, Boundary, BoundaryKind, Capture, CharClass, CharGroup, CharGroupModel,
    GroupKind, GroupKindModel, Quantifier, Reference, ReferenceTarget, Regex, RepetitionKind,
    Rule, RuleModel, Stmt, StmtModel, Variable, Literal,
};
use crate::grammar::{
    first_duplicate_let, let_name, spec_atom, spec_atom_rest, spec_fixes, spec_group, spec_let, spec_lookaround,
    spec_modified, spec_or, spec_or_rest, spec_repeated, spec_sequence, spec_sequence_items,
    spec_stmts, wrap_stmts,
    advances, combine_groups, count_nots, lemma_combine_error_stays, reaches, spec_boundary,
    spec_char_group_chars_or_range, spec_char_group_ident, spec_char_set, spec_char_set_inner,
    spec_char_set_items, spec_code_point, spec_code_point_rule, spec_dot, spec_group_kind,
    spec_mode_modifier, spec_range, spec_range_radix, spec_reference, spec_regex, spec_repetition,
    spec_repetition_braces, spec_special_char, spec_string, spec_string_or_char, spec_variable,
    to_char_model, StringOrCharModel,
};
use crate::error::CharClassErrorModel;
use crate::exprs::{
    groups_model, lemma_groups_model, lemma_rules_model, lemma_stmts_model, rules_model,
    stmt_model, stmts_model, Alternation, Group, Let, Lookaround, LookaroundKind, Repetition,
    StmtExpr,
};
use crate::helper::digits_greater;
use crate::char_group::group_add;
use crate::helper::{parse_hex_u32, parse_number, parse_quoted_text, strip_first_last};
use crate::parser::{token_wf, PResult, PState, Parser, SErr, SRes};
use crate::range::Range;
use crate::span::{span_join, Span};
use crate::text::{char_from_u32, str_eq};
use crate::token::Token;
use crate::warning::{DeprecationWarning, ParseWarningKind};

verus! {

/// Whether a parse result agrees with what the grammar gives: the same value (as `f`
/// models it) and the same state after it, or the same error.
pub open spec fn outcome<T, M>(res: PResult<T>, fin: PState, m: SRes<M>, f: spec_fn(T) -> M) -> bool {
    match m {
        Ok((v, st)) => res is Ok && f(res->Ok_0) == v && fin == st,
        Err((e, st)) => res is Err && res->Err_0@ == e && fin == st,
    }
}

pub open spec fn opt_rule(r: Option<Rule>) -> Option<RuleModel> {
    match r {
        Some(r) => Some(r@),
        None => None,
    }
}

pub open spec fn opt_group(g: Option<CharGroup>) -> Option<CharGroupModel> {
    match g {
        Some(g) => Some(g@),
        None => None,
    }
}

pub open spec fn opt_stmt(s: Option<(Stmt, Span)>) -> Option<(StmtModel, Span)> {
    match s {
        Some((s, span)) => Some((s@, span)),
        None => None,
    }
}

/// A string literal or a single character inside a character set.
pub enum StringOrChar {
    String(String),
    Char(char),
}

impl View for StringOrChar {
    type V = StringOrCharModel;

    open spec fn view(&self) -> StringOrCharModel {
        match self {
            StringOrChar::String(s) => StringOrCharModel::String(s@),
            StringOrChar::Char(c) => StringOrCharModel::Char(*c),
        }
    }
}

pub open spec fn opt_string_or_char(s: Option<StringOrChar>) -> Option<StringOrCharModel> {
    match s {
        Some(s) => Some(s@),
        None => None,
    }
}

/// The guarantees of the lexer hold for the next token.
pub proof fn lemma_next_token_wf(st: PState)
    requires
        st.wf(),
        st.offset < st.tokens.len(),
    ensures
        token_wf(st.tokens[st.offset as int]),
{
}

impl StringOrChar {
    /// The character that this string or character stands for, as `to_char_model` says.
    pub fn to_char(self) -> (r: Result<char, ParseErrorKind>)
        requires
            self matches StringOrChar::String(s) ==> s@.len() >= 2,
        ensures
            match to_char_model(self@) {
                Ok(c) => r == Ok::<char, ParseErrorKind>(c),
                Err(k) => r is Err && r->Err_0@ == k,
            },
    {
        match self {
            StringOrChar::Char(c) => Ok(c),
            StringOrChar::String(s) => {
                let s = parse_quoted_text(s.as_str())?;
                let n = s.as_str().unicode_len();
                if n == 1 {
                    Ok(s.as_str().get_char(0))
                } else if n > 1 {
                    Err(ParseErrorKind::CharString(CharStringError::TooManyCodePoints))
                } else {
                    Err(ParseErrorKind::CharString(CharStringError::Empty))
                }
            },
        }
    }
}

impl Parser {
    /// Parses `enable lazy;` or `disable lazy;`.
    pub fn parse_mode_modifier(&mut self) -> (res: PResult<Option<(Stmt, Span)>>)
        requires
            old(self)@.wf(),
        ensures
            reaches(old(self)@, final(self)@),
            res is Ok ==> final(self)@.recursion == old(self)@.recursion,
            outcome(res, final(self)@, spec_mode_modifier(old(self)@), |r| opt_stmt(r)),
            res matches Ok(Some(_)) ==> advances(old(self)@, final(self)@),
            res matches Ok(None) ==> final(self)@ == old(self)@,
    {
        reveal(spec_mode_modifier);
        let stmt = if self.consume_reserved("enable") {
            Stmt::Enable(BooleanSetting::Lazy)
        } else if self.consume_reserved("disable") {
            Stmt::Disable(BooleanSetting::Lazy)
        } else {
            return Ok(None);
        };

        let span_start = self.last_span();
        self.expect_reserved("lazy")?;
        self.expect(Token::Semicolon)?;
        let span_end = self.last_span();

        Ok(Some((stmt, span_start.join(span_end))))
    }

    /// Parses `{2}`, `{2,}`, `{,2}` or `{2,5}`.
    pub fn parse_repetition_braces(&mut self) -> (res: PResult<Option<RepetitionKind>>)
        requires
            old(self)@.wf(),
        ensures
            reaches(old(self)@, final(self)@),
            res is Ok ==> final(self)@.recursion == old(self)@.recursion,
            outcome(res, final(self)@, spec_repetition_braces(old(self)@), |r| r),
            res matches Ok(Some(_)) ==> advances(old(self)@, final(self)@),
            res matches Ok(None) ==> final(self)@ == old(self)@,
    {
        reveal(spec_repetition_braces);
        if self.consume(Token::OpenBrace) {
            let num_start = self.span();

            // Both numbers and the comma are parsed optionally, then we check that one
            // of the allowed syntaxes is used: There must be at least one number, and if
            // there are two numbers, the comma is required. It also checks that the
            // numbers are in increasing order.
            let lower = self.consume_number(u32::MAX)?;
            let comma = self.consume(Token::Comma);
            let upper = self.consume_number(u32::MAX)?;

            let num_end = self.last_span();
            let num_span = num_start.join(num_end);

            let kind = if comma {
                if lower.is_none() && upper.is_none() {
                    return Err(ParseErrorKind::Expected("number").at(self.span()));
                }
                let low = match lower {
                    Some(l) => l,
                    None => 0,
                };
                match RepetitionKind::try_from_bounds(low, upper) {
                    Ok(k) => k,
                    Err(e) => return Err(ParseErrorKind::Repetition(e).at(num_span)),
                }
            } else {
                match (lower, upper) {
                    (Some(_), Some(_)) => {
                        return Err(ParseErrorKind::Expected("`}` or `,`").at(num_end))
                    },
                    (Some(rep), None) => RepetitionKind::fixed(rep),
                    (None, Some(rep)) => RepetitionKind::fixed(rep),
                    (None, None) => {
                        return Err(ParseErrorKind::Expected("number").at(self.span()))
                    },
                }
            };

            self.expect(Token::CloseBrace)?;

            Ok(Some(kind))
        } else {
            Ok(None)
        }
    }

    /// Parses a repetition that can follow an atom: `+`, `?`, `*`, `{x}`, `{x,}`, `{,x}`
    /// or `{x,y}` optionally followed by the `greedy` or `lazy` keyword. `x` and `y` are
    /// number literals. Where neither keyword follows, another repetition right after it
    /// is an error.
    pub fn parse_repetition(&mut self) -> (res: PResult<Option<(RepetitionKind, Quantifier, Span)>>)
        requires
            old(self)@.wf(),
        ensures
            reaches(old(self)@, final(self)@),
            res is Ok ==> final(self)@.recursion == old(self)@.recursion,
            outcome(res, final(self)@, spec_repetition(old(self)@), |r| r),
            res matches Ok(Some(_)) ==> advances(old(self)@, final(self)@),
            res matches Ok(None) ==> final(self)@ == old(self)@,
    {
        reveal(spec_repetition);
        let start = self.span();

        let kind = if self.consume(Token::Plus) {
            RepetitionKind::one_inf()
        } else if self.consume(Token::Star) {
            RepetitionKind::zero_inf()
        } else if self.consume(Token::QuestionMark) {
            RepetitionKind::zero_one()
        } else if let Some(kind) = self.parse_repetition_braces()? {
            kind
        } else {
            return Ok(None);
        };

        let quantifier = if self.consume_reserved("greedy") {
            Quantifier::Greedy
        } else if self.consume_reserved("lazy") {
            Quantifier::Lazy
        } else {
            Quantifier::Default
        };

        let multi_span = self.span();
        if quantifier != Quantifier::Default {
            let end = self.last_span();
            return Ok(Some((kind, quantifier, start.join(end))));
        }
        if self.consume(Token::Plus) || self.consume(Token::Star) {
            return Err(ParseErrorKind::Repetition(RepetitionError::Multi).at(multi_span));
        } else if self.consume(Token::QuestionMark) {
            return Err(ParseErrorKind::Repetition(RepetitionError::QmSuffix).at(multi_span));
        } else if self.parse_repetition_braces()?.is_some() {
            return Err(
                ParseErrorKind::Repetition(RepetitionError::Multi).at(
                    multi_span.join(self.last_span()),
                ),
            );
        }

        let end = self.last_span();
        Ok(Some((kind, quantifier, start.join(end))))
    }

    /// Parses `:name` or just `:`. Returns the span of the colon with the name.
    pub fn parse_group_kind(&mut self) -> (res: (GroupKind, Span))
        requires
            old(self)@.wf(),
        ensures
            reaches(old(self)@, final(self)@),
            final(self)@.recursion == old(self)@.recursion,
            spec_group_kind(old(self)@) == ((res.0@, res.1), final(self)@),
    {
        if self.consume_reserved("atomic") {
            let span = self.last_span();
            (GroupKind::Atomic, span)
        } else if self.consume(Token::Colon) {
            let span = self.last_span();
            let name = self.consume_as(Token::Identifier);
            (GroupKind::Capturing(Capture::new(name)), span)
        } else {
            (GroupKind::Normal, self.span().start())
        }
    }

    /// Parses a string literal.
    pub fn parse_string(&mut self) -> (res: PResult<Option<Rule>>)
        requires
            old(self)@.wf(),
        ensures
            reaches(old(self)@, final(self)@),
            res is Ok ==> final(self)@.recursion == old(self)@.recursion,
            outcome(res, final(self)@, spec_string(old(self)@), |r| opt_rule(r)),
            res matches Ok(Some(_)) ==> advances(old(self)@, final(self)@),
            res matches Ok(None) ==> final(self)@ == old(self)@,
    {
        reveal(spec_string);
        proof {
            if old(self)@.offset < old(self)@.tokens.len() {
                lemma_next_token_wf(old(self)@);
            }
        }
        if let Some(s) = self.consume_as(Token::String) {
            let span = self.last_span();
            let content = match parse_quoted_text(s.as_str()) {
                Ok(c) => c,
                Err(k) => return Err(k.at(span)),
            };
            Ok(Some(Rule::Literal(Literal::new(content, span))))
        } else {
            Ok(None)
        }
    }

    /// Parses a code point: `U+1F600`, or an identifier such as `U1F600`.
    pub fn parse_code_point(&mut self) -> (res: PResult<Option<(char, Span)>>)
        requires
            old(self)@.wf(),
        ensures
            reaches(old(self)@, final(self)@),
            res is Ok ==> final(self)@.recursion == old(self)@.recursion,
            outcome(res, final(self)@, spec_code_point(old(self)@), |r| r),
            res matches Ok(Some(_)) ==> advances(old(self)@, final(self)@),
            res matches Ok(None) ==> final(self)@ == old(self)@,
    {
        reveal(spec_code_point);
        proof {
            if old(self)@.offset < old(self)@.tokens.len() {
                lemma_next_token_wf(old(self)@);
            }
        }
        if let Some(cp) = self.consume_as(Token::CodePoint) {
            let span = self.last_span();
            let n = cp.as_str().unicode_len();
            let hex = cp.as_str().substring_char(2, n);
            assert(hex@ == cp@.skip(2));
            if hex.unicode_len() > 6 {
                Err(ParseErrorKind::CodePoint(CodePointError::Invalid).at(span))
            } else {
                match parse_hex_u32(hex) {
                    Some(n) => match char_from_u32(n) {
                        Some(c) => Ok(Some((c, span))),
                        None => Err(ParseErrorKind::CodePoint(CodePointError::Invalid).at(span)),
                    },
                    None => Err(ParseErrorKind::CodePoint(CodePointError::Invalid).at(span)),
                }
            }
        } else {
            if self.is(Token::Identifier) {
                let span = self.span();
                let s = self.current_text();
                let len = s.unicode_len();
                if len > 0 && s.get_char(0) == 'U' {
                    let rest = s.substring_char(1, len);
                    assert(rest@ == s@.skip(1));
                    if let Some(n) = parse_hex_u32(rest) {
                        self.advance();

                        if let Some(c) = char_from_u32(n) {
                            return Ok(Some((c, span)));
                        }
                        return Err(ParseErrorKind::CodePoint(CodePointError::Invalid).at(span));
                    }
                }
            }

            Ok(None)
        }
    }

    /// Parses a code point as an expression.
    pub fn parse_code_point_rule(&mut self) -> (res: PResult<Option<Rule>>)
        requires
            old(self)@.wf(),
        ensures
            reaches(old(self)@, final(self)@),
            res is Ok ==> final(self)@.recursion == old(self)@.recursion,
            outcome(res, final(self)@, spec_code_point_rule(old(self)@), |r| opt_rule(r)),
            res matches Ok(Some(_)) ==> advances(old(self)@, final(self)@),
            res matches Ok(None) ==> final(self)@ == old(self)@,
    {
        reveal(spec_code_point_rule);
        if let Some((c, span)) = self.parse_code_point()? {
            Ok(Some(Rule::CharClass(CharClass::new(CharGroup::from_char(c), span))))
        } else {
            Ok(None)
        }
    }

    /// Parses a special character such as `n` (a line feed).
    pub fn parse_special_char(&mut self) -> (res: Option<char>)
        requires
            old(self)@.wf(),
        ensures
            reaches(old(self)@, final(self)@),
            final(self)@.recursion == old(self)@.recursion,
            spec_special_char(old(self)@) == (res, final(self)@),
            res is Some ==> advances(old(self)@, final(self)@),
            res is None ==> final(self)@ == old(self)@,
    {
        reveal(spec_special_char);
        if let Some((Token::Identifier, string)) = self.peek() {
            let c = if str_eq(string, "n") {
                '\n'
            } else if str_eq(string, "r") {
                '\r'
            } else if str_eq(string, "t") {
                '\t'
            } else if str_eq(string, "a") {
                '\u{07}'
            } else if str_eq(string, "e") {
                '\u{1B}'
            } else if str_eq(string, "f") {
                '\u{0C}'
            } else {
                return None;
            };
            self.advance();
            Some(c)
        } else {
            None
        }
    }

    /// Parses a string, code point or special character inside a character set.
    pub fn parse_string_or_char(&mut self) -> (res: PResult<Option<StringOrChar>>)
        requires
            old(self)@.wf(),
        ensures
            reaches(old(self)@, final(self)@),
            res is Ok ==> final(self)@.recursion == old(self)@.recursion,
            outcome(res, final(self)@, spec_string_or_char(old(self)@), |r| opt_string_or_char(r)),
            res matches Ok(Some(_)) ==> advances(old(self)@, final(self)@),
            res matches Ok(None) ==> final(self)@ == old(self)@,
            res matches Ok(Some(StringOrChar::String(s))) ==> s@.len() >= 2,
    {
        reveal(spec_string_or_char);
        proof {
            if old(self)@.offset < old(self)@.tokens.len() {
                lemma_next_token_wf(old(self)@);
            }
        }
        let res = if let Some(s) = self.consume_as(Token::String) {
            StringOrChar::String(s)
        } else if let Some((c, _)) = self.parse_code_point()? {
            StringOrChar::Char(c)
        } else if let Some(c) = self.parse_special_char() {
            StringOrChar::Char(c)
        } else {
            return Ok(None);
        };
        Ok(Some(res))
    }

    /// Parses a string literal or a character range in a char set, e.g. `"axd"`
    /// or `'0'-'7'`.
    pub fn parse_char_group_chars_or_range(&mut self) -> (res: PResult<Option<CharGroup>>)
        requires
            old(self)@.wf(),
        ensures
            reaches(old(self)@, final(self)@),
            res is Ok ==> final(self)@.recursion == old(self)@.recursion,
            outcome(res, final(self)@, spec_char_group_chars_or_range(old(self)@), |g| opt_group(g)),
            res matches Ok(Some(_)) ==> advances(old(self)@, final(self)@),
            res matches Ok(None) ==> final(self)@ == old(self)@,
    {
        reveal(spec_char_group_chars_or_range);
        let span1 = self.span();
        let first = match self.parse_string_or_char()? {
            Some(f) => f,
            None => return Ok(None),
        };

        if self.consume(Token::Dash) {
            let span2 = self.span();
            let last = match self.parse_string_or_char()? {
                Some(l) => l,
                None => {
                    return Err(ParseErrorKind::Expected("code point or character").at(self.span()))
                },
            };

            let first = match first.to_char() {
                Ok(c) => c,
                Err(e) => return Err(e.at(span1)),
            };
            let last = match last.to_char() {
                Ok(c) => c,
                Err(e) => return Err(e.at(span2)),
            };

            match CharGroup::try_from_range(first, last) {
                Some(group) => Ok(Some(group)),
                None => Err(
                    ParseErrorKind::CharClass(CharClassError::DescendingRange(first, last)).at(
                        span1.join(span2),
                    ),
                ),
            }
        } else {
            let group = match first {
                StringOrChar::String(s) => {
                    let text = match parse_quoted_text(s.as_str()) {
                        Ok(t) => t,
                        Err(k) => return Err(k.at(span1)),
                    };
                    CharGroup::from_chars(text.as_str())
                },
                StringOrChar::Char(c) => CharGroup::from_char(c),
            };
            Ok(Some(group))
        }
    }

    /// Parses an identifier or dot in a char set.
    pub fn parse_char_group_ident(&mut self, negative: bool) -> (res: PResult<Option<CharGroup>>)
        requires
            old(self)@.wf(),
        ensures
            reaches(old(self)@, final(self)@),
            res is Ok ==> final(self)@.recursion == old(self)@.recursion,
            outcome(res, final(self)@, spec_char_group_ident(old(self)@, negative), |g| opt_group(g)),
            res matches Ok(Some(_)) ==> advances(old(self)@, final(self)@),
            res matches Ok(None) ==> final(self)@ == old(self)@,
    {
        reveal(spec_char_group_ident);
        if self.consume(Token::Dot) || self.consume(Token::Identifier) {
            let span = self.last_span();

            let (item, warning) = match CharGroup::try_from_group_name(self.last_text(), negative) {
                Ok(r) => r,
                Err(e) => return Err(ParseErrorKind::CharClass(e).at(span)),
            };

            if let Some(warning) = warning {
                self.add_warning(ParseWarningKind::Deprecation(warning).at(span));
            }
            Ok(Some(item))
        } else if let Some(name) = self.consume_as(Token::ReservedName) {
            Err(ParseErrorKind::UnexpectedKeyword(name).at(self.last_span()))
        } else {
            Ok(None)
        }
    }

    /// Parses a char group, i.e. the contents of a char set. This is a sequence
    /// of characters, character classes, character ranges or Unicode properties. Some
    /// of them can be negated.
    ///
    /// This library knows no Unicode property names (scripts, general categories,
    /// blocks): the names it accepts are `w`, `d`, `s`, `h`, `v` and their long forms,
    /// `cp`, `codepoint` and `.`. Any other name, a Unicode property among them, is
    /// refused with `CharClassError::UnknownNamedClass`.
    pub fn parse_char_set_inner(&mut self) -> (res: PResult<CharGroup>)
        requires
            old(self)@.wf(),
        ensures
            reaches(old(self)@, final(self)@),
            res is Ok ==> final(self)@.recursion == old(self)@.recursion,
            outcome(res, final(self)@, spec_char_set_inner(old(self)@), |g: CharGroup| g@),
    {
        reveal(spec_char_set_inner);
        let span_start = self.span();
        let ghost s0 = self@;

        let mut items: Vec<CharGroup> = Vec::new();
        loop
            invariant_except_break
                s0 == old(self)@,
                span_start == s0.span(),
                reaches(s0, self@),
                self@.recursion == s0.recursion,
                items@.len() > 0 ==> s0.offset < self@.offset,
                spec_char_set_items(s0, Seq::empty()) == spec_char_set_items(self@, groups_model(items@)),
            ensures
                s0 == old(self)@,
                span_start == s0.span(),
                reaches(s0, self@),
                self@.recursion == s0.recursion,
                items@.len() > 0 ==> s0.offset < self@.offset,
                spec_char_set_items(s0, Seq::empty()) == Ok::<(Seq<CharGroupModel>, PState), SErr>(
                    (groups_model(items@), self@),
                ),
            decreases self@.remaining(),
        {
            reveal(spec_char_set_inner);
            let ghost it = self@;
            let mut nots_span = self.span();
            let mut nots: usize = 0;
            while self.is(Token::Not)
                invariant
                    reaches(it, self@),
                    self@.recursion == it.recursion,
                    nots as nat + it.offset == self@.offset,
                    count_nots(it, 0, it.span()) == count_nots(self@, nots as nat, nots_span),
                decreases self@.remaining(),
            {
                self.advance();
                nots += 1;
                nots_span = nots_span.join(self.last_span());
            }

            let item = if let Some(group) = self.parse_char_group_chars_or_range()? {
                if nots > 0 {
                    return Err(ParseErrorKind::UnallowedNot.at(nots_span));
                }
                group
            } else if let Some(group) = self.parse_char_group_ident(nots % 2 != 0)? {
                if nots > 1 {
                    return Err(ParseErrorKind::UnallowedMultiNot(nots).at(nots_span));
                }
                group
            } else {
                break;
            };
            let ghost before = items@;
            items.push(item);
            assert(items@.drop_last() =~= before);
        }

        proof {
            lemma_groups_model(items@);
        }
        let ghost all = groups_model(items@);
        let n = items.len();
        if n == 0 {
            return Ok(CharGroup::Items(Vec::new()));
        }
        let mut group = items.remove(0);
        let mut k: usize = 1;
        proof {
            assert(all.take(1).len() == 1);
            assert(groups_model(items@) =~= all.skip(1)) by {
                lemma_groups_model(items@);
            }
        }
        while k < n
            invariant
                1 <= k <= n,
                s0 == old(self)@,
                span_start == s0.span(),
                self@.recursion == s0.recursion,
                n == all.len(),
                all.len() > 0 ==> s0.offset < self@.offset,
                reaches(s0, self@),
                spec_char_set_items(s0, Seq::empty()) == Ok::<(Seq<CharGroupModel>, PState), SErr>(
                    (all, self@),
                ),
                groups_model(items@) =~= all.skip(k as int),
                combine_groups(all.take(k as int)) == Ok::<CharGroupModel, CharClassErrorModel>(group@),
            decreases n - k,
        {
            reveal(spec_char_set_inner);
            proof {
                lemma_groups_model(items@);
            }
            assert(items@.len() > 0);
            let ghost old_items = items@;
            assert(groups_model(old_items)[0] == old_items[0]@);
            let item = items.remove(0);
            assert(item@ == all[k as int]);
            assert(all.take(k + 1).drop_last() =~= all.take(k as int));
            match group.add(item) {
                Ok(()) => {},
                Err(e) => {
                    proof {
                        assert(all.take(k + 1).last() == all[k as int]);
                        assert(combine_groups(all.take(k + 1)) == group_add(group@, all[k as int]));
                        lemma_combine_error_stays(all, k + 1);
                    }
                    return Err(ParseErrorKind::CharClass(e).at(span_start.join(self.last_span())));
                },
            }
            proof {
                lemma_groups_model(items@);
                assert(items@ =~= old_items.skip(1));
                assert forall|i: int| 0 <= i < items@.len() implies groups_model(items@)[i] == all.skip(k + 1)[i] by {
                    lemma_groups_model(old_items);
                    assert(groups_model(old_items)[i + 1] == old_items[i + 1]@);
                    assert(groups_model(old_items)[i + 1] == all.skip(k as int)[i + 1]);
                }
            }
            k = k + 1;
        }
        assert(all.take(n as int) =~= all);
        Ok(group)
    }

    /// Parses a char set, surrounded by `[` `]`. This was previously called a
    /// "char class", but that name is ambiguous and is being phased out.
    ///
    /// This function does _not_ parse exclamation marks in front of a char
    /// class, because negation is handled separately.
    pub fn parse_char_set(&mut self) -> (res: PResult<Option<Rule>>)
        requires
            old(self)@.wf(),
        ensures
            reaches(old(self)@, final(self)@),
            res is Ok ==> final(self)@.recursion == old(self)@.recursion,
            outcome(res, final(self)@, spec_char_set(old(self)@), |r| opt_rule(r)),
            res matches Ok(Some(_)) ==> advances(old(self)@, final(self)@),
            res matches Ok(None) ==> final(self)@ == old(self)@,
    {
        reveal(spec_char_set);
        if self.consume(Token::OpenBracket) {
            let start_span = self.last_span();

            if self.consume(Token::Caret) {
                return Err(
                    ParseErrorKind::CharClass(CharClassError::CaretInGroup).at(self.last_span()),
                );
            }

            let inner = self.parse_char_set_inner()?;

            match self.expect(Token::CloseBracket) {
                Ok(()) => {},
                Err(p) => {
                    return Err(
                        ParseError {
                            kind: ParseErrorKind::Expected(
                                "character class, string, code point, Unicode property or `]`",
                            ),
                            span: p.span,
                        },
                    )
                },
            }
            let span = start_span.join(self.last_span());

            if let CharGroup::Items(v) = &inner {
                if v.len() == 0 {
                    return Err(ParseErrorKind::CharClass(CharClassError::Empty).at(span));
                }
            }

            Ok(Some(Rule::CharClass(CharClass::new(inner, span))))
        } else {
            Ok(None)
        }
    }

    /// Parses a boundary. For start and end, there are two syntaxes: `^`, `$` (new) and
    /// `<%`, `%>` (deprecated). Word boundaries are `%`.
    ///
    /// The deprecated syntax issues a warning.
    ///
    /// This function does _not_ parse negated word boundaries (`!%`), since negation is
    /// handled elsewhere. It also does _not_ parse the `Start` and `End` global variables.
    pub fn parse_boundary(&mut self) -> (res: Option<Rule>)
        requires
            old(self)@.wf(),
        ensures
            reaches(old(self)@, final(self)@),
            final(self)@.recursion == old(self)@.recursion,
            spec_boundary(old(self)@) == (opt_rule(res), final(self)@),
            res is Some ==> advances(old(self)@, final(self)@),
            res is None ==> final(self)@ == old(self)@,
    {
        reveal(spec_boundary);
        let span = self.span();
        let kind = if self.consume(Token::Caret) {
            BoundaryKind::Start
        } else if self.consume(Token::Dollar) {
            BoundaryKind::End
        } else if self.consume(Token::BStart) {
            self.add_warning(
                ParseWarningKind::Deprecation(DeprecationWarning::StartLiteral).at(span),
            );
            BoundaryKind::Start
        } else if self.consume(Token::BEnd) {
            self.add_warning(
                ParseWarningKind::Deprecation(DeprecationWarning::EndLiteral).at(span),
            );
            BoundaryKind::End
        } else if self.consume(Token::BWord) {
            BoundaryKind::Word
        } else {
            return None;
        };
        Some(Rule::Boundary(Boundary::new(kind, span)))
    }

    /// Parses a reference. Supported syntaxes are `::name`, `::3`, `::+3` and `::-3`.
    pub fn parse_reference(&mut self) -> (res: PResult<Option<Rule>>)
        requires
            old(self)@.wf(),
        ensures
            reaches(old(self)@, final(self)@),
            res is Ok ==> final(self)@.recursion == old(self)@.recursion,
            outcome(res, final(self)@, spec_reference(old(self)@), |r| opt_rule(r)),
            res matches Ok(Some(_)) ==> advances(old(self)@, final(self)@),
            res matches Ok(None) ==> final(self)@ == old(self)@,
    {
        reveal(spec_reference);
        if self.consume(Token::DoubleColon) {
            let start_span = self.last_span();

            let target = if self.consume(Token::Plus) {
                let num = self.expect_number(0x7fff_ffff)?;
                ReferenceTarget::Relative(num as i32)
            } else if self.consume(Token::Dash) {
                let num = self.expect_number(0x7fff_ffff)? as i32;
                // negating from positive to negative can't overflow
                ReferenceTarget::Relative(-num)
            } else if let Some(num) = self.consume_number(u32::MAX)? {
                ReferenceTarget::Number(num)
            } else {
                match self.expect_as(Token::Identifier) {
                    Ok(name) => ReferenceTarget::Named(name),
                    Err(p) => {
                        return Err(
                            ParseError {
                                kind: ParseErrorKind::Expected("number of group name"),
                                span: p.span,
                            },
                        )
                    },
                }
            };

            let span = start_span.join(self.last_span());
            Ok(Some(Rule::Reference(Reference::new(target, span))))
        } else {
            Ok(None)
        }
    }

    /// Parses a range of numbers, `range '0'-'255' base 10`.
    pub fn parse_range(&mut self) -> (res: PResult<Option<Rule>>)
        requires
            old(self)@.wf(),
        ensures
            reaches(old(self)@, final(self)@),
            res is Ok ==> final(self)@.recursion == old(self)@.recursion,
            outcome(res, final(self)@, spec_range(old(self)@), |r| opt_rule(r)),
            res matches Ok(Some(_)) ==> advances(old(self)@, final(self)@),
            res matches Ok(None) ==> final(self)@ == old(self)@,
    {
        reveal(spec_range);
        reveal(spec_range_radix);
        if self.consume_reserved("range") {
            let span_start = self.last_span();

            proof {
                if self@.offset < self@.tokens.len() {
                    lemma_next_token_wf(self@);
                }
            }
            let first = self.expect_as(Token::String)?;
            let span_1 = self.last_span();
            self.expect(Token::Dash)?;
            proof {
                if self@.offset < self@.tokens.len() {
                    lemma_next_token_wf(self@);
                }
            }
            let second = self.expect_as(Token::String)?;
            let span_2 = self.last_span();

            let radix = if self.consume_reserved("base") {
                let n = self.expect_number(255)?;
                let span = self.last_span();
                if n > 36 {
                    return Err(ParseErrorKind::Number(NumberError::TooLarge).at(span));
                } else if n < 2 {
                    return Err(ParseErrorKind::Number(NumberError::TooSmall).at(span));
                }
                n as u8
            } else {
                10u8
            };

            let span = span_start.join(self.last_span());

            let start = match parse_number(strip_first_last(first.as_str()), radix) {
                Ok(d) => d,
                Err(k) => return Err(ParseErrorKind::Number(k).at(span_1)),
            };
            let end = match parse_number(strip_first_last(second.as_str()), radix) {
                Ok(d) => d,
                Err(k) => return Err(ParseErrorKind::Number(k).at(span_2)),
            };

            if start.len() > end.len() || (start.len() == end.len() && digits_greater(&start, &end)) {
                return Err(ParseErrorKind::RangeIsNotIncreasing.at(span_1.join(span_2)));
            }

            Ok(Some(Rule::Range(Range::new(start, end, radix, span))))
        } else {
            Ok(None)
        }
    }

    /// Parses an unescaped regex expression (`regex "[test]"`).
    pub fn parse_regex(&mut self) -> (res: PResult<Option<Rule>>)
        requires
            old(self)@.wf(),
        ensures
            reaches(old(self)@, final(self)@),
            res is Ok ==> final(self)@.recursion == old(self)@.recursion,
            outcome(res, final(self)@, spec_regex(old(self)@), |r| opt_rule(r)),
            res matches Ok(Some(_)) ==> advances(old(self)@, final(self)@),
            res matches Ok(None) ==> final(self)@ == old(self)@,
    {
        reveal(spec_regex);
        if self.consume_reserved("regex") {
            let span_start = self.last_span();
            proof {
                if self@.offset < self@.tokens.len() {
                    lemma_next_token_wf(self@);
                }
            }
            let lit = self.expect_as(Token::String)?;
            let span_end = self.last_span();

            let content = match parse_quoted_text(lit.as_str()) {
                Ok(c) => c,
                Err(k) => return Err(k.at(span_end)),
            };

            let span = span_start.join(span_end);
            Ok(Some(Rule::Regex(Regex::new(content, span))))
        } else {
            Ok(None)
        }
    }

    /// Parses a variable (usage site).
    pub fn parse_variable(&mut self) -> (res: Option<Rule>)
        requires
            old(self)@.wf(),
        ensures
            reaches(old(self)@, final(self)@),
            final(self)@.recursion == old(self)@.recursion,
            spec_variable(old(self)@) == (opt_rule(res), final(self)@),
            res is Some ==> advances(old(self)@, final(self)@),
            res is None ==> final(self)@ == old(self)@,
    {
        reveal(spec_variable);
        match self.consume_as(Token::Identifier) {
            Some(ident) => Some(Rule::Variable(Variable::new(ident.as_str(), self.last_span()))),
            None => None,
        }
    }

    /// Parses the dot.
    pub fn parse_dot(&mut self) -> (res: Option<Rule>)
        requires
            old(self)@.wf(),
        ensures
            reaches(old(self)@, final(self)@),
            final(self)@.recursion == old(self)@.recursion,
            spec_dot(old(self)@) == (opt_rule(res), final(self)@),
            res is Some ==> advances(old(self)@, final(self)@),
            res is None ==> final(self)@ == old(self)@,
    {
        reveal(spec_dot);
        if self.consume(Token::Dot) {
            Some(Rule::CharClass(CharClass::new(CharGroup::Dot, self.last_span())))
        } else {
            None
        }
    }
}

} // verus!
