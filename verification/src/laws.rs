use vstd::prelude::*;

use crate::compiler_error::{feature_name, Feature};
use crate::error::{CharClassErrorModel, ParseErrorKindModel};
use crate::char_group::{group_from_name, named_class};
use crate::exprs::{
    BooleanSetting, BoundaryKind, CharGroupModel, GroupItem, GroupName, LookaroundKind, Quantifier,
    ReferenceTargetModel, RepetitionKind, RuleModel, StmtModel,
};
use crate::warning::{DeprecationWarning, ParseWarning, ParseWarningKind};
use crate::error::error_at;
use crate::exprs::{alternation_model, GroupKindModel};
use crate::grammar::{
    advances, combine_groups, first_duplicate_let, spec_char_set_inner, spec_char_set_item,
    spec_char_set_items, let_name, reaches, spec_char_set, spec_fixes, spec_modified,
    spec_or, spec_or_rest, spec_range, spec_range_radix, spec_repetition, spec_repetition_braces,
    spec_sequence, spec_sequence_items, spec_stmts, wrap_stmts, special_char, spec_group,
    spec_group_kind, spec_lookaround, spec_mode_modifier, spec_special_char, spec_boundary,
    spec_code_point, spec_reference,
};
use crate::span::span_join;
use crate::token::Token;
use crate::helper::{quoted_text, unescape_from, decimal_value, digits_in_radix, hex_u32, lex_greater, number_digits};
use crate::parser::{PState, SErr};
use crate::span::Span;
use vstd::arithmetic::power::{lemma_pow_increases, lemma_pow_positive, pow};

verus! {

/// Negation cannot be repeated: whatever one `!` gives, a second `!` refuses.
pub proof fn lemma_negation_not_repeatable(r: RuleModel)
    ensures
        r.negated() matches Ok(r2) ==> r2.negated() == Err::<RuleModel, ParseErrorKindModel>(
            ParseErrorKindModel::UnallowedDoubleNot,
        ),
{
}

/// A repetition never has an upper bound below its lower bound.
pub proof fn lemma_repetition_ascending(st: PState)
    ensures
        spec_repetition_braces(st) matches Ok((Some(k), _)) ==> (k.upper_bound matches Some(u)
            ==> k.lower_bound <= u),
        spec_repetition(st) matches Ok((Some((k, _, _)), _)) ==> (k.upper_bound matches Some(u)
            ==> k.lower_bound <= u),
{
    reveal(spec_repetition_braces);
    reveal(spec_repetition);
}

/// A character set that parses is never empty.
pub proof fn lemma_char_set_not_empty(st: PState)
    ensures
        spec_char_set(st) matches Ok((Some(RuleModel::CharClass { inner, .. }), _)) ==> !(
        inner matches CharGroupModel::Items(v) && v.len() == 0),
{
    reveal(spec_char_set);
}

/// Digits that parse in a radix are as many as the characters, and each is below the
/// radix.
pub proof fn lemma_digits_below_radix(s: Seq<char>, radix: u8)
    ensures
        digits_in_radix(s, radix) matches Ok(d) ==> d.len() == s.len() && forall|i: int|
            0 <= i < d.len() ==> #[trigger] d[i] < radix,
    decreases s.len(),
{
    if s.len() > 0 {
        lemma_digits_below_radix(s.drop_last(), radix);
    }
}

/// A range that parses has a radix from 2 to 36, two ends of at least one digit each, no
/// digit at or above the radix, no leading zero, and a start that is not greater than its
/// end: shorter, or as long and not after it in lexicographic order.
pub proof fn lemma_range_well_formed(st: PState)
    ensures
        spec_range(st) matches Ok((Some(RuleModel::Range { start, end, radix, .. }), _)) ==> {
            &&& 2 <= radix <= 36
            &&& start.len() >= 1 && end.len() >= 1
            &&& forall|i: int| 0 <= i < start.len() ==> #[trigger] start[i] < radix
            &&& forall|i: int| 0 <= i < end.len() ==> #[trigger] end[i] < radix
            &&& (start.len() > 1 ==> start[0] != 0)
            &&& (end.len() > 1 ==> end[0] != 0)
            &&& (start.len() < end.len() || (start.len() == end.len() && !lex_greater(start, end)))
        },
{
    reveal(spec_range);
    reveal(spec_range_radix);
    if let Ok((Some(RuleModel::Range { start, end, radix, .. }), s)) = spec_range(st) {
        let s1 = st.advance();
        let (first, s2) = s1.expect_as(crate::token::Token::String)->Ok_0;
        let (second, s4) = s2.expect(crate::token::Token::Dash)->Ok_0.expect_as(
            crate::token::Token::String,
        )->Ok_0;
        let r = spec_range_radix(s4)->Ok_0.0;
        lemma_digits_below_radix(first.subrange(1, first.len() - 1), r);
        lemma_digits_below_radix(second.subrange(1, second.len() - 1), r);
    }
}

/// The number that a sequence of digits writes in a radix, most significant digit first.
pub open spec fn digits_value(d: Seq<u8>, radix: int) -> int
    decreases d.len(),
{
    if d.len() == 0 {
        0
    } else {
        d[0] * pow(radix, (d.len() - 1) as nat) + digits_value(d.skip(1), radix)
    }
}

proof fn lemma_value_below_power(d: Seq<u8>, radix: int)
    requires
        radix >= 2,
        forall|i: int| 0 <= i < d.len() ==> #[trigger] d[i] < radix,
    ensures
        0 <= digits_value(d, radix) < pow(radix, d.len()),
    decreases d.len(),
{
    reveal(pow);
    if d.len() > 0 {
        let t = d.skip(1);
        assert forall|i: int| 0 <= i < t.len() implies #[trigger] t[i] < radix by {
            assert(t[i] == d[i + 1]);
        }
        lemma_value_below_power(t, radix);
        let p = pow(radix, (d.len() - 1) as nat);
        lemma_pow_positive(radix, (d.len() - 1) as nat);
        assert(pow(radix, d.len()) == radix * p);
        assert(d[0] < radix);
        assert(d[0] * p + p <= radix * p) by (nonlinear_arith)
            requires d[0] + 1 <= radix, p > 0;
        assert(0 <= d[0] * p) by (nonlinear_arith)
            requires d[0] >= 0, p > 0;
    }
}

proof fn lemma_value_at_least_lead(d: Seq<u8>, radix: int)
    requires
        radix >= 2,
        d.len() >= 1,
        d[0] >= 1,
    ensures
        digits_value(d, radix) >= pow(radix, (d.len() - 1) as nat),
{
    let p = pow(radix, (d.len() - 1) as nat);
    lemma_pow_positive(radix, (d.len() - 1) as nat);
    assert(d[0] * p >= p) by (nonlinear_arith)
        requires d[0] >= 1, p > 0;
    lemma_value_nonnegative(d.skip(1), radix);
}

proof fn lemma_value_nonnegative(d: Seq<u8>, radix: int)
    requires
        radix >= 2,
    ensures
        digits_value(d, radix) >= 0,
    decreases d.len(),
{
    if d.len() > 0 {
        lemma_value_nonnegative(d.skip(1), radix);
        let p = pow(radix, (d.len() - 1) as nat);
        lemma_pow_positive(radix, (d.len() - 1) as nat);
        assert(0 <= d[0] * p) by (nonlinear_arith)
            requires d[0] >= 0, p > 0;
    }
}

proof fn lemma_value_lex_order(a: Seq<u8>, b: Seq<u8>, radix: int)
    requires
        radix >= 2,
        a.len() == b.len(),
        forall|i: int| 0 <= i < a.len() ==> #[trigger] a[i] < radix,
        forall|i: int| 0 <= i < b.len() ==> #[trigger] b[i] < radix,
        !lex_greater(a, b),
    ensures
        digits_value(a, radix) <= digits_value(b, radix),
    decreases a.len(),
{
    if a.len() > 0 {
        let (ta, tb) = (a.skip(1), b.skip(1));
        assert forall|i: int| 0 <= i < ta.len() implies #[trigger] ta[i] < radix by {
            assert(ta[i] == a[i + 1]);
        }
        assert forall|i: int| 0 <= i < tb.len() implies #[trigger] tb[i] < radix by {
            assert(tb[i] == b[i + 1]);
        }
        let p = pow(radix, (a.len() - 1) as nat);
        lemma_pow_positive(radix, (a.len() - 1) as nat);
        if a[0] == b[0] {
            lemma_value_lex_order(ta, tb, radix);
        } else {
            assert(a[0] < b[0]);
            lemma_value_below_power(ta, radix);
            lemma_value_nonnegative(tb, radix);
            assert(a[0] * p + p <= b[0] * p) by (nonlinear_arith)
                requires a[0] + 1 <= b[0], p > 0;
        }
    }
}

/// The start of a range that parses is not greater than its end, taken as numbers in the
/// range's radix.
pub proof fn lemma_range_ascending(st: PState)
    ensures
        spec_range(st) matches Ok((Some(RuleModel::Range { start, end, radix, .. }), _))
            ==> digits_value(start, radix as int) <= digits_value(end, radix as int),
{
    lemma_range_well_formed(st);
    if let Ok((Some(RuleModel::Range { start, end, radix, .. }), _)) = spec_range(st) {
        let r = radix as int;
        if start.len() < end.len() {
            lemma_value_below_power(start, r);
            lemma_value_at_least_lead(end, r);
            lemma_pow_increases(r as nat, start.len(), (end.len() - 1) as nat);
        } else {
            lemma_value_lex_order(start, end, r);
        }
    }
}

/// The `let` bindings of a list of statements have pairwise different names.
pub open spec fn lets_distinct(stmts: Seq<(StmtModel, Span)>) -> bool {
    forall|i: int, j: int|
        0 <= i < j < stmts.len() && #[trigger] let_name(stmts[i].0) is Some ==> #[trigger] let_name(
            stmts[j].0,
        ) != let_name(stmts[i].0)
}

proof fn lemma_no_duplicate_from(stmts: Seq<(StmtModel, Span)>, i: int)
    requires
        0 <= i,
        first_duplicate_let(stmts, i) is None,
    ensures
        forall|k: int, j: int|
            0 <= k < j < stmts.len() && i <= j && #[trigger] let_name(stmts[k].0) is Some
                ==> #[trigger] let_name(stmts[j].0) != let_name(stmts[k].0),
    decreases stmts.len() - i,
{
    if i < stmts.len() {
        lemma_no_duplicate_from(stmts, i + 1);
        assert forall|k: int| 0 <= k < i && #[trigger] let_name(stmts[k].0) is Some implies let_name(
            stmts[i].0,
        ) != let_name(stmts[k].0) by {
            if let_name(stmts[i].0) == let_name(stmts[k].0) {
                assert(let_name(stmts[k].0) == Some(let_name(stmts[i].0)->0));
            }
        }
    }
}

/// The names that `let` binds in one scope differ: what `parse_modified` gives is the
/// statements it read, wrapped around an expression, and no two of their `let` bindings
/// share a name.
pub proof fn lemma_let_names_distinct(st: PState)
    ensures
        spec_modified(st) matches Ok((r, _)) ==> (spec_stmts(st, Seq::empty()) matches Ok(
            (stmts, _),
        ) && lets_distinct(stmts) && exists|rule: RuleModel|
            r == wrap_stmts(stmts, rule, #[trigger] rule.span())),
{
    if let Ok((r, _)) = spec_modified(st) {
        let (stmts, s1) = spec_stmts(st, Seq::empty())->Ok_0;
        if stmts.len() > 1 {
            lemma_no_duplicate_from(stmts, 0);
        }
        let s2 = s1.recursion_start()->Ok_0;
        let rule = crate::grammar::spec_or(s2)->Ok_0.0;
        assert(r == wrap_stmts(stmts, rule, rule.span()));
    }
}

/// Each feature has a name of its own.
pub proof fn lemma_feature_names_distinct(a: Feature, b: Feature)
    ensures
        a != b ==> feature_name(a) != feature_name(b),
{
    reveal_strlit("named capture groups");
    reveal_strlit("lookahead/behind");
    reveal_strlit("grapheme cluster matcher (\\X)");
    reveal_strlit("Unicode line break (\\R)");
    reveal_strlit("Backreference");
    reveal_strlit("Forward reference");
    reveal_strlit("Relative backreference");
    reveal_strlit("Non-negative relative backreference");
    assert(feature_name(a).len() != feature_name(b).len() || a == b);
}

/// What a sequence of expressions gives: nothing for none, the expression itself for one,
/// and an implicit group of them all, in source order, for several.
pub open spec fn sequence_of(fixes: Seq<RuleModel>) -> Option<RuleModel> {
    if fixes.len() == 0 {
        None
    } else if fixes.len() == 1 {
        Some(fixes[0])
    } else {
        Some(
            RuleModel::Group {
                parts: fixes,
                kind: GroupKindModel::Implicit,
                span: span_join(fixes[0].span(), fixes.last().span()),
            },
        )
    }
}

proof fn lemma_sequence_items_from(states: Seq<PState>, fixes: Seq<RuleModel>, j: int)
    requires
        states.len() == fixes.len() + 1,
        0 <= j <= fixes.len(),
        forall|i: int|
            0 <= i < fixes.len() ==> spec_fixes(#[trigger] states[i]) == Ok::<
                (Option<RuleModel>, PState),
                SErr,
            >((Some(fixes[i]), states[i + 1])) && advances(states[i], states[i + 1]),
        spec_fixes(states.last()) is Ok,
        spec_fixes(states.last())->Ok_0.0 is None,
    ensures
        spec_sequence_items(states[j], fixes.take(j)) == Ok::<(Seq<RuleModel>, PState), SErr>(
            (fixes, spec_fixes(states.last())->Ok_0.1),
        ),
    decreases fixes.len() - j,
{
    if j == fixes.len() {
        assert(fixes.take(j) =~= fixes);
    } else {
        assert(fixes.take(j).push(fixes[j]) =~= fixes.take(j + 1));
        lemma_sequence_items_from(states, fixes, j + 1);
    }
}

/// Expressions read one after another, up to a token that starts none, form one
/// sequence in source order: none gives nothing, one gives that expression, several give
/// an implicit group from the first to the last.
pub proof fn lemma_sequence_in_order(states: Seq<PState>, fixes: Seq<RuleModel>)
    requires
        states.len() == fixes.len() + 1,
        forall|i: int|
            0 <= i < fixes.len() ==> spec_fixes(#[trigger] states[i]) == Ok::<
                (Option<RuleModel>, PState),
                SErr,
            >((Some(fixes[i]), states[i + 1])) && advances(states[i], states[i + 1]),
        spec_fixes(states.last()) is Ok,
        spec_fixes(states.last())->Ok_0.0 is None,
    ensures
        spec_sequence(states[0]) == Ok::<(Option<RuleModel>, PState), SErr>(
            (sequence_of(fixes), spec_fixes(states.last())->Ok_0.1),
        ),
{
    lemma_sequence_items_from(states, fixes, 0);
    assert(fixes.take(0) =~= Seq::<RuleModel>::empty());
}

proof fn lemma_or_rest_from(starts: Seq<PState>, ends: Seq<PState>, alts: Seq<RuleModel>, j: int)
    requires
        alts.len() >= 1,
        starts.len() == alts.len(),
        ends.len() == alts.len(),
        0 <= j < alts.len(),
        forall|i: int|
            0 <= i < alts.len() ==> spec_sequence(#[trigger] starts[i]) == Ok::<
                (Option<RuleModel>, PState),
                SErr,
            >((Some(alts[i]), ends[i])) && reaches(starts[i], ends[i]),
        forall|i: int|
            0 <= i < alts.len() - 1 ==> (#[trigger] ends[i]).is(Token::Pipe) && starts[i + 1]
                == ends[i].advance(),
        !ends.last().is(Token::Pipe),
    ensures
        spec_or_rest(ends[j], alts.take(j + 1)) == Ok::<(RuleModel, PState), SErr>(
            (if alts.len() == 1 { alts[0] } else { alternation_model(alts) }, ends.last()),
        ),
    decreases alts.len() - j,
{
    if j == alts.len() - 1 {
        assert(alts.take(j + 1) =~= alts);
    } else {
        assert(ends[j].is(Token::Pipe));
        assert(starts[j + 1] == ends[j].advance());
        assert(spec_sequence(starts[j + 1]) == Ok::<(Option<RuleModel>, PState), SErr>(
            (Some(alts[j + 1]), ends[j + 1]),
        ));
        assert(alts.take(j + 1).push(alts[j + 1]) =~= alts.take(j + 2));
        lemma_or_rest_from(starts, ends, alts, j + 1);
    }
}

/// Alternatives separated by single `|`, after an optional leading `|` and up to a
/// token that is no `|`, form one alternation in source order; a single alternative is
/// given as it is.
pub proof fn lemma_alternatives_in_order(
    st: PState,
    starts: Seq<PState>,
    ends: Seq<PState>,
    alts: Seq<RuleModel>,
)
    requires
        alts.len() >= 1,
        starts.len() == alts.len(),
        ends.len() == alts.len(),
        starts[0] == (if st.is(Token::Pipe) { st.advance() } else { st }),
        reaches(st, ends[0]),
        forall|i: int|
            0 <= i < alts.len() ==> spec_sequence(#[trigger] starts[i]) == Ok::<
                (Option<RuleModel>, PState),
                SErr,
            >((Some(alts[i]), ends[i])) && reaches(starts[i], ends[i]),
        forall|i: int|
            0 <= i < alts.len() - 1 ==> (#[trigger] ends[i]).is(Token::Pipe) && starts[i + 1]
                == ends[i].advance(),
        !ends.last().is(Token::Pipe),
    ensures
        spec_or(st) == Ok::<(RuleModel, PState), SErr>(
            (if alts.len() == 1 { alts[0] } else { alternation_model(alts) }, ends.last()),
        ),
{
    assert(spec_sequence(starts[0]) == Ok::<(Option<RuleModel>, PState), SErr>(
        (Some(alts[0]), ends[0]),
    ));
    lemma_or_rest_from(starts, ends, alts, 0);
    assert(alts.take(1) =~= seq![alts[0]]);
}

/// Without any alternative, a leading `|` alone is an error at that `|`, and nothing at
/// all gives the empty alternation.
pub proof fn lemma_no_alternative(st: PState)
    requires
        spec_sequence(if st.is(Token::Pipe) { st.advance() } else { st }) is Ok,
        spec_sequence(if st.is(Token::Pipe) { st.advance() } else { st })->Ok_0.0 is None,
    ensures
        spec_or(st) == (if st.is(Token::Pipe) {
            Err::<(RuleModel, PState), SErr>(
                (
                    error_at(ParseErrorKindModel::LonePipe, st.span()),
                    spec_sequence(st.advance())->Ok_0.1,
                ),
            )
        } else {
            Ok((
                alternation_model(Seq::empty()),
                spec_sequence(st)->Ok_0.1,
            ))
        }),
{
}

/// Statement `j` is a `let` whose name an earlier `let` already binds.
pub open spec fn repeats_name(stmts: Seq<(StmtModel, Span)>, j: int) -> bool {
    &&& 0 <= j < stmts.len()
    &&& let_name(stmts[j].0) is Some
    &&& exists|i: int| 0 <= i < j && #[trigger] let_name(stmts[i].0) == let_name(stmts[j].0)
}

/// Statement `j` is the first that repeats a name.
pub open spec fn first_repeat(stmts: Seq<(StmtModel, Span)>, j: int) -> bool {
    repeats_name(stmts, j) && forall|k: int| 0 <= k < j ==> !#[trigger] repeats_name(stmts, k)
}

proof fn lemma_first_duplicate_from(stmts: Seq<(StmtModel, Span)>, i: int)
    requires
        0 <= i,
        forall|k: int| 0 <= k < i ==> !#[trigger] repeats_name(stmts, k),
    ensures
        first_duplicate_let(stmts, i) matches Some(sp) ==> exists|j: int|
            first_repeat(stmts, j) && sp == (#[trigger] stmts[j].0)->Let_name_span,
        first_duplicate_let(stmts, i) is None ==> forall|j: int|
            0 <= j < stmts.len() ==> !#[trigger] repeats_name(stmts, j),
    decreases stmts.len() - i,
{
    if i < stmts.len() {
        match stmts[i].0 {
            StmtModel::Let { name, name_span, .. } => {
                if exists|j: int| 0 <= j < i && #[trigger] let_name(stmts[j].0) == Some(name) {
                    assert(repeats_name(stmts, i));
                    assert(first_repeat(stmts, i));
                } else {
                    assert forall|j: int| 0 <= j < i + 1 implies !#[trigger] repeats_name(
                        stmts,
                        j,
                    ) by {
                        if j == i && repeats_name(stmts, i) {
                            let w = choose|w: int| 0 <= w < i && #[trigger] let_name(stmts[w].0)
                                == let_name(stmts[i].0);
                            assert(let_name(stmts[w].0) == Some(name));
                        }
                    }
                    lemma_first_duplicate_from(stmts, i + 1);
                }
            },
            _ => {
                assert(!repeats_name(stmts, i));
                assert forall|j: int| 0 <= j < i + 1 implies !#[trigger] repeats_name(stmts, j) by {
                    if j == i {
                        assert(!repeats_name(stmts, i));
                    }
                }
                lemma_first_duplicate_from(stmts, i + 1);
            },
        }
    } else {
        assert forall|j: int| 0 <= j < stmts.len() implies !#[trigger] repeats_name(stmts, j) by {
            assert(j < i);
        }
    }
}

/// Statements put in front of a rule nest in source order: the first statement is the
/// outermost, and its span reaches to the end of the rule.
pub proof fn lemma_statements_outermost_first(
    stmts: Seq<(StmtModel, Span)>,
    rule: RuleModel,
    span_end: Span,
)
    requires
        stmts.len() >= 1,
    ensures
        wrap_stmts(stmts, rule, span_end) == (RuleModel::StmtExpr {
            stmt: Box::new(stmts[0].0),
            rule: Box::new(wrap_stmts(stmts.skip(1), rule, span_end)),
            span: span_join(stmts[0].1, span_end),
        }),
    decreases stmts.len(),
{
    if stmts.len() > 1 {
        let (stmt, span) = stmts.last();
        let inner = RuleModel::StmtExpr {
            stmt: Box::new(stmt),
            rule: Box::new(rule),
            span: span_join(span, span_end),
        };
        lemma_statements_outermost_first(stmts.drop_last(), inner, span_end);
        assert(stmts.drop_last().skip(1) =~= stmts.skip(1).drop_last());
        assert(stmts.skip(1).last() == stmts.last());
        assert(stmts.drop_last()[0] == stmts[0]);
        assert(wrap_stmts(stmts.skip(1), rule, span_end) == wrap_stmts(
            stmts.skip(1).drop_last(),
            inner,
            span_end,
        ));
        assert(wrap_stmts(stmts, rule, span_end) == wrap_stmts(stmts.drop_last(), inner, span_end));
    } else {
        assert(stmts.skip(1) =~= Seq::<(StmtModel, Span)>::empty());
        assert(stmts.drop_last() =~= Seq::<(StmtModel, Span)>::empty());
        let (stmt, span) = stmts.last();
        let inner = RuleModel::StmtExpr {
            stmt: Box::new(stmt),
            rule: Box::new(rule),
            span: span_join(span, span_end),
        };
        assert(wrap_stmts(stmts.drop_last(), inner, span_end) == inner);
        assert(wrap_stmts(stmts.skip(1), rule, span_end) == rule);
    }
}

/// Statements and the expression after them, when each parses: if two `let` bindings
/// share a name, the result is the error `LetBindingExists` at the name of the first
/// binding that repeats an earlier name; otherwise the statements wrap the expression,
/// the first outermost, each spanning to the end of the expression.
pub proof fn lemma_statements_checked_and_wrapped(st: PState)
    requires
        spec_stmts(st, Seq::empty()) is Ok,
        reaches(st, spec_stmts(st, Seq::empty())->Ok_0.1),
        spec_stmts(st, Seq::empty())->Ok_0.1.recursion_start() is Ok,
        crate::grammar::spec_or(spec_stmts(st, Seq::empty())->Ok_0.1.recursion_start()->Ok_0) is Ok,
    ensures
        ({
            let stmts = spec_stmts(st, Seq::empty())->Ok_0.0;
            let (rule, s3) = crate::grammar::spec_or(
                spec_stmts(st, Seq::empty())->Ok_0.1.recursion_start()->Ok_0,
            )->Ok_0;
            &&& !lets_distinct(stmts) ==> exists|j: int|
                first_repeat(stmts, j) && spec_modified(st) == Err::<(RuleModel, PState), SErr>(
                    (
                        error_at(
                            ParseErrorKindModel::LetBindingExists,
                            (#[trigger] stmts[j].0)->Let_name_span,
                        ),
                        s3.recursion_end(),
                    ),
                )
            &&& lets_distinct(stmts) ==> spec_modified(st) == Ok::<(RuleModel, PState), SErr>(
                (wrap_stmts(stmts, rule, rule.span()), s3.recursion_end()),
            )
        }),
{
    let stmts = spec_stmts(st, Seq::empty())->Ok_0.0;
    lemma_first_duplicate_from(stmts, 0);
    if first_duplicate_let(stmts, 0) is None {
        assert(lets_distinct(stmts)) by {
            assert forall|i: int, j: int|
                0 <= i < j < stmts.len() && #[trigger] let_name(stmts[i].0) is Some implies #[trigger] let_name(
                stmts[j].0,
            ) != let_name(stmts[i].0) by {
                if let_name(stmts[j].0) == let_name(stmts[i].0) {
                    assert(repeats_name(stmts, j));
                }
            }
        }
    } else {
        let j = choose|j: int| first_repeat(stmts, j) && first_duplicate_let(stmts, 0)->0 == (
        #[trigger] stmts[j].0)->Let_name_span;
        assert(stmts.len() > 1) by {
            let i = choose|i: int| 0 <= i < j && #[trigger] let_name(stmts[i].0) == let_name(stmts[j].0);
        }
        assert(!lets_distinct(stmts)) by {
            let i = choose|i: int| 0 <= i < j && #[trigger] let_name(stmts[i].0) == let_name(stmts[j].0);
            assert(let_name(stmts[i].0) is Some);
        }
    }
}

proof fn lemma_char_set_items_from(states: Seq<PState>, groups: Seq<CharGroupModel>, j: int)
    requires
        states.len() == groups.len() + 1,
        0 <= j <= groups.len(),
        forall|i: int|
            0 <= i < groups.len() ==> spec_char_set_item(#[trigger] states[i]) == Ok::<
                (Option<CharGroupModel>, PState),
                SErr,
            >((Some(groups[i]), states[i + 1])) && advances(states[i], states[i + 1]),
        spec_char_set_item(states.last()) is Ok,
        spec_char_set_item(states.last())->Ok_0.0 is None,
    ensures
        spec_char_set_items(states[j], groups.take(j)) == Ok::<
            (Seq<CharGroupModel>, PState),
            SErr,
        >((groups, spec_char_set_item(states.last())->Ok_0.1)),
    decreases groups.len() - j,
{
    if j == groups.len() {
        assert(groups.take(j) =~= groups);
    } else {
        assert(groups.take(j).push(groups[j]) =~= groups.take(j + 1));
        lemma_char_set_items_from(states, groups, j + 1);
    }
}

/// The items of a character set, read up to a token that starts none, combine in source
/// order: the first, with each of the others added to it in turn; where an addition
/// fails, its error is the result, spanning the whole contents.
pub proof fn lemma_char_set_items_in_order(states: Seq<PState>, groups: Seq<CharGroupModel>)
    requires
        states.len() == groups.len() + 1,
        forall|i: int|
            0 <= i < groups.len() ==> spec_char_set_item(#[trigger] states[i]) == Ok::<
                (Option<CharGroupModel>, PState),
                SErr,
            >((Some(groups[i]), states[i + 1])) && advances(states[i], states[i + 1]),
        spec_char_set_item(states.last()) is Ok,
        spec_char_set_item(states.last())->Ok_0.0 is None,
    ensures
        ({
            let end = spec_char_set_item(states.last())->Ok_0.1;
            spec_char_set_inner(states[0]) == match combine_groups(groups) {
                Ok(g) => Ok::<(CharGroupModel, PState), SErr>((g, end)),
                Err(e) => Err(
                    (
                        error_at(
                            ParseErrorKindModel::CharClass(e),
                            span_join(states[0].span(), end.last_span()),
                        ),
                        end,
                    ),
                ),
            }
        }),
{
    reveal(spec_char_set_inner);
    lemma_char_set_items_from(states, groups, 0);
    assert(groups.take(0) =~= Seq::<CharGroupModel>::empty());
}

proof fn lemma_value_lex_greater(a: Seq<u8>, b: Seq<u8>, radix: int)
    requires
        radix >= 2,
        a.len() == b.len(),
        forall|i: int| 0 <= i < a.len() ==> #[trigger] a[i] < radix,
        forall|i: int| 0 <= i < b.len() ==> #[trigger] b[i] < radix,
        lex_greater(a, b),
    ensures
        digits_value(a, radix) > digits_value(b, radix),
    decreases a.len(),
{
    let (ta, tb) = (a.skip(1), b.skip(1));
    assert forall|i: int| 0 <= i < ta.len() implies #[trigger] ta[i] < radix by {
        assert(ta[i] == a[i + 1]);
    }
    assert forall|i: int| 0 <= i < tb.len() implies #[trigger] tb[i] < radix by {
        assert(tb[i] == b[i + 1]);
    }
    let p = pow(radix, (a.len() - 1) as nat);
    lemma_pow_positive(radix, (a.len() - 1) as nat);
    if a[0] == b[0] {
        lemma_value_lex_greater(ta, tb, radix);
    } else {
        assert(a[0] > b[0]);
        lemma_value_below_power(tb, radix);
        lemma_value_nonnegative(ta, radix);
        assert(b[0] * p + p <= a[0] * p) by (nonlinear_arith)
            requires b[0] + 1 <= a[0], p > 0;
    }
}

/// Range parsing is complete: after `range`, two strings with a `-` between them and a
/// valid base, ends that are numbers in that base with the start not above the end give
/// the range, from `range` to the last token read.
pub proof fn lemma_range_complete(st: PState, start: Seq<u8>, end: Seq<u8>)
    requires
        st.is_reserved("range"@),
        st.advance().is(Token::String),
        st.advance().advance().is(Token::Dash),
        st.advance().advance().advance().is(Token::String),
        spec_range_radix(st.advance().advance().advance().advance()) is Ok,
        ({
            let first = st.advance().text();
            let second = st.advance().advance().advance().text();
            let radix = spec_range_radix(st.advance().advance().advance().advance())->Ok_0.0;
            &&& number_digits(first.subrange(1, first.len() - 1), radix) == Ok::<
                Seq<u8>,
                crate::error::NumberError,
            >(start)
            &&& number_digits(second.subrange(1, second.len() - 1), radix) == Ok::<
                Seq<u8>,
                crate::error::NumberError,
            >(end)
            &&& digits_value(start, radix as int) <= digits_value(end, radix as int)
        }),
    ensures
        ({
            let (radix, s5) = spec_range_radix(st.advance().advance().advance().advance())->Ok_0;
            spec_range(st) == Ok::<(Option<RuleModel>, PState), SErr>(
                (
                    Some(
                        RuleModel::Range {
                            start,
                            end,
                            radix,
                            span: span_join(st.advance().last_span(), s5.last_span()),
                        },
                    ),
                    s5,
                ),
            )
        }),
{
    reveal(spec_range);
    reveal(spec_range_radix);
    let s4 = st.advance().advance().advance().advance();
    let first = st.advance().text();
    let second = st.advance().advance().advance().text();
    let radix = spec_range_radix(s4)->Ok_0.0;
    let r = radix as int;
    assert(2 <= radix <= 36);
    lemma_digits_below_radix(first.subrange(1, first.len() - 1), radix);
    lemma_digits_below_radix(second.subrange(1, second.len() - 1), radix);
    if start.len() > end.len() {
        lemma_value_below_power(end, r);
        lemma_value_at_least_lead(start, r);
        lemma_pow_increases(r as nat, end.len(), (start.len() - 1) as nat);
        assert(false);
    }
    if start.len() == end.len() && lex_greater(start, end) {
        lemma_value_lex_greater(start, end, r);
        assert(false);
    }
}

/// A mode modifier gives the statement its keyword names: `enable` gives
/// `Enable(Lazy)` and `disable` gives `Disable(Lazy)`, and `enable lazy;` and
/// `disable lazy;` are each read whole, spanning from the keyword to the `;`.
pub proof fn lemma_mode_modifier_keyword(st: PState)
    ensures
        spec_mode_modifier(st) matches Ok((Some((stmt, _)), _)) ==> ((stmt == StmtModel::Enable(
            BooleanSetting::Lazy,
        ) <==> st.is_reserved("enable"@)) && (stmt == StmtModel::Disable(BooleanSetting::Lazy)
            <==> st.is_reserved("disable"@))),
        st.is_reserved("enable"@) && st.advance().is_reserved("lazy"@) && st.advance().advance().is(
            Token::Semicolon,
        ) ==> spec_mode_modifier(st) == Ok::<(Option<(StmtModel, Span)>, PState), SErr>(
            (
                Some(
                    (
                        StmtModel::Enable(BooleanSetting::Lazy),
                        span_join(st.span(), st.advance().advance().span()),
                    ),
                ),
                st.advance().advance().advance(),
            ),
        ),
        st.is_reserved("disable"@) && st.advance().is_reserved("lazy"@) && st.advance().advance().is(
            Token::Semicolon,
        ) ==> spec_mode_modifier(st) == Ok::<(Option<(StmtModel, Span)>, PState), SErr>(
            (
                Some(
                    (
                        StmtModel::Disable(BooleanSetting::Lazy),
                        span_join(st.span(), st.advance().advance().span()),
                    ),
                ),
                st.advance().advance().advance(),
            ),
        ),
{
    reveal(spec_mode_modifier);
    reveal_strlit("enable");
    reveal_strlit("disable");
    assert("enable"@ != "disable"@) by {
        assert("enable"@.len() != "disable"@.len());
    }
}

/// Each special-character name stands for its own control character: `n` for U+000A,
/// `r` for U+000D, `t` for U+0009, `a` for U+0007, `e` for U+001B and `f` for U+000C;
/// no other name is one, and no two names stand for the same character.
pub proof fn lemma_special_char_codes(x: Seq<char>, y: Seq<char>)
    ensures
        special_char("n"@) == Some('\u{0A}'),
        special_char("r"@) == Some('\u{0D}'),
        special_char("t"@) == Some('\u{09}'),
        special_char("a"@) == Some('\u{07}'),
        special_char("e"@) == Some('\u{1B}'),
        special_char("f"@) == Some('\u{0C}'),
        special_char(x) is Some ==> (x == "n"@ || x == "r"@ || x == "t"@ || x == "a"@ || x == "e"@
            || x == "f"@),
        special_char(x) is Some && special_char(x) == special_char(y) ==> x == y,
{
    reveal_strlit("n");
    reveal_strlit("r");
    reveal_strlit("t");
    reveal_strlit("a");
    reveal_strlit("e");
    reveal_strlit("f");
    assert("r"@ != "n"@) by {
        assert("r"@[0] != "n"@[0]);
    }
    assert("t"@ != "n"@) by {
        assert("t"@[0] != "n"@[0]);
    }
    assert("t"@ != "r"@) by {
        assert("t"@[0] != "r"@[0]);
    }
    assert("a"@ != "n"@) by {
        assert("a"@[0] != "n"@[0]);
    }
    assert("a"@ != "r"@) by {
        assert("a"@[0] != "r"@[0]);
    }
    assert("a"@ != "t"@) by {
        assert("a"@[0] != "t"@[0]);
    }
    assert("e"@ != "n"@) by {
        assert("e"@[0] != "n"@[0]);
    }
    assert("e"@ != "r"@) by {
        assert("e"@[0] != "r"@[0]);
    }
    assert("e"@ != "t"@) by {
        assert("e"@[0] != "t"@[0]);
    }
    assert("e"@ != "a"@) by {
        assert("e"@[0] != "a"@[0]);
    }
    assert("f"@ != "n"@) by {
        assert("f"@[0] != "n"@[0]);
    }
    assert("f"@ != "r"@) by {
        assert("f"@[0] != "r"@[0]);
    }
    assert("f"@ != "t"@) by {
        assert("f"@[0] != "t"@[0]);
    }
    assert("f"@ != "a"@) by {
        assert("f"@[0] != "a"@[0]);
    }
    assert("f"@ != "e"@) by {
        assert("f"@[0] != "e"@[0]);
    }
}

/// A special character is read from one identifier token, whose name decides the
/// character as `lemma_special_char_codes` gives it; any other token reads nothing.
pub proof fn lemma_special_char_read(st: PState)
    ensures
        spec_special_char(st).0 matches Some(c) ==> st.is(Token::Identifier) && spec_special_char(st).1
            == st.advance() && special_char(st.text()) == Some(c),
        spec_special_char(st).0 is None ==> spec_special_char(st).1 == st,
        st.is(Token::Identifier) && st.text() == "r"@ ==> spec_special_char(st) == (
            Some('\u{0D}'),
            st.advance(),
        ),
        st.is(Token::Identifier) && st.text() == "n"@ ==> spec_special_char(st) == (
            Some('\u{0A}'),
            st.advance(),
        ),
{
    reveal(spec_special_char);
    lemma_special_char_codes(st.text(), st.text());
}

/// A group that starts with `:` is capturing, named by the identifier after the colon
/// if there is one; only the keyword `atomic` makes an atomic group; anything else
/// starts a plain group.
pub proof fn lemma_group_kind_from_prefix(st: PState)
    ensures
        ({
            let kind = spec_group_kind(st).0.0;
            &&& (kind is Atomic <==> st.is_reserved("atomic"@))
            &&& st.is(Token::Colon) ==> kind == crate::exprs::GroupKindModel::Capturing(
                if st.advance().is(Token::Identifier) {
                    Some(st.advance().text())
                } else {
                    None
                },
            )
            &&& (kind is Normal <==> !st.is_reserved("atomic"@) && !st.is(Token::Colon))
        }),
        spec_group(st) matches Ok((Some(RuleModel::Group { kind, .. }), _)) ==> kind
            == spec_group_kind(st).0.0,
{
}

/// `>>` gives a lookahead and `<<` a lookbehind: the direction of a parsed lookaround is
/// that of its arrow.
pub proof fn lemma_lookaround_direction(st: PState)
    ensures
        spec_lookaround(st) matches Ok((Some(r), _)) ==> (r matches RuleModel::Lookaround {
            kind,
            ..
        } && (kind == LookaroundKind::Ahead <==> st.is(Token::LookAhead)) && (kind
            == LookaroundKind::Behind <==> st.is(Token::LookBehind))),
{
}

/// Negation keeps the direction of a lookaround: a lookahead becomes a negative
/// lookahead, a lookbehind a negative lookbehind, and a negative one cannot be negated
/// again.
pub proof fn lemma_negation_keeps_direction(rule: RuleModel, kind: LookaroundKind, span: Span)
    ensures
        (RuleModel::Lookaround { rule: Box::new(rule), kind, span }).negated() == match kind {
            LookaroundKind::Ahead => Ok::<RuleModel, ParseErrorKindModel>(
                RuleModel::Lookaround {
                    rule: Box::new(rule),
                    kind: LookaroundKind::AheadNegative,
                    span,
                },
            ),
            LookaroundKind::Behind => Ok(
                RuleModel::Lookaround {
                    rule: Box::new(rule),
                    kind: LookaroundKind::BehindNegative,
                    span,
                },
            ),
            _ => Err(ParseErrorKindModel::UnallowedDoubleNot),
        },
{
}

/// `+` repeats one or more times, `*` zero or more times and `?` zero times or once;
/// `greedy` or `lazy` right after the symbol sets the quantifier, and without either
/// the quantifier is the default.
pub proof fn lemma_repetition_symbols(st: PState)
    ensures
        spec_repetition(st) matches Ok((Some((kind, q, _)), _)) ==> {
            &&& st.is(Token::Plus) ==> kind == RepetitionKind { lower_bound: 1, upper_bound: None }
            &&& st.is(Token::Star) ==> kind == RepetitionKind { lower_bound: 0, upper_bound: None }
            &&& st.is(Token::QuestionMark) ==> kind == RepetitionKind {
                lower_bound: 0,
                upper_bound: Some(1),
            }
            &&& (st.is(Token::Plus) || st.is(Token::Star) || st.is(Token::QuestionMark)) ==> {
                &&& (q == Quantifier::Greedy <==> st.advance().is_reserved("greedy"@))
                &&& (q == Quantifier::Lazy <==> st.advance().is_reserved("lazy"@))
            }
        },
{
    reveal(spec_repetition);
    reveal_strlit("greedy");
    reveal_strlit("lazy");
    assert("greedy"@ != "lazy"@) by {
        assert("greedy"@.len() != "lazy"@.len());
    }
}

/// `{n}` repeats exactly n times, `{n,}` at least n times, `{,m}` at most m times and
/// `{n,m}` from n to m times.
pub proof fn lemma_repetition_braces_forms(st: PState)
    ensures
        spec_repetition_braces(st) matches Ok((Some(k), _)) ==> {
            let s1 = st.advance();
            let s2 = s1.advance();
            &&& s1.is(Token::Number) && s2.is(Token::CloseBrace) ==> k.lower_bound == decimal_value(
                s1.text(),
            ) && k.upper_bound == Some(k.lower_bound)
            &&& s1.is(Token::Number) && s2.is(Token::Comma) && s2.advance().is(Token::CloseBrace)
                ==> k.lower_bound == decimal_value(s1.text()) && k.upper_bound is None
            &&& s1.is(Token::Comma) && s2.is(Token::Number) ==> (k.lower_bound == 0
                && k.upper_bound == Some(decimal_value(s2.text()) as u32) && decimal_value(s2.text())
                <= u32::MAX)
            &&& s1.is(Token::Number) && s2.is(Token::Comma) && s2.advance().is(Token::Number)
                ==> (k.lower_bound == decimal_value(s1.text()) && k.upper_bound == Some(
                decimal_value(s2.advance().text()) as u32,
            ) && decimal_value(s2.advance().text()) <= u32::MAX)
        },
{
    reveal(spec_repetition_braces);
}

/// A reference names its group the way its tokens say: `::n` by number, `::+n` and
/// `::-n` relative to where it stands, forward and backward, and `::name` by name.
pub proof fn lemma_reference_targets(st: PState)
    ensures
        spec_reference(st) matches Ok((Some(RuleModel::Reference { target, .. }), _)) ==> {
            let s1 = st.advance();
            &&& s1.is(Token::Plus) ==> (target matches ReferenceTargetModel::Relative(r) && r as int
                == decimal_value(s1.advance().text()))
            &&& s1.is(Token::Dash) ==> (target matches ReferenceTargetModel::Relative(r) && r as int
                == -decimal_value(s1.advance().text()))
            &&& s1.is(Token::Number) ==> (target matches ReferenceTargetModel::Number(n) && n as int
                == decimal_value(s1.text()))
            &&& s1.is(Token::Identifier) ==> target == ReferenceTargetModel::Named(s1.text())
        },
{
    reveal(spec_reference);
}

/// A boundary is read from one token at its own span: `^` and `<%` give the start, `$`
/// and `%>` the end, `%` a word boundary; the old spellings `<%` and `%>` also leave a
/// deprecation warning there, the new ones none.
pub proof fn lemma_boundary_kinds(st: PState)
    ensures
        spec_boundary(st).0 matches Some(r) ==> (r matches RuleModel::Boundary { kind, span } && span
            == st.span() && (kind == BoundaryKind::Start <==> (st.is(Token::Caret) || st.is(
            Token::BStart,
        ))) && (kind == BoundaryKind::End <==> (st.is(Token::Dollar) || st.is(Token::BEnd))) && (
        kind == BoundaryKind::Word <==> st.is(Token::BWord))),
        spec_boundary(st).0 is None ==> spec_boundary(st).1 == st,
        st.is(Token::Caret) || st.is(Token::Dollar) || st.is(Token::BWord) ==> spec_boundary(st).1
            == st.advance(),
        st.is(Token::BStart) ==> spec_boundary(st).1 == st.advance().add_warning(
            ParseWarning {
                kind: ParseWarningKind::Deprecation(DeprecationWarning::StartLiteral),
                span: st.span(),
            },
        ),
        st.is(Token::BEnd) ==> spec_boundary(st).1 == st.advance().add_warning(
            ParseWarning {
                kind: ParseWarningKind::Deprecation(DeprecationWarning::EndLiteral),
                span: st.span(),
            },
        ),
{
    reveal(spec_boundary);
}

/// A code point stands for the character whose number its hexadecimal digits give, and
/// it is read from one token at that token's span: `U+` then the digits, or an
/// identifier `U` then the digits.
pub proof fn lemma_code_point_value(st: PState)
    ensures
        spec_code_point(st) matches Ok((Some((c, span)), s)) ==> s == st.advance() && span
            == st.span() && ((st.is(Token::CodePoint) && hex_u32(st.text().skip(2)) == Some(
            c as u32,
        )) || (st.is(Token::Identifier) && st.text()[0] == 'U' && hex_u32(st.text().skip(1))
            == Some(c as u32))),
{
    reveal(spec_code_point);
}

/// Negation turns a character class into its complement, a word boundary into a
/// non-word boundary and a lookaround into its negative form; what is negated already
/// cannot be negated again, and nothing else can be negated at all.
pub proof fn lemma_negation_meaning(r: RuleModel)
    ensures
        r matches RuleModel::CharClass { inner, negative, span } ==> r.negated() == (if negative {
            Err(ParseErrorKindModel::UnallowedDoubleNot)
        } else {
            Ok(RuleModel::CharClass { inner, negative: true, span })
        }),
        r matches RuleModel::Boundary { kind, span } ==> r.negated() == (match kind {
            BoundaryKind::Word => Ok(RuleModel::Boundary { kind: BoundaryKind::NotWord, span }),
            BoundaryKind::NotWord => Err(ParseErrorKindModel::UnallowedDoubleNot),
            _ => Err(ParseErrorKindModel::UnallowedNot),
        }),
        !(r is CharClass || r is Boundary || r is Lookaround) ==> r.negated() == Err::<
            RuleModel,
            ParseErrorKindModel,
        >(ParseErrorKindModel::UnallowedNot),
{
}

/// The shorthand and long names of the named classes: `w`/`word`, `d`/`digit`,
/// `s`/`space`, `h`/`horiz_space` and `v`/`vert_space`; no other name is one.
pub proof fn lemma_named_class_names(x: Seq<char>)
    ensures
        named_class("w"@) == Some(GroupName::Word),
        named_class("word"@) == Some(GroupName::Word),
        named_class("d"@) == Some(GroupName::Digit),
        named_class("digit"@) == Some(GroupName::Digit),
        named_class("s"@) == Some(GroupName::Space),
        named_class("space"@) == Some(GroupName::Space),
        named_class("h"@) == Some(GroupName::HorizSpace),
        named_class("horiz_space"@) == Some(GroupName::HorizSpace),
        named_class("v"@) == Some(GroupName::VertSpace),
        named_class("vert_space"@) == Some(GroupName::VertSpace),
        named_class(x) is Some ==> (x == "w"@ || x == "word"@ || x == "d"@ || x == "digit"@ || x
            == "s"@ || x == "space"@ || x == "h"@ || x == "horiz_space"@ || x == "v"@ || x
            == "vert_space"@),
{
    reveal_strlit("w");
    reveal_strlit("word");
    reveal_strlit("d");
    reveal_strlit("digit");
    reveal_strlit("s");
    reveal_strlit("space");
    reveal_strlit("h");
    reveal_strlit("horiz_space");
    reveal_strlit("v");
    reveal_strlit("vert_space");
    assert("word"@ != "w"@) by {
        assert("word"@.len() != "w"@.len());
    }
    assert("d"@ != "w"@) by {
        assert("d"@[0] != "w"@[0]);
    }
    assert("d"@ != "word"@) by {
        assert("d"@.len() != "word"@.len());
    }
    assert("digit"@ != "w"@) by {
        assert("digit"@.len() != "w"@.len());
    }
    assert("digit"@ != "word"@) by {
        assert("digit"@.len() != "word"@.len());
    }
    assert("digit"@ != "d"@) by {
        assert("digit"@.len() != "d"@.len());
    }
    assert("s"@ != "w"@) by {
        assert("s"@[0] != "w"@[0]);
    }
    assert("s"@ != "word"@) by {
        assert("s"@.len() != "word"@.len());
    }
    assert("s"@ != "d"@) by {
        assert("s"@[0] != "d"@[0]);
    }
    assert("s"@ != "digit"@) by {
        assert("s"@.len() != "digit"@.len());
    }
    assert("space"@ != "w"@) by {
        assert("space"@.len() != "w"@.len());
    }
    assert("space"@ != "word"@) by {
        assert("space"@.len() != "word"@.len());
    }
    assert("space"@ != "d"@) by {
        assert("space"@.len() != "d"@.len());
    }
    assert("space"@ != "digit"@) by {
        assert("space"@[0] != "digit"@[0]);
    }
    assert("space"@ != "s"@) by {
        assert("space"@.len() != "s"@.len());
    }
    assert("h"@ != "w"@) by {
        assert("h"@[0] != "w"@[0]);
    }
    assert("h"@ != "word"@) by {
        assert("h"@.len() != "word"@.len());
    }
    assert("h"@ != "d"@) by {
        assert("h"@[0] != "d"@[0]);
    }
    assert("h"@ != "digit"@) by {
        assert("h"@.len() != "digit"@.len());
    }
    assert("h"@ != "s"@) by {
        assert("h"@[0] != "s"@[0]);
    }
    assert("h"@ != "space"@) by {
        assert("h"@.len() != "space"@.len());
    }
    assert("horiz_space"@ != "w"@) by {
        assert("horiz_space"@.len() != "w"@.len());
    }
    assert("horiz_space"@ != "word"@) by {
        assert("horiz_space"@.len() != "word"@.len());
    }
    assert("horiz_space"@ != "d"@) by {
        assert("horiz_space"@.len() != "d"@.len());
    }
    assert("horiz_space"@ != "digit"@) by {
        assert("horiz_space"@.len() != "digit"@.len());
    }
    assert("horiz_space"@ != "s"@) by {
        assert("horiz_space"@.len() != "s"@.len());
    }
    assert("horiz_space"@ != "space"@) by {
        assert("horiz_space"@.len() != "space"@.len());
    }
    assert("horiz_space"@ != "h"@) by {
        assert("horiz_space"@.len() != "h"@.len());
    }
    assert("v"@ != "w"@) by {
        assert("v"@[0] != "w"@[0]);
    }
    assert("v"@ != "word"@) by {
        assert("v"@.len() != "word"@.len());
    }
    assert("v"@ != "d"@) by {
        assert("v"@[0] != "d"@[0]);
    }
    assert("v"@ != "digit"@) by {
        assert("v"@.len() != "digit"@.len());
    }
    assert("v"@ != "s"@) by {
        assert("v"@[0] != "s"@[0]);
    }
    assert("v"@ != "space"@) by {
        assert("v"@.len() != "space"@.len());
    }
    assert("v"@ != "h"@) by {
        assert("v"@[0] != "h"@[0]);
    }
    assert("v"@ != "horiz_space"@) by {
        assert("v"@.len() != "horiz_space"@.len());
    }
    assert("vert_space"@ != "w"@) by {
        assert("vert_space"@.len() != "w"@.len());
    }
    assert("vert_space"@ != "word"@) by {
        assert("vert_space"@.len() != "word"@.len());
    }
    assert("vert_space"@ != "d"@) by {
        assert("vert_space"@.len() != "d"@.len());
    }
    assert("vert_space"@ != "digit"@) by {
        assert("vert_space"@.len() != "digit"@.len());
    }
    assert("vert_space"@ != "s"@) by {
        assert("vert_space"@.len() != "s"@.len());
    }
    assert("vert_space"@ != "space"@) by {
        assert("vert_space"@.len() != "space"@.len());
    }
    assert("vert_space"@ != "h"@) by {
        assert("vert_space"@.len() != "h"@.len());
    }
    assert("vert_space"@ != "horiz_space"@) by {
        assert("vert_space"@.len() != "horiz_space"@.len());
    }
    assert("vert_space"@ != "v"@) by {
        assert("vert_space"@.len() != "v"@.len());
    }
}

proof fn lemma_unescape_plain(body: Seq<char>, i: int)
    requires
        0 <= i <= body.len(),
        forall|k: int| 0 <= k < body.len() ==> #[trigger] body[k] != '\\',
    ensures
        unescape_from(body, i) == Ok::<Seq<char>, ParseErrorKindModel>(body.skip(i)),
    decreases body.len() - i,
{
    if i < body.len() {
        lemma_unescape_plain(body, i + 1);
        assert(seq![body[i]] + body.skip(i + 1) =~= body.skip(i));
    } else {
        assert(body.skip(i) =~= Seq::<char>::empty());
    }
}

/// The text of a string literal is what stands between its quotes: always in single
/// quotes, and in double quotes when it holds no backslash; in double quotes `\\` stands
/// for one backslash and `\"` for a quote.
pub proof fn lemma_string_text(s: Seq<char>, c: char)
    requires
        s.len() >= 2,
    ensures
        s[0] != '"' ==> quoted_text(s) == Ok::<Seq<char>, ParseErrorKindModel>(
            s.subrange(1, s.len() - 1),
        ),
        (forall|k: int| 1 <= k < s.len() - 1 ==> #[trigger] s[k] != '\\') ==> quoted_text(s)
            == Ok::<Seq<char>, ParseErrorKindModel>(s.subrange(1, s.len() - 1)),
        (c == '\\' || c == '"') ==> quoted_text(seq!['"', '\\', c, '"']) == Ok::<
            Seq<char>,
            ParseErrorKindModel,
        >(seq![c]),
{
    let body = s.subrange(1, s.len() - 1);
    if forall|k: int| 1 <= k < s.len() - 1 ==> #[trigger] s[k] != '\\' {
        assert forall|k: int| 0 <= k < body.len() implies #[trigger] body[k] != '\\' by {
            assert(body[k] == s[k + 1]);
        }
        lemma_unescape_plain(body, 0);
        assert(body.skip(0) =~= body);
    }
    if c == '\\' || c == '"' {
        let q = seq!['"', '\\', c, '"'];
        let b = q.subrange(1, 3);
        assert(b =~= seq!['\\', c]);
        assert(unescape_from(b, 2) == Ok::<Seq<char>, ParseErrorKindModel>(Seq::empty()));
        assert(seq![c] + Seq::<char>::empty() =~= seq![c]);
    }
}

/// In a character set, `.` is the dot (with a deprecation warning) and `cp` or
/// `codepoint` any code point, neither of which can be negated; a named class gives that
/// class, negated exactly when asked; any other name is unknown.
pub proof fn lemma_set_names(name: Seq<char>, negative: bool)
    ensures
        name == "."@ ==> group_from_name(name, negative) == (if negative {
            Err(CharClassErrorModel::Negative)
        } else {
            Ok((CharGroupModel::Dot, Some(DeprecationWarning::DotInSet)))
        }),
        (name == "cp"@ || name == "codepoint"@) ==> group_from_name(name, negative) == (if negative {
            Err(CharClassErrorModel::Negative)
        } else {
            Ok((CharGroupModel::CodePoint, None::<DeprecationWarning>))
        }),
        named_class(name) matches Some(n) ==> group_from_name(name, negative) == Ok::<
            (CharGroupModel, Option<DeprecationWarning>),
            CharClassErrorModel,
        >((CharGroupModel::Items(seq![GroupItem::Named { name: n, negative }]), None)),
        (named_class(name) is None && name != "."@ && name != "cp"@ && name != "codepoint"@)
            ==> group_from_name(name, negative) == Err::<
            (CharGroupModel, Option<DeprecationWarning>),
            CharClassErrorModel,
        >(CharClassErrorModel::UnknownNamedClass(name)),
{
    lemma_named_class_names(name);
    reveal_strlit(".");
    reveal_strlit("cp");
    reveal_strlit("codepoint");
    reveal_strlit("w");
    reveal_strlit("word");
    reveal_strlit("d");
    reveal_strlit("digit");
    reveal_strlit("s");
    reveal_strlit("space");
    reveal_strlit("h");
    reveal_strlit("horiz_space");
    reveal_strlit("v");
    reveal_strlit("vert_space");
    assert("w"@ != "."@) by {
        assert("w"@[0] != "."@[0]);
    }
    assert("w"@ != "cp"@) by {
        assert("w"@.len() != "cp"@.len());
    }
    assert("w"@ != "codepoint"@) by {
        assert("w"@.len() != "codepoint"@.len());
    }
    assert("word"@ != "."@) by {
        assert("word"@.len() != "."@.len());
    }
    assert("word"@ != "cp"@) by {
        assert("word"@.len() != "cp"@.len());
    }
    assert("word"@ != "codepoint"@) by {
        assert("word"@.len() != "codepoint"@.len());
    }
    assert("d"@ != "."@) by {
        assert("d"@[0] != "."@[0]);
    }
    assert("d"@ != "cp"@) by {
        assert("d"@.len() != "cp"@.len());
    }
    assert("d"@ != "codepoint"@) by {
        assert("d"@.len() != "codepoint"@.len());
    }
    assert("digit"@ != "."@) by {
        assert("digit"@.len() != "."@.len());
    }
    assert("digit"@ != "cp"@) by {
        assert("digit"@.len() != "cp"@.len());
    }
    assert("digit"@ != "codepoint"@) by {
        assert("digit"@.len() != "codepoint"@.len());
    }
    assert("s"@ != "."@) by {
        assert("s"@[0] != "."@[0]);
    }
    assert("s"@ != "cp"@) by {
        assert("s"@.len() != "cp"@.len());
    }
    assert("s"@ != "codepoint"@) by {
        assert("s"@.len() != "codepoint"@.len());
    }
    assert("space"@ != "."@) by {
        assert("space"@.len() != "."@.len());
    }
    assert("space"@ != "cp"@) by {
        assert("space"@.len() != "cp"@.len());
    }
    assert("space"@ != "codepoint"@) by {
        assert("space"@.len() != "codepoint"@.len());
    }
    assert("h"@ != "."@) by {
        assert("h"@[0] != "."@[0]);
    }
    assert("h"@ != "cp"@) by {
        assert("h"@.len() != "cp"@.len());
    }
    assert("h"@ != "codepoint"@) by {
        assert("h"@.len() != "codepoint"@.len());
    }
    assert("horiz_space"@ != "."@) by {
        assert("horiz_space"@.len() != "."@.len());
    }
    assert("horiz_space"@ != "cp"@) by {
        assert("horiz_space"@.len() != "cp"@.len());
    }
    assert("horiz_space"@ != "codepoint"@) by {
        assert("horiz_space"@.len() != "codepoint"@.len());
    }
    assert("v"@ != "."@) by {
        assert("v"@[0] != "."@[0]);
    }
    assert("v"@ != "cp"@) by {
        assert("v"@.len() != "cp"@.len());
    }
    assert("v"@ != "codepoint"@) by {
        assert("v"@.len() != "codepoint"@.len());
    }
    assert("vert_space"@ != "."@) by {
        assert("vert_space"@.len() != "."@.len());
    }
    assert("vert_space"@ != "cp"@) by {
        assert("vert_space"@.len() != "cp"@.len());
    }
    assert("vert_space"@ != "codepoint"@) by {
        assert("vert_space"@.len() != "codepoint"@.len());
    }
    assert("cp"@ != "."@) by {
        assert("cp"@.len() != "."@.len());
    }
    assert("cp"@ != "codepoint"@) by {
        assert("cp"@.len() != "codepoint"@.len());
    }
    assert("codepoint"@ != "."@) by {
        assert("codepoint"@.len() != "."@.len());
    }
    assert("codepoint"@ != "cp"@) by {
        assert("codepoint"@.len() != "cp"@.len());
    }
}

} // verus!
