use vstd::prelude::*;

use crate::error::{ParseError, ParseErrorKind};
use crate::exprs::{
    lemma_rules_model, lemma_stmts_model, rules_model, stmt_model, stmts_model, Alternation,
    Group, GroupKind, Let, Lookaround, LookaroundKind, Repetition, Rule, RuleModel, Stmt,
    StmtExpr, StmtModel,
};
use crate::grammar::{
    advances, count_nots, first_duplicate_let, let_name, reaches, spec_atom, spec_atom_rest,
    spec_fixes, spec_group, spec_let, spec_lookaround, spec_modified, spec_or, spec_or_rest,
    spec_repeated, spec_repetitions, spec_sequence, spec_sequence_items, spec_stmts, wrap_stmts,
};
use crate::parser::{PResult, PState, Parser, SErr};
use crate::parser_impl::{opt_rule, opt_stmt, outcome};
use crate::span::{span_join, Span};
use crate::text::str_eq;
use crate::token::Token;

verus! {

// The recursive part of the parser: each function nests into the others only after
// reading a token or at a lower rank (the second number of its `decreases` clause).
impl Parser {
    /// Parses statements (`let` bindings and mode modifiers) followed by an expression;
    /// the names that `let` binds here must differ.
    pub fn parse_modified(&mut self) -> (res: PResult<Rule>)
        requires
            old(self)@.wf(),
        ensures
            reaches(old(self)@, final(self)@),
            res is Ok ==> final(self)@.recursion == old(self)@.recursion,
            outcome(res, final(self)@, spec_modified(old(self)@), |r: Rule| r@),
        decreases old(self)@.remaining(), 20nat,
    {
        let mut stmts: Vec<(Stmt, Span)> = Vec::new();

        loop
            invariant_except_break
                reaches(old(self)@, self@),
                self@.recursion == old(self)@.recursion,
                spec_stmts(old(self)@, Seq::empty()) == spec_stmts(self@, stmts_model(stmts@)),
            ensures
                reaches(old(self)@, self@),
                self@.recursion == old(self)@.recursion,
                spec_stmts(old(self)@, Seq::empty()) == Ok::<(Seq<(StmtModel, Span)>, PState), SErr>(
                    (stmts_model(stmts@), self@),
                ),
            decreases self@.remaining(),
        {
            let stmt = match self.parse_mode_modifier()? {
                Some(s) => Some(s),
                None => self.parse_let()?,
            };
            match stmt {
                Some(s) => {
                    let ghost before = stmts@;
                    stmts.push(s);
                    assert(stmts@.drop_last() =~= before);
                },
                None => break,
            }
        }

        self.recursion_start()?;
        let mut rule = self.parse_or()?;
        self.recursion_end();

        let ghost all = stmts_model(stmts@);
        proof {
            lemma_stmts_model(stmts@);
        }
        if stmts.len() > 1 {
            if let Some(span) = find_duplicate_let(&stmts) {
                return Err(ParseErrorKind::LetBindingExists.at(span));
            }
        }

        let span_end = rule.span();
        let ghost rule0 = rule@;
        while stmts.len() > 0
            invariant
                wrap_stmts(all, rule0, span_end) == wrap_stmts(stmts_model(stmts@), rule@, span_end),
                reaches(old(self)@, self@),
            decreases stmts@.len(),
        {
            let ghost before = stmts@;
            let ghost inner = rule@;
            let (stmt, span) = stmts.pop().unwrap();
            assert(before.drop_last() =~= stmts@);
            assert(stmts_model(before).drop_last() == stmts_model(stmts@));
            assert(stmts_model(before).last() == (stmt@, span));
            rule = Rule::StmtExpr(Box::new(StmtExpr::new(stmt, rule, span.join(span_end))));
            assert(rule@ == RuleModel::StmtExpr {
                stmt: Box::new(stmt_model(before.last().0)),
                rule: Box::new(inner),
                span: span_join(span, span_end),
            });
        }

        Ok(rule)
    }

    /// Parses a `let` binding: `let name = rule;`.
    pub fn parse_let(&mut self) -> (res: PResult<Option<(Stmt, Span)>>)
        requires
            old(self)@.wf(),
        ensures
            reaches(old(self)@, final(self)@),
            res is Ok ==> final(self)@.recursion == old(self)@.recursion,
            outcome(res, final(self)@, spec_let(old(self)@), |r| opt_stmt(r)),
            res matches Ok(Some(_)) ==> advances(old(self)@, final(self)@),
            res matches Ok(None) ==> final(self)@ == old(self)@,
        decreases old(self)@.remaining(), 18nat,
    {
        if self.consume_reserved("let") {
            let span_start = self.last_span();
            let name_span = self.span();
            let name = match self.expect_as(Token::Identifier) {
                Ok(n) => n,
                Err(e) => {
                    if self.is(Token::ReservedName) {
                        return Err(
                            ParseError {
                                kind: ParseErrorKind::KeywordAfterLet(self.current_text().to_owned()),
                                span: e.span,
                            },
                        );
                    } else {
                        return Err(e);
                    }
                },
            };

            self.expect(Token::Equals)?;

            self.recursion_start()?;
            let rule = self.parse_or()?;
            self.recursion_end();

            match self.expect(Token::Semicolon) {
                Ok(()) => {},
                Err(p) => {
                    return Err(
                        ParseError {
                            kind: ParseErrorKind::Expected("expression or `;`"),
                            span: p.span,
                        },
                    )
                },
            }
            let span_end = self.last_span();

            Ok(Some((Stmt::Let(Let::new(name.as_str(), rule, name_span)), span_start.join(span_end))))
        } else {
            Ok(None)
        }
    }

    /// Parses alternatives separated by `|`, with an optional leading `|`.
    pub fn parse_or(&mut self) -> (res: PResult<Rule>)
        requires
            old(self)@.wf(),
        ensures
            reaches(old(self)@, final(self)@),
            res is Ok ==> final(self)@.recursion == old(self)@.recursion,
            outcome(res, final(self)@, spec_or(old(self)@), |r: Rule| r@),
        decreases old(self)@.remaining(), 17nat,
    {
        let span = self.span();
        let leading_pipe = self.consume(Token::Pipe);

        let mut alts: Vec<Rule> = Vec::new();
        if let Some(first_alt) = self.parse_sequence()? {
            let ghost first = first_alt@;
            alts.push(first_alt);
            proof {
                lemma_rules_model(alts@);
            }
            assert(rules_model(alts@) =~= seq![first]);

            loop
                invariant_except_break
                    reaches(old(self)@, self@),
                    self@.recursion == old(self)@.recursion,
                    alts@.len() >= 1,
                    spec_or(old(self)@) == spec_or_rest(self@, rules_model(alts@)),
                ensures
                    reaches(old(self)@, self@),
                    self@.recursion == old(self)@.recursion,
                    alts@.len() >= 1,
                    !self@.is(Token::Pipe),
                    spec_or(old(self)@) == spec_or_rest(self@, rules_model(alts@)),
                decreases self@.remaining(),
            {
                if !self.consume(Token::Pipe) {
                    break;
                }
                match self.parse_sequence()? {
                    Some(next_alt) => {
                        let ghost before = alts@;
                        alts.push(next_alt);
                        assert(alts@.drop_last() =~= before);
                    },
                    None => {
                        return Err(ParseErrorKind::LonePipe.at(self.last_span()));
                    },
                }
            }

            proof {
                lemma_rules_model(alts@);
            }
            if alts.len() == 1 {
                Ok(alts.pop().unwrap())
            } else {
                Ok(Alternation::new_expr(alts))
            }
        } else if leading_pipe {
            Err(ParseErrorKind::LonePipe.at(span))
        } else {
            assert(rules_model(alts@) =~= Seq::<RuleModel>::empty());
            Ok(Alternation::new_expr(alts))
        }
    }

    /// Parses expressions in sequence: none, one, or several as an implicit group.
    pub fn parse_sequence(&mut self) -> (res: PResult<Option<Rule>>)
        requires
            old(self)@.wf(),
        ensures
            reaches(old(self)@, final(self)@),
            res is Ok ==> final(self)@.recursion == old(self)@.recursion,
            outcome(res, final(self)@, spec_sequence(old(self)@), |r| opt_rule(r)),
            res matches Ok(Some(_)) ==> advances(old(self)@, final(self)@),
            res matches Ok(None) ==> final(self)@ == old(self)@,
        decreases old(self)@.remaining(), 15nat,
    {
        let mut fixes: Vec<Rule> = Vec::new();
        assert(rules_model(fixes@) =~= Seq::<RuleModel>::empty());
        loop
            invariant_except_break
                reaches(old(self)@, self@),
                self@.recursion == old(self)@.recursion,
                fixes@.len() > 0 ==> advances(old(self)@, self@),
                fixes@.len() == 0 ==> self@ == old(self)@,
                spec_sequence_items(old(self)@, Seq::empty()) == spec_sequence_items(self@, rules_model(fixes@)),
            ensures
                reaches(old(self)@, self@),
                self@.recursion == old(self)@.recursion,
                fixes@.len() > 0 ==> advances(old(self)@, self@),
                fixes@.len() == 0 ==> self@ == old(self)@,
                spec_sequence_items(old(self)@, Seq::empty()) == Ok::<(Seq<RuleModel>, PState), SErr>(
                    (rules_model(fixes@), self@),
                ),
            decreases self@.remaining(),
        {
            match self.parse_fixes()? {
                Some(fix) => {
                    let ghost before = fixes@;
                    fixes.push(fix);
                    assert(fixes@.drop_last() =~= before);
                },
                None => break,
            }
        }

        proof {
            lemma_rules_model(fixes@);
        }
        Ok(
            if fixes.len() == 0 {
                None
            } else if fixes.len() == 1 {
                fixes.pop()
            } else {
                let start = fixes[0].span();
                let end = fixes[fixes.len() - 1].span();
                let span = start.join(end);

                Some(Rule::Group(Group::new(fixes, GroupKind::Implicit, span)))
            },
        )
    }

    /// Parses an expression with optional `!` before it: one `!` negates it, more are
    /// an error.
    pub fn parse_fixes(&mut self) -> (res: PResult<Option<Rule>>)
        requires
            old(self)@.wf(),
        ensures
            reaches(old(self)@, final(self)@),
            res is Ok ==> final(self)@.recursion == old(self)@.recursion,
            outcome(res, final(self)@, spec_fixes(old(self)@), |r| opt_rule(r)),
            res matches Ok(Some(_)) ==> advances(old(self)@, final(self)@),
            res matches Ok(None) ==> final(self)@ == old(self)@,
        decreases old(self)@.remaining(), 13nat,
    {
        let mut nots_span = self.span();
        let mut nots: usize = 0;
        while self.is(Token::Not)
            invariant
                reaches(old(self)@, self@),
                self@.recursion == old(self)@.recursion,
                nots as nat + old(self)@.offset == self@.offset,
                count_nots(old(self)@, 0, old(self)@.span()) == count_nots(self@, nots as nat, nots_span),
            decreases self@.remaining(),
        {
            self.advance();
            nots += 1;
            nots_span = nots_span.join(self.last_span());
        }

        let found = match self.parse_lookaround()? {
            Some(r) => Some(r),
            None => self.parse_repeated()?,
        };
        let mut rule = match found {
            Some(r) => r,
            None => {
                if nots == 0 {
                    return Ok(None);
                } else {
                    return Err(ParseErrorKind::Expected("expression").at(self.span()));
                }
            },
        };

        if nots == 0 {
        } else if nots == 1 {
            match rule.negate() {
                Ok(()) => {},
                Err(k) => return Err(k.at(nots_span)),
            }
        } else {
            return Err(ParseErrorKind::UnallowedMultiNot(nots).at(nots_span));
        }

        Ok(Some(rule))
    }

    /// Parses a lookahead `>> rule` or a lookbehind `<< rule`.
    pub fn parse_lookaround(&mut self) -> (res: PResult<Option<Rule>>)
        requires
            old(self)@.wf(),
        ensures
            reaches(old(self)@, final(self)@),
            res is Ok ==> final(self)@.recursion == old(self)@.recursion,
            outcome(res, final(self)@, spec_lookaround(old(self)@), |r| opt_rule(r)),
            res matches Ok(Some(_)) ==> advances(old(self)@, final(self)@),
            res matches Ok(None) ==> final(self)@ == old(self)@,
        decreases old(self)@.remaining(), 12nat,
    {
        let kind = if self.consume(Token::LookAhead) {
            LookaroundKind::Ahead
        } else if self.consume(Token::LookBehind) {
            LookaroundKind::Behind
        } else {
            return Ok(None);
        };
        let start_span = self.last_span();

        self.recursion_start()?;
        let rule = self.parse_modified()?;
        self.recursion_end();

        let span = rule.span();
        Ok(Some(Rule::Lookaround(Box::new(Lookaround::new(rule, kind, start_span.join(span))))))
    }

    /// Parses an atom expression with possibly multiple repetitions, e.g. `E {3,} lazy ?`.
    pub fn parse_repeated(&mut self) -> (res: PResult<Option<Rule>>)
        requires
            old(self)@.wf(),
        ensures
            reaches(old(self)@, final(self)@),
            res is Ok ==> final(self)@.recursion == old(self)@.recursion,
            outcome(res, final(self)@, spec_repeated(old(self)@), |r| opt_rule(r)),
            res matches Ok(Some(_)) ==> advances(old(self)@, final(self)@),
            res matches Ok(None) ==> final(self)@ == old(self)@,
        decreases old(self)@.remaining(), 12nat,
    {
        if let Some(rule) = self.parse_atom()? {
            let mut rule = rule;
            let ghost s0 = self@;
            let ghost rule0 = rule@;
            loop
                invariant_except_break
                    reaches(old(self)@, self@),
                    self@.recursion == old(self)@.recursion,
                    advances(old(self)@, self@),
                    spec_atom(old(self)@) == Ok::<(Option<RuleModel>, PState), SErr>(
                        (Some(rule0), s0),
                    ),
                    spec_repetitions(s0, rule0) == spec_repetitions(self@, rule@),
                ensures
                    advances(old(self)@, self@),
                    self@.recursion == old(self)@.recursion,
                    spec_repetitions(s0, rule0) == Ok::<(RuleModel, PState), SErr>(
                        (rule@, self@),
                    ),
                decreases self@.remaining(),
            {
                match self.parse_repetition()? {
                    Some((kind, quantifier, span)) => {
                        let span = rule.span().join(span);
                        rule = Rule::Repetition(Box::new(Repetition::new(rule, kind, quantifier, span)));
                    },
                    None => break,
                }
            }

            Ok(Some(rule))
        } else {
            Ok(None)
        }
    }

    /// Parses an atom: a group, a string, a character set, a boundary, a reference, a
    /// code point, a range, a regex, a variable or the dot, tried in this order.
    pub fn parse_atom(&mut self) -> (res: PResult<Option<Rule>>)
        requires
            old(self)@.wf(),
        ensures
            reaches(old(self)@, final(self)@),
            res is Ok ==> final(self)@.recursion == old(self)@.recursion,
            outcome(res, final(self)@, spec_atom(old(self)@), |r| opt_rule(r)),
            res matches Ok(Some(_)) ==> advances(old(self)@, final(self)@),
            res matches Ok(None) ==> final(self)@ == old(self)@,
        decreases old(self)@.remaining(), 11nat,
    {
        reveal(spec_atom_rest);
        if let Some(r) = self.parse_group()? {
            return Ok(Some(r));
        }
        if let Some(r) = self.parse_string()? {
            return Ok(Some(r));
        }
        if let Some(r) = self.parse_char_set()? {
            return Ok(Some(r));
        }
        if let Some(r) = self.parse_boundary() {
            return Ok(Some(r));
        }
        if let Some(r) = self.parse_reference()? {
            return Ok(Some(r));
        }
        if let Some(r) = self.parse_code_point_rule()? {
            return Ok(Some(r));
        }
        if let Some(r) = self.parse_range()? {
            return Ok(Some(r));
        }
        if let Some(r) = self.parse_regex()? {
            return Ok(Some(r));
        }
        if let Some(r) = self.parse_variable() {
            return Ok(Some(r));
        }
        Ok(self.parse_dot())
    }

    /// Parses a (possibly capturing) group, e.g. `(E E | E)` or `:name(E)`.
    pub fn parse_group(&mut self) -> (res: PResult<Option<Rule>>)
        requires
            old(self)@.wf(),
        ensures
            reaches(old(self)@, final(self)@),
            res is Ok ==> final(self)@.recursion == old(self)@.recursion,
            outcome(res, final(self)@, spec_group(old(self)@), |r| opt_rule(r)),
            res matches Ok(Some(_)) ==> advances(old(self)@, final(self)@),
            res matches Ok(None) ==> final(self)@ == old(self)@,
        decreases old(self)@.remaining(), 10nat,
    {
        let (kind, start_span) = self.parse_group_kind();
        if !kind.is_normal() {
            self.expect(Token::OpenParen)?;
        } else if !self.consume(Token::OpenParen) {
            return Ok(None);
        }

        self.recursion_start()?;
        let rule = self.parse_modified()?;
        self.recursion_end();

        match self.expect(Token::CloseParen) {
            Ok(()) => {},
            Err(p) => {
                return Err(
                    ParseError { kind: ParseErrorKind::Expected("`)` or an expression"), span: p.span },
                )
            },
        }
        let span = start_span.join(self.last_span());

        let ghost inner = rule@;
        let parts = vec![rule];
        proof {
            lemma_rules_model(parts@);
        }
        assert(rules_model(parts@) =~= seq![inner]);
        Ok(Some(Rule::Group(Group::new(parts, kind, span))))
    }
}


/// The span of the name of the first `let` binding whose name an earlier one has.
fn find_duplicate_let(stmts: &Vec<(Stmt, Span)>) -> (r: Option<Span>)
    ensures
        r == first_duplicate_let(stmts_model(stmts@), 0),
{
    let ghost all = stmts_model(stmts@);
    proof {
        lemma_stmts_model(stmts@);
    }
    let mut i: usize = 0;
    while i < stmts.len()
        invariant
            all == stmts_model(stmts@),
            all.len() == stmts@.len(),
            forall|k: int| 0 <= k < stmts@.len() ==> #[trigger] all[k] == (stmt_model(stmts@[k].0), stmts@[k].1),
            i <= stmts@.len(),
            first_duplicate_let(all, 0) == first_duplicate_let(all, i as int),
        decreases stmts@.len() - i,
    {
        if let Stmt::Let(l) = &stmts[i].0 {
            let mut j: usize = 0;
            while j < i
                invariant
                    all == stmts_model(stmts@),
                    first_duplicate_let(all, 0) == first_duplicate_let(all, i as int),
                    all.len() == stmts@.len(),
                    forall|k: int| 0 <= k < stmts@.len() ==> #[trigger] all[k] == (stmt_model(stmts@[k].0), stmts@[k].1),
                    i < stmts@.len(),
                    j <= i,
                    stmts@[i as int].0 == Stmt::Let(*l),
                    forall|k: int| 0 <= k < j ==> #[trigger] let_name(all[k].0) != Some(l.name@),
                decreases i - j,
            {
                if let Stmt::Let(m) = &stmts[j].0 {
                    if str_eq(m.name(), l.name()) {
                        assert(let_name(all[j as int].0) == Some(l.name@));
                        assert(all[i as int].0 == stmt_model(Stmt::Let(*l)));
                        assert(first_duplicate_let(all, i as int) == Some(l.name_span));
                        return Some(l.name_span);
                    }
                }
                assert(let_name(all[j as int].0) != Some(l.name@));
                j = j + 1;
            }
            assert(!exists|k: int| 0 <= k < i && #[trigger] let_name(all[k].0) == Some(l.name@));
        }
        i = i + 1;
    }
    None
}

} // verus!
