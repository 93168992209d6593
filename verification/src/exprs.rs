use vstd::prelude::*;

use crate::error::{ParseErrorKind, ParseErrorKindModel, RepetitionError};
use crate::range::Range;
use crate::span::{span_join, Span};

verus! {

/// A parsed expression.
#[derive(Debug, PartialEq, Eq)]
pub enum Rule {
    Literal(Literal),
    CharClass(CharClass),
    Group(Group),
    Alternation(Alternation),
    Repetition(Box<Repetition>),
    Boundary(Boundary),
    Lookaround(Box<Lookaround>),
    Variable(Variable),
    Reference(Reference),
    Range(Range),
    StmtExpr(Box<StmtExpr>),
    Regex(Regex),
}

/// A string literal, with its escapes resolved.
#[derive(Clone, Debug, PartialEq, Eq)]
pub struct Literal {
    pub content: String,
    pub span: Span,
}

/// A character set such as `['a'-'z' digit]`, possibly negated.
#[derive(Clone, Debug, PartialEq, Eq)]
pub struct CharClass {
    pub inner: CharGroup,
    pub negative: bool,
    pub span: Span,
}

/// The contents of a character set.
#[derive(Clone, Debug, PartialEq, Eq)]
pub enum CharGroup {
    /// `.`: any character but a line break.
    Dot,
    /// `codepoint`: any code point.
    CodePoint,
    /// A list of items.
    Items(Vec<GroupItem>),
}

/// An item of a character set.
#[derive(Clone, Copy, Debug, PartialEq, Eq, Structural)]
pub enum GroupItem {
    Char(char),
    Range { first: char, last: char },
    Named { name: GroupName, negative: bool },
}

/// A named character class.
#[derive(Clone, Copy, Debug, PartialEq, Eq, Structural)]
pub enum GroupName {
    Word,
    Digit,
    Space,
    HorizSpace,
    VertSpace,
}

/// A group of expressions in sequence.
#[derive(Debug, PartialEq, Eq)]
pub struct Group {
    pub parts: Vec<Rule>,
    pub kind: GroupKind,
    pub span: Span,
}

/// The kind of a group.
#[derive(Clone, Debug, PartialEq, Eq)]
pub enum GroupKind {
    /// A capturing group, `:(...)` or `:name(...)`.
    Capturing(Capture),
    /// An atomic group, `atomic(...)`.
    Atomic,
    /// A group in parentheses, `(...)`.
    Normal,
    /// A sequence of expressions without parentheses.
    Implicit,
}

/// The name of a capturing group, if it has one.
#[derive(Clone, Debug, PartialEq, Eq)]
pub struct Capture {
    pub name: Option<String>,
}

/// Alternatives, `a | b | c`.
#[derive(Debug, PartialEq, Eq)]
pub struct Alternation {
    pub rules: Vec<Rule>,
    pub span: Span,
}

/// An expression with a repetition, such as `a{2,5} lazy`.
#[derive(Debug, PartialEq, Eq)]
pub struct Repetition {
    pub rule: Rule,
    pub kind: RepetitionKind,
    pub quantifier: Quantifier,
    pub span: Span,
}

/// How often an expression may repeat: at least `lower_bound` times, and at most
/// `upper_bound` times where there is one.
#[derive(Clone, Copy, Debug, PartialEq, Eq, Structural)]
pub struct RepetitionKind {
    pub lower_bound: u32,
    pub upper_bound: Option<u32>,
}

/// Whether a repetition is greedy or lazy.
#[derive(Clone, Copy, Debug, PartialEq, Eq, Structural)]
pub enum Quantifier {
    Greedy,
    Lazy,
    Default,
}

/// A boundary: `^`, `$`, `%` or `!%`.
#[derive(Clone, Copy, Debug, PartialEq, Eq, Structural)]
pub struct Boundary {
    pub kind: BoundaryKind,
    pub span: Span,
}

#[derive(Clone, Copy, Debug, PartialEq, Eq, Structural)]
pub enum BoundaryKind {
    Start,
    End,
    Word,
    NotWord,
}

/// A lookahead or lookbehind, such as `>> 'a'` or `!<< 'b'`.
#[derive(Debug, PartialEq, Eq)]
pub struct Lookaround {
    pub rule: Rule,
    pub kind: LookaroundKind,
    pub span: Span,
}

#[derive(Clone, Copy, Debug, PartialEq, Eq, Structural)]
pub enum LookaroundKind {
    Ahead,
    Behind,
    AheadNegative,
    BehindNegative,
}

/// The use of a variable.
#[derive(Clone, Debug, PartialEq, Eq)]
pub struct Variable {
    pub name: String,
    pub span: Span,
}

/// A reference to a group: `::name`, `::3`, `::+3` or `::-3`.
#[derive(Clone, Debug, PartialEq, Eq)]
pub struct Reference {
    pub target: ReferenceTarget,
    pub span: Span,
}

#[derive(Clone, Debug, PartialEq, Eq)]
pub enum ReferenceTarget {
    Named(String),
    Number(u32),
    Relative(i32),
}

/// An expression preceded by a statement: `let x = ...; rule` or `enable lazy; rule`.
#[derive(Debug, PartialEq, Eq)]
pub struct StmtExpr {
    pub stmt: Stmt,
    pub rule: Rule,
    pub span: Span,
}

#[derive(Debug, PartialEq, Eq)]
pub enum Stmt {
    Enable(BooleanSetting),
    Disable(BooleanSetting),
    Let(Let),
}

#[derive(Clone, Copy, Debug, PartialEq, Eq, Structural)]
pub enum BooleanSetting {
    Lazy,
}

/// A variable declaration, `let name = rule;`.
#[derive(Debug, PartialEq, Eq)]
pub struct Let {
    pub name: String,
    pub rule: Rule,
    pub name_span: Span,
}

/// A regex that is used verbatim: `regex "[test]"`.
#[derive(Clone, Debug, PartialEq, Eq)]
pub struct Regex {
    pub content: String,
    pub span: Span,
}

// ----- The mathematical model of the expressions -----

/// What a `Rule` means: the same tree, with texts as sequences of characters.
pub enum RuleModel {
    Literal { content: Seq<char>, span: Span },
    CharClass { inner: CharGroupModel, negative: bool, span: Span },
    Group { parts: Seq<RuleModel>, kind: GroupKindModel, span: Span },
    Alternation { rules: Seq<RuleModel>, span: Span },
    Repetition {
        rule: Box<RuleModel>,
        kind: RepetitionKind,
        quantifier: Quantifier,
        span: Span,
    },
    Boundary { kind: BoundaryKind, span: Span },
    Lookaround { rule: Box<RuleModel>, kind: LookaroundKind, span: Span },
    Variable { name: Seq<char>, span: Span },
    Reference { target: ReferenceTargetModel, span: Span },
    Range { start: Seq<u8>, end: Seq<u8>, radix: u8, span: Span },
    StmtExpr { stmt: Box<StmtModel>, rule: Box<RuleModel>, span: Span },
    Regex { content: Seq<char>, span: Span },
}

pub enum CharGroupModel {
    Dot,
    CodePoint,
    Items(Seq<GroupItem>),
}

pub enum GroupKindModel {
    Capturing(Option<Seq<char>>),
    Atomic,
    Normal,
    Implicit,
}

pub enum ReferenceTargetModel {
    Named(Seq<char>),
    Number(u32),
    Relative(i32),
}

pub enum StmtModel {
    Enable(BooleanSetting),
    Disable(BooleanSetting),
    Let { name: Seq<char>, rule: RuleModel, name_span: Span },
}

impl View for CharGroup {
    type V = CharGroupModel;

    open spec fn view(&self) -> CharGroupModel {
        match self {
            CharGroup::Dot => CharGroupModel::Dot,
            CharGroup::CodePoint => CharGroupModel::CodePoint,
            CharGroup::Items(v) => CharGroupModel::Items(v@),
        }
    }
}

impl View for GroupKind {
    type V = GroupKindModel;

    open spec fn view(&self) -> GroupKindModel {
        match self {
            GroupKind::Capturing(c) => GroupKindModel::Capturing(
                match c.name {
                    Some(n) => Some(n@),
                    None => None,
                },
            ),
            GroupKind::Atomic => GroupKindModel::Atomic,
            GroupKind::Normal => GroupKindModel::Normal,
            GroupKind::Implicit => GroupKindModel::Implicit,
        }
    }
}

impl View for ReferenceTarget {
    type V = ReferenceTargetModel;

    open spec fn view(&self) -> ReferenceTargetModel {
        match self {
            ReferenceTarget::Named(n) => ReferenceTargetModel::Named(n@),
            ReferenceTarget::Number(n) => ReferenceTargetModel::Number(*n),
            ReferenceTarget::Relative(n) => ReferenceTargetModel::Relative(*n),
        }
    }
}

/// The model of a rule.
pub open spec fn rule_model(r: Rule) -> RuleModel
    decreases r,
{
    match r {
        Rule::Literal(l) => RuleModel::Literal { content: l.content@, span: l.span },
        Rule::CharClass(c) => RuleModel::CharClass {
            inner: c.inner@,
            negative: c.negative,
            span: c.span,
        },
        Rule::Group(g) => RuleModel::Group {
            parts: rules_model(g.parts@),
            kind: g.kind@,
            span: g.span,
        },
        Rule::Alternation(a) => RuleModel::Alternation { rules: rules_model(a.rules@), span: a.span },
        Rule::Repetition(r) => RuleModel::Repetition {
            rule: Box::new(rule_model(r.rule)),
            kind: r.kind,
            quantifier: r.quantifier,
            span: r.span,
        },
        Rule::Boundary(b) => RuleModel::Boundary { kind: b.kind, span: b.span },
        Rule::Lookaround(l) => RuleModel::Lookaround {
            rule: Box::new(rule_model(l.rule)),
            kind: l.kind,
            span: l.span,
        },
        Rule::Variable(v) => RuleModel::Variable { name: v.name@, span: v.span },
        Rule::Reference(r) => RuleModel::Reference { target: r.target@, span: r.span },
        Rule::Range(r) => RuleModel::Range {
            start: r.start@,
            end: r.end@,
            radix: r.radix,
            span: r.span,
        },
        Rule::StmtExpr(s) => RuleModel::StmtExpr {
            stmt: Box::new(stmt_model(s.stmt)),
            rule: Box::new(rule_model(s.rule)),
            span: s.span,
        },
        Rule::Regex(r) => RuleModel::Regex { content: r.content@, span: r.span },
    }
}

/// The models of a sequence of rules.
pub open spec fn rules_model(s: Seq<Rule>) -> Seq<RuleModel>
    decreases s,
{
    if s.len() == 0 {
        Seq::empty()
    } else {
        rules_model(s.drop_last()).push(rule_model(s.last()))
    }
}

/// The model of a statement.
pub open spec fn stmt_model(s: Stmt) -> StmtModel
    decreases s,
{
    match s {
        Stmt::Enable(b) => StmtModel::Enable(b),
        Stmt::Disable(b) => StmtModel::Disable(b),
        Stmt::Let(l) => StmtModel::Let {
            name: l.name@,
            rule: rule_model(l.rule),
            name_span: l.name_span,
        },
    }
}

/// The models of a sequence of statements with their spans.
pub open spec fn stmts_model(s: Seq<(Stmt, Span)>) -> Seq<(StmtModel, Span)>
    decreases s.len(),
{
    if s.len() == 0 {
        Seq::empty()
    } else {
        stmts_model(s.drop_last()).push((stmt_model(s.last().0), s.last().1))
    }
}

/// The models of a sequence of statements have the same length, and each is the model
/// of the statement at its place.
pub proof fn lemma_stmts_model(s: Seq<(Stmt, Span)>)
    ensures
        stmts_model(s).len() == s.len(),
        forall|i: int| 0 <= i < s.len() ==> #[trigger] stmts_model(s)[i] == (stmt_model(s[i].0), s[i].1),
    decreases s.len(),
{
    if s.len() > 0 {
        lemma_stmts_model(s.drop_last());
    }
}

/// The models of a sequence of character sets.
pub open spec fn groups_model(s: Seq<CharGroup>) -> Seq<CharGroupModel>
    decreases s.len(),
{
    if s.len() == 0 {
        Seq::empty()
    } else {
        groups_model(s.drop_last()).push(s.last()@)
    }
}

/// The models of a sequence of character sets have the same length, and each is the
/// model of the set at its place.
pub proof fn lemma_groups_model(s: Seq<CharGroup>)
    ensures
        groups_model(s).len() == s.len(),
        forall|i: int| 0 <= i < s.len() ==> #[trigger] groups_model(s)[i] == s[i]@,
    decreases s.len(),
{
    if s.len() > 0 {
        lemma_groups_model(s.drop_last());
    }
}

impl View for Rule {
    type V = RuleModel;

    open spec fn view(&self) -> RuleModel {
        rule_model(*self)
    }
}

impl View for Stmt {
    type V = StmtModel;

    open spec fn view(&self) -> StmtModel {
        stmt_model(*self)
    }
}

/// The models of a sequence of rules have the same length, and each is the model of the
/// rule at its place.
pub proof fn lemma_rules_model(s: Seq<Rule>)
    ensures
        rules_model(s).len() == s.len(),
        forall|i: int| 0 <= i < s.len() ==> #[trigger] rules_model(s)[i] == rule_model(s[i]),
    decreases s.len(),
{
    if s.len() > 0 {
        lemma_rules_model(s.drop_last());
    }
}

impl RuleModel {
    /// The span of a rule.
    pub open spec fn span(self) -> Span {
        match self {
            RuleModel::Literal { span, .. } => span,
            RuleModel::CharClass { span, .. } => span,
            RuleModel::Group { span, .. } => span,
            RuleModel::Alternation { span, .. } => span,
            RuleModel::Repetition { span, .. } => span,
            RuleModel::Boundary { span, .. } => span,
            RuleModel::Lookaround { span, .. } => span,
            RuleModel::Variable { span, .. } => span,
            RuleModel::Reference { span, .. } => span,
            RuleModel::Range { span, .. } => span,
            RuleModel::StmtExpr { span, .. } => span,
            RuleModel::Regex { span, .. } => span,
        }
    }

    /// What negating a rule with `!` gives: a character set, a word boundary or a
    /// lookaround is negated; a second negation, and the negation of anything else, is an
    /// error.
    pub open spec fn negated(self) -> Result<RuleModel, ParseErrorKindModel> {
        match self {
            RuleModel::CharClass { inner, negative, span } => if negative {
                Err(ParseErrorKindModel::UnallowedDoubleNot)
            } else {
                Ok(RuleModel::CharClass { inner, negative: true, span })
            },
            RuleModel::Boundary { kind, span } => match kind {
                BoundaryKind::Word => Ok(RuleModel::Boundary { kind: BoundaryKind::NotWord, span }),
                BoundaryKind::NotWord => Err(ParseErrorKindModel::UnallowedDoubleNot),
                _ => Err(ParseErrorKindModel::UnallowedNot),
            },
            RuleModel::Lookaround { rule, kind, span } => match kind {
                LookaroundKind::Ahead => Ok(
                    RuleModel::Lookaround { rule, kind: LookaroundKind::AheadNegative, span },
                ),
                LookaroundKind::Behind => Ok(
                    RuleModel::Lookaround { rule, kind: LookaroundKind::BehindNegative, span },
                ),
                _ => Err(ParseErrorKindModel::UnallowedDoubleNot),
            },
            _ => Err(ParseErrorKindModel::UnallowedNot),
        }
    }
}

impl Rule {
    /// The span of this rule.
    pub fn span(&self) -> (s: Span)
        ensures
            s == self@.span(),
    {
        match self {
            Rule::Literal(l) => l.span,
            Rule::CharClass(c) => c.span,
            Rule::Group(g) => g.span,
            Rule::Alternation(a) => a.span,
            Rule::Repetition(r) => r.span,
            Rule::Boundary(b) => b.span,
            Rule::Lookaround(l) => l.span,
            Rule::Variable(v) => v.span,
            Rule::Reference(r) => r.span,
            Rule::Range(r) => r.span,
            Rule::StmtExpr(s) => s.span,
            Rule::Regex(r) => r.span,
        }
    }

    /// Negates this rule, as `RuleModel::negated` says; on an error the rule is unchanged.
    pub fn negate(&mut self) -> (res: Result<(), ParseErrorKind>)
        ensures
            match old(self)@.negated() {
                Ok(r) => res is Ok && final(self)@ == r,
                Err(k) => res is Err && res->Err_0@ == k && final(self)@ == old(self)@,
            },
    {
        match self {
            Rule::CharClass(c) => {
                if c.negative {
                    Err(ParseErrorKind::UnallowedDoubleNot)
                } else {
                    c.negative = true;
                    Ok(())
                }
            },
            Rule::Boundary(b) => match b.kind {
                BoundaryKind::Word => {
                    b.kind = BoundaryKind::NotWord;
                    Ok(())
                },
                BoundaryKind::NotWord => Err(ParseErrorKind::UnallowedDoubleNot),
                _ => Err(ParseErrorKind::UnallowedNot),
            },
            Rule::Lookaround(l) => match l.kind {
                LookaroundKind::Ahead => {
                    l.kind = LookaroundKind::AheadNegative;
                    Ok(())
                },
                LookaroundKind::Behind => {
                    l.kind = LookaroundKind::BehindNegative;
                    Ok(())
                },
                _ => Err(ParseErrorKind::UnallowedDoubleNot),
            },
            _ => Err(ParseErrorKind::UnallowedNot),
        }
    }
}

} // verus!

verus! {

/// The model of an alternation of the given rules: its span reaches from the first
/// alternative to the last, and is empty when there is none.
pub open spec fn alternation_model(rules: Seq<RuleModel>) -> RuleModel {
    RuleModel::Alternation {
        rules,
        span: if rules.len() == 0 {
            Span { start: 0, end: 0 }
        } else {
            span_join(rules[0].span(), rules.last().span())
        },
    }
}

impl Literal {
    pub fn new(content: String, span: Span) -> (l: Literal)
        ensures
            l.content@ == content@,
            l.span == span,
    {
        Literal { content, span }
    }
}

impl CharClass {
    /// A character set that is not negated.
    pub fn new(inner: CharGroup, span: Span) -> (c: CharClass)
        ensures
            c.inner@ == inner@,
            !c.negative,
            c.span == span,
    {
        CharClass { inner, negative: false, span }
    }
}

impl Group {
    pub fn new(parts: Vec<Rule>, kind: GroupKind, span: Span) -> (g: Group)
        ensures
            g.parts@ == parts@,
            g.kind@ == kind@,
            g.span == span,
    {
        Group { parts, kind, span }
    }
}

impl GroupKind {
    pub fn is_normal(&self) -> (b: bool)
        ensures
            b == (self@ is Normal),
    {
        match self {
            GroupKind::Normal => true,
            _ => false,
        }
    }
}

impl Capture {
    pub fn new(name: Option<String>) -> (c: Capture)
        ensures
            match name {
                Some(n) => c.name is Some && c.name->0@ == n@,
                None => c.name is None,
            },
    {
        match name {
            Some(n) => Capture { name: Some(n) },
            None => Capture { name: None },
        }
    }
}

impl Alternation {
    /// An alternation of the given rules.
    pub fn new_expr(rules: Vec<Rule>) -> (r: Rule)
        ensures
            r@ == alternation_model(rules_model(rules@)),
    {
        proof {
            lemma_rules_model(rules@);
        }
        let span = if rules.len() == 0 {
            Span { start: 0, end: 0 }
        } else {
            rules[0].span().join(rules[rules.len() - 1].span())
        };
        Rule::Alternation(Alternation { rules, span })
    }
}

impl Repetition {
    pub fn new(rule: Rule, kind: RepetitionKind, quantifier: Quantifier, span: Span) -> (r: Repetition)
        ensures
            r.rule@ == rule@,
            r.kind == kind,
            r.quantifier == quantifier,
            r.span == span,
    {
        Repetition { rule, kind, quantifier, span }
    }
}

impl RepetitionKind {
    /// `+`: once or more.
    pub fn one_inf() -> (k: RepetitionKind)
        ensures
            k == (RepetitionKind { lower_bound: 1, upper_bound: None }),
    {
        RepetitionKind { lower_bound: 1, upper_bound: None }
    }

    /// `*`: any number of times.
    pub fn zero_inf() -> (k: RepetitionKind)
        ensures
            k == (RepetitionKind { lower_bound: 0, upper_bound: None }),
    {
        RepetitionKind { lower_bound: 0, upper_bound: None }
    }

    /// `?`: at most once.
    pub fn zero_one() -> (k: RepetitionKind)
        ensures
            k == (RepetitionKind { lower_bound: 0, upper_bound: Some(1) }),
    {
        RepetitionKind { lower_bound: 0, upper_bound: Some(1) }
    }

    /// `{n}`: exactly `n` times.
    pub fn fixed(n: u32) -> (k: RepetitionKind)
        ensures
            k == (RepetitionKind { lower_bound: n, upper_bound: Some(n) }),
    {
        RepetitionKind { lower_bound: n, upper_bound: Some(n) }
    }

    /// `{lower,upper}` or `{lower,}`: fails when the upper bound is below the lower one.
    pub fn try_from_bounds(lower: u32, upper: Option<u32>) -> (k: Result<RepetitionKind, RepetitionError>)
        ensures
            k == repetition_bounds(lower, upper),
    {
        match upper {
            Some(u) if u < lower => Err(RepetitionError::NotAscending),
            _ => Ok(RepetitionKind { lower_bound: lower, upper_bound: upper }),
        }
    }
}

/// The repetition between the given bounds, or the error when they descend.
pub open spec fn repetition_bounds(lower: u32, upper: Option<u32>) -> Result<RepetitionKind, RepetitionError> {
    match upper {
        Some(u) => if u < lower {
            Err(RepetitionError::NotAscending)
        } else {
            Ok(RepetitionKind { lower_bound: lower, upper_bound: upper })
        },
        None => Ok(RepetitionKind { lower_bound: lower, upper_bound: upper }),
    }
}

impl Boundary {
    pub fn new(kind: BoundaryKind, span: Span) -> (b: Boundary)
        ensures
            b == (Boundary { kind, span }),
    {
        Boundary { kind, span }
    }
}

impl Lookaround {
    pub fn new(rule: Rule, kind: LookaroundKind, span: Span) -> (l: Lookaround)
        ensures
            l.rule@ == rule@,
            l.kind == kind,
            l.span == span,
    {
        Lookaround { rule, kind, span }
    }
}

impl Variable {
    pub fn new(name: &str, span: Span) -> (v: Variable)
        ensures
            v.name@ == name@,
            v.span == span,
    {
        Variable { name: name.to_owned(), span }
    }
}

impl Reference {
    pub fn new(target: ReferenceTarget, span: Span) -> (r: Reference)
        ensures
            r.target@ == target@,
            r.span == span,
    {
        Reference { target, span }
    }
}

impl Regex {
    pub fn new(content: String, span: Span) -> (r: Regex)
        ensures
            r.content@ == content@,
            r.span == span,
    {
        Regex { content, span }
    }
}

impl StmtExpr {
    pub fn new(stmt: Stmt, rule: Rule, span: Span) -> (s: StmtExpr)
        ensures
            s.stmt@ == stmt@,
            s.rule@ == rule@,
            s.span == span,
    {
        StmtExpr { stmt, rule, span }
    }
}

impl Let {
    pub fn new(name: &str, rule: Rule, name_span: Span) -> (l: Let)
        ensures
            l.name@ == name@,
            l.rule@ == rule@,
            l.name_span == name_span,
    {
        Let { name: name.to_owned(), rule, name_span }
    }

    pub fn name(&self) -> (n: &str)
        ensures
            n@ == self.name@,
    {
        self.name.as_str()
    }
}

} // verus!
