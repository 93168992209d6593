use vstd::prelude::*;

use std::collections::{HashMap, HashSet};

use crate::exprs::Rule;

verus! {

/// Whether repetitions are greedy or lazy when nothing else is said.
#[derive(Clone, Copy, Debug, PartialEq, Eq, Structural)]
pub enum RegexQuantifier {
    Greedy,
    Lazy,
}

/// The state of the compiler: the next group index, the names of the groups and their
/// indices, the number of groups, the default quantifier, the variables in scope, and
/// the variables being expanded (by their index in `variables`).
pub struct CompileState<'c, 'i> {
    pub next_idx: u32,
    pub used_names: HashMap<String, u32>,
    pub groups_count: u32,
    pub default_quantifier: RegexQuantifier,
    pub variables: Vec<(&'i str, &'c Rule)>,
    pub current_vars: HashSet<usize>,
}

impl<'c, 'i> CompileState<'c, 'i> {
    /// The state at the start of compiling: group indices start at 1, and no variable is
    /// being expanded.
    pub fn new(
        default_quantifier: RegexQuantifier,
        used_names: HashMap<String, u32>,
        groups_count: u32,
        variables: Vec<(&'i str, &'c Rule)>,
    ) -> (s: Self)
        ensures
            s.next_idx == 1,
            s.used_names@ == used_names@,
            s.groups_count == groups_count,
            s.default_quantifier == default_quantifier,
            s.variables@ == variables@,
            s.current_vars@ == Set::<usize>::empty(),
    {
        CompileState {
            next_idx: 1,
            used_names,
            groups_count,
            default_quantifier,
            variables,
            current_vars: HashSet::new(),
        }
    }
}

} // verus!
