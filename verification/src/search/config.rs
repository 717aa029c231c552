//! How a search is set up.
use crate::number::Real;
use vstd::prelude::*;

verus! {

/// How the next parent is picked.
#[derive(Clone, Copy, Debug, PartialEq, Eq, Structural)]
pub enum Strategy {
    Greedy,
    Mcts,
}

impl Default for Strategy {
    fn default() -> (strategy: Self)
        ensures
            strategy == Strategy::Greedy,
    {
        Strategy::Greedy
    }
}

/// The limits and weights of a search; what is left out has a default.
#[derive(Clone, Copy, Debug, PartialEq, Eq, Structural)]
pub struct SearchConfig {
    pub max_iterations: Option<usize>,
    pub num_candidates: Option<usize>,
    pub max_consecutive_failures: Option<usize>,
    pub speedup_threshold: Option<Real>,
    pub use_recent_failed_only: Option<bool>,
    pub exploration_constant: Option<Real>,
    pub pw_alpha: Option<Real>,
    pub pw_c_root: Option<Real>,
    pub pw_c_repair: Option<Real>,
    pub pw_c_optimize: Option<Real>,
    pub max_children_per_node: Option<usize>,
}

impl Default for SearchConfig {
    fn default() -> (config: Self)
        ensures
            config == unset(),
    {
        SearchConfig {
            max_iterations: None,
            num_candidates: None,
            max_consecutive_failures: None,
            speedup_threshold: None,
            use_recent_failed_only: None,
            exploration_constant: None,
            pw_alpha: None,
            pw_c_root: None,
            pw_c_repair: None,
            pw_c_optimize: None,
            max_children_per_node: None,
        }
    }
}

/// A set-up that leaves everything out.
pub open spec fn unset() -> SearchConfig {
    SearchConfig {
        max_iterations: None,
        num_candidates: None,
        max_consecutive_failures: None,
        speedup_threshold: None,
        use_recent_failed_only: None,
        exploration_constant: None,
        pw_alpha: None,
        pw_c_root: None,
        pw_c_repair: None,
        pw_c_optimize: None,
        max_children_per_node: None,
    }
}

/// Whether a number is left out or finite.
pub open spec fn finite_if_given(number: Option<Real>) -> bool {
    match number {
        Some(number) => number.finite(),
        None => true,
    }
}

fn is_finite_if_given(number: Option<Real>) -> (finite: bool)
    ensures
        finite == finite_if_given(number),
{
    match number {
        Some(number) => number.is_finite(),
        None => true,
    }
}

impl SearchConfig {
    /// Whether every number that is given is finite.
    pub open spec fn valid(self) -> bool {
        &&& finite_if_given(self.speedup_threshold)
        &&& finite_if_given(self.exploration_constant)
        &&& finite_if_given(self.pw_alpha)
        &&& finite_if_given(self.pw_c_root)
        &&& finite_if_given(self.pw_c_repair)
        &&& finite_if_given(self.pw_c_optimize)
    }

    /// The number of batches after which the search stops.
    pub fn max_iterations(&self, strategy: Strategy) -> (limit: usize)
        ensures
            limit == (match self.max_iterations {
                Some(limit) => limit,
                None => if strategy == Strategy::Greedy {
                    3
                } else {
                    10
                },
            }),
    {
        match self.max_iterations {
            Some(limit) => limit,
            None => match strategy {
                Strategy::Greedy => 3,
                Strategy::Mcts => 10,
            },
        }
    }

    /// The number of candidates in a batch.
    pub fn num_candidates(&self) -> (count: usize)
        ensures
            count == (match self.num_candidates {
                Some(count) => count,
                None => 2,
            }),
    {
        match self.num_candidates {
            Some(count) => count,
            None => 2,
        }
    }

    /// Refuses a number that is not finite.
    pub fn validate(&self) -> (checked: Result<(), String>)
        ensures
            checked is Ok <==> self.valid(),
            checked matches Err(error) ==> error@ == "search parameters must be finite"@,
    {
        if is_finite_if_given(self.speedup_threshold) && is_finite_if_given(
            self.exploration_constant,
        ) && is_finite_if_given(self.pw_alpha) && is_finite_if_given(self.pw_c_root)
            && is_finite_if_given(self.pw_c_repair) && is_finite_if_given(self.pw_c_optimize) {
            Ok(())
        } else {
            Err("search parameters must be finite".to_owned())
        }
    }
}

} // verus!
