//! The nodes of the search tree.
use crate::json;
use crate::json::{Json, JsonView};
use crate::number::Real;
use vstd::prelude::*;

verus! {

/// The number of a node: its place in the order of arrival.
pub type NodeId = usize;

/// The node that stands for no candidate.
pub const ROOT: NodeId = 0;

/// The rank of minus infinity.
pub const LOWEST: i64 = -0x7ff0_0000_0000_0000;

/// The rank of minus two.
pub const MINUS_TWO: i64 = -0x4000_0000_0000_0000;

/// The rank of minus three.
pub const MINUS_THREE: i64 = -0x4008_0000_0000_0000;

/// How an attempt ended.
#[derive(Clone, Copy, Debug, PartialEq, Eq, Structural)]
pub enum Status {
    Pending,
    Success,
    Failed,
    Discarded,
}

/// What evaluating a candidate showed.
pub struct Outcome {
    pub status: Status,
    pub speedup: Option<Real>,
    /// The natural logarithm of the speedup, or of a tenth where the speedup is smaller or absent.
    pub log: Real,
    pub error_context: Option<Json>,
}

/// The model of an [`Outcome`].
pub struct OutcomeView {
    pub status: Status,
    pub speedup: Option<Real>,
    pub log: Real,
    pub error_context: Option<JsonView>,
}

impl View for Outcome {
    type V = OutcomeView;

    open spec fn view(&self) -> OutcomeView {
        OutcomeView {
            status: self.status,
            speedup: self.speedup,
            log: self.log,
            error_context: json::optional(self.error_context),
        }
    }
}

impl OutcomeView {
    /// Why the outcome cannot be recorded, if it cannot.
    pub open spec fn refusal(self) -> Option<Seq<char>> {
        if self.status == Status::Pending {
            Some("cannot commit a pending outcome"@)
        } else if self.speedup matches Some(speedup) && !speedup.finite() {
            Some("speedup must be finite"@)
        } else if self.status == Status::Success && self.speedup is None {
            Some("success requires a measured speedup"@)
        } else if self.error_context matches Some(error) && !(error is Object) {
            Some("error_context must be an object"@)
        } else if self.error_context matches Some(error) && error.get("max_diff"@) matches Some(diff)
            && diff.reading() is None {
            Some("max_diff must be numeric"@)
        } else {
            None
        }
    }
}

impl Outcome {
    /// Refuses an outcome that cannot be recorded.
    pub fn validate(&self) -> (checked: Result<(), String>)
        ensures
            match checked {
                Ok(_) => self@.refusal() is None,
                Err(error) => self@.refusal() == Some(error@),
            },
    {
        if self.status == Status::Pending {
            return Err("cannot commit a pending outcome".to_owned());
        }
        if let Some(speedup) = self.speedup {
            if !speedup.is_finite() {
                return Err("speedup must be finite".to_owned());
            }
        }
        if self.status == Status::Success && self.speedup.is_none() {
            return Err("success requires a measured speedup".to_owned());
        }
        if let Some(error) = &self.error_context {
            if error.fields().is_none() {
                return Err("error_context must be an object".to_owned());
            }
            if let Some(diff) = error.get("max_diff") {
                if diff.reading().is_none() {
                    return Err("max_diff must be numeric".to_owned());
                }
            }
        }
        Ok(())
    }
}

impl Clone for Outcome {
    fn clone(&self) -> (copy: Self)
        ensures
            copy@ == self@,
    {
        Outcome {
            status: self.status,
            speedup: self.speedup,
            log: self.log,
            error_context: match &self.error_context {
                Some(error) => Some(error.clone()),
                None => None,
            },
        }
    }
}

/// A candidate in the tree.
pub struct Node {
    pub id: NodeId,
    pub name: String,
    pub iteration: i64,
    pub parent: Option<NodeId>,
    pub children: Vec<NodeId>,
    pub outcome: Outcome,
    pub visits: u64,
    /// The nodes whose rewards add up to this node's total, in the order of their addition.
    pub credits: Vec<NodeId>,
    pub terminal: bool,
}

/// The model of a [`Node`].
#[verifier::ext_equal]
pub struct NodeView {
    pub id: NodeId,
    pub name: Seq<char>,
    pub iteration: int,
    pub parent: Option<NodeId>,
    pub children: Seq<NodeId>,
    pub outcome: OutcomeView,
    pub visits: nat,
    pub credits: Seq<NodeId>,
    pub terminal: bool,
}

impl View for Node {
    type V = NodeView;

    open spec fn view(&self) -> NodeView {
        NodeView {
            id: self.id,
            name: self.name@,
            iteration: self.iteration as int,
            parent: self.parent,
            children: self.children@,
            outcome: self.outcome@,
            visits: self.visits as nat,
            credits: self.credits@,
            terminal: self.terminal,
        }
    }
}

impl NodeView {
    /// The measured speedup, or zero.
    pub open spec fn speedup(self) -> Real {
        match self.outcome.speedup {
            Some(speedup) => speedup,
            None => Real { rank: 0 },
        }
    }

    /// Whether the attempt succeeded.
    pub open spec fn successful(self) -> bool {
        self.outcome.status == Status::Success
    }

    /// Whether the attempt failed.
    pub open spec fn failed(self) -> bool {
        self.outcome.status == Status::Failed
    }

    /// What the node adds to the totals of itself and its ancestors.
    pub open spec fn mcts_reward(self) -> Real {
        if self.successful() {
            self.outcome.log
        } else if self.outcome.speedup is Some {
            Real { rank: MINUS_TWO }
        } else {
            Real { rank: MINUS_THREE }
        }
    }

    /// By what the node is compared with others for the best so far.
    pub open spec fn mcts_score(self) -> Real {
        if !self.successful() || self.speedup().rank == 0 {
            Real { rank: LOWEST }
        } else {
            self.outcome.log
        }
    }
}

impl Node {
    /// The measured speedup, or zero.
    pub fn speedup(&self) -> (speedup: Real)
        ensures
            speedup == self@.speedup(),
    {
        match self.outcome.speedup {
            Some(speedup) => speedup,
            None => Real { rank: 0 },
        }
    }

    /// Whether the attempt succeeded.
    pub fn successful(&self) -> (successful: bool)
        ensures
            successful == self@.successful(),
    {
        self.outcome.status == Status::Success
    }

    /// What the node adds to the totals of itself and its ancestors.
    pub fn mcts_reward(&self) -> (reward: Real)
        ensures
            reward == self@.mcts_reward(),
    {
        if self.successful() {
            self.outcome.log
        } else if self.outcome.speedup.is_some() {
            Real { rank: MINUS_TWO }
        } else {
            Real { rank: MINUS_THREE }
        }
    }

    /// By what the node is compared with others for the best so far.
    pub fn mcts_score(&self) -> (score: Real)
        ensures
            score == self@.mcts_score(),
    {
        if !self.successful() || self.speedup().rank == 0 {
            Real { rank: LOWEST }
        } else {
            self.outcome.log
        }
    }
}

} // verus!
