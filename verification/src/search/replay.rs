//! Replaying a search: its batches are recorded one after the other while the search goes on.
use crate::number::{Real, EXACT};
use crate::search::mcts;
use crate::search::mcts::{Scores, ScoresView};
use crate::search::node::{NodeId, Outcome};
use crate::search::state;
use crate::search::state::{SearchState, StateView};
use vstd::prelude::*;

verus! {

/// Whether another batch is recorded: the first one always is.
pub open spec fn takes(search: StateView, gain: Real) -> bool {
    search.current_iteration == 0 || search.continues(gain)
}

/// The state and the parent that a batch is recorded with: the first one has none.
pub open spec fn prepared(search: StateView, scores: ScoresView) -> (StateView, Option<NodeId>) {
    if search.current_iteration == 0 {
        (search, None)
    } else {
        mcts::selected(search, scores)
    }
}

impl SearchState {
    /// Records the next batch under the parent that the search picks, and gives that parent; nothing
    /// is recorded once the search has stopped. `gain` is the last speedup of the history less the
    /// one before.
    pub fn replay(&mut self, gain: Real, scores: &Scores, outcomes: Vec<Outcome>) -> (taken: Result<
        Option<Option<NodeId>>,
        String,
    >)
        requires
            old(self)@.sound(),
            gain.ordered(),
            scores@.covers(old(self)@.nodes.len()),
            old(self).pw_gate_closures + old(self).nodes@.len() <= u64::MAX,
            old(self).virtual_child_wins < u64::MAX,
            old(self).root_expansions < u64::MAX,
            old(self).nodes@.len() + outcomes@.len() <= EXACT,
            old(self).nodes@.len() + outcomes@.len() <= usize::MAX,
            old(self).current_iteration < i64::MAX,
            old(self).current_iteration < usize::MAX,
        ensures
            final(self)@.sound(),
            ({
                let (ready, chosen) = prepared(old(self)@, scores@);
                let batch = state::outcomes_view(outcomes@);
                match taken {
                    Ok(None) => !takes(old(self)@, gain) && *final(self) == *old(self),
                    Ok(Some(parent)) => {
                        &&& takes(old(self)@, gain)
                        &&& parent == chosen
                        &&& state::batch_refusal(ready.nodes, parent, batch) is None
                        &&& final(self)@ == state::recorded(ready, parent, batch)
                    },
                    Err(error) => {
                        &&& takes(old(self)@, gain)
                        &&& state::batch_refusal(ready.nodes, chosen, batch) == Some(error@)
                        &&& final(self)@ == ready
                    },
                }
            }),
    {
        let first = self.current_iteration == 0;
        if !first && !self.should_continue(gain) {
            return Ok(None);
        }
        proof {
            mcts::selection_is_sound(self@, scores@);
            mcts::selection_keeps_nodes(self@, scores@);
        }
        let parent = if first {
            None
        } else {
            self.select(scores)
        };
        assert(self.nodes@.len() == self@.nodes.len());
        match self.record_batch(parent, outcomes) {
            Ok(_) => Ok(Some(parent)),
            Err(error) => Err(error),
        }
    }
}

} // verus!
