//! Picking a parent greedily: the best so far, or the failure that is nearest to working.
use crate::json::JsonView;
use crate::search::node::{Node, NodeId, NodeView, Status};
use crate::search::order;
use crate::search::state;
use crate::search::state::{SearchState, StateView};
use crate::text::one_of;
use vstd::prelude::*;

verus! {

/// The rank of two.
pub const TWO: i64 = 0x4000_0000_0000_0000;

/// How near a failure is to working.
pub struct Priority {
    /// How far the candidate came.
    pub stage: i128,
    /// The rank of the largest deviation from the expected output, negated.
    pub closeness: i128,
    /// The rank of the speedup, of two where it is larger.
    pub speed: i128,
}

/// The stage that an error shows.
pub open spec fn stage_of(error_type: Option<Seq<char>>) -> int {
    match error_type {
        None => 0,
        Some(name) => if name == "correctness_error"@ {
            3
        } else if name == "RuntimeError"@ || name == "CudaError"@ || name == "execution_error"@ || name
            == "cuda_compile_runtime_error"@ {
            2
        } else if name == "SyntaxError"@ || name == "ImportError"@ {
            1
        } else {
            0
        },
    }
}

/// The text of a field, if there is one.
pub open spec fn field_text(value: JsonView, key: Seq<char>) -> Option<Seq<char>> {
    match value.get(key) {
        Some(found) => found.text(),
        None => None,
    }
}

/// How near a failure is to working.
pub open spec fn priority_of(node: NodeView) -> Priority {
    match node.outcome.error_context {
        None => Priority { stage: 0, closeness: 0, speed: 0 },
        Some(error) => if error matches JsonView::Object(fields) && fields.len() == 0 {
            Priority { stage: 0, closeness: 0, speed: 0 }
        } else {
            Priority {
                stage: stage_of(field_text(error, "error_type"@)) as i128,
                closeness: match error.at("max_diff"@).reading() {
                    Some(diff) => -diff.value.rank as i128,
                    None => 0,
                },
                speed: if node.speedup().rank < TWO {
                    node.speedup().rank as i128
                } else {
                    TWO as i128
                },
            }
        },
    }
}

/// Whether one failure is nearer to working than another.
pub open spec fn nearer(left: Priority, right: Priority) -> bool {
    ||| left.stage > right.stage
    ||| left.stage == right.stage && left.closeness > right.closeness
    ||| left.stage == right.stage && left.closeness == right.closeness && left.speed > right.speed
}

/// Whether one node is nearer to working than another, by their ids.
pub open spec fn nearer_nodes(nodes: Seq<NodeView>) -> spec_fn(NodeId, NodeId) -> bool {
    |left: NodeId, right: NodeId|
        nearer(priority_of(nodes[left as int]), priority_of(nodes[right as int]))
}

/// The iteration of the latest of the nodes up to `end` but for the root.
pub open spec fn latest(nodes: Seq<NodeView>, end: int) -> Option<int>
    decreases end,
{
    if end <= 1 {
        None
    } else {
        match latest(nodes, end - 1) {
            None => Some(nodes[end - 1].iteration),
            Some(before) => if nodes[end - 1].iteration > before {
                Some(nodes[end - 1].iteration)
            } else {
                Some(before)
            },
        }
    }
}

/// The failed nodes up to `end`, of one iteration only if one is given.
pub open spec fn failures(nodes: Seq<NodeView>, iteration: Option<int>, end: int) -> Seq<NodeId>
    decreases end,
{
    if end <= 1 {
        Seq::empty()
    } else {
        let before = failures(nodes, iteration, end - 1);
        if nodes[end - 1].failed() && (iteration matches Some(wanted) ==> nodes[end - 1].iteration
            == wanted) {
            before.push((end - 1) as usize)
        } else {
            before
        }
    }
}

/// Whether only the failures of the latest iteration are tried again.
pub open spec fn recent_only(search: StateView) -> bool {
    match search.config.use_recent_failed_only {
        Some(only) => only,
        None => true,
    }
}

/// The parent that the greedy strategy picks.
pub open spec fn greedy_choice(search: StateView) -> Option<NodeId> {
    let patience = match search.config.max_consecutive_failures {
        Some(limit) => limit as int,
        None => 2,
    };
    if search.current_iteration == 0 || search.consecutive_failures >= patience {
        None
    } else if search.current_best is Some {
        search.current_best
    } else {
        let end = search.nodes.len() as int;
        let iteration = if recent_only(search) {
            latest(search.nodes, end)
        } else {
            None
        };
        order::first_best(failures(search.nodes, iteration, end), nearer_nodes(search.nodes))
    }
}

/// The stage that an error shows.
fn stage(error_type: Option<&str>) -> (stage: i128)
    ensures
        stage == stage_of(match error_type {
            Some(name) => Some(name@),
            None => None,
        }),
{
    match error_type {
        None => 0,
        Some(name) => if one_of(name, &["correctness_error"]) {
            3
        } else if one_of(
            name,
            &["RuntimeError", "CudaError", "execution_error", "cuda_compile_runtime_error"],
        ) {
            2
        } else if one_of(name, &["SyntaxError", "ImportError"]) {
            1
        } else {
            0
        },
    }
}

/// How near a failure is to working.
pub fn priority(node: &Node) -> (priority: Priority)
    ensures
        priority == priority_of(node@),
{
    match &node.outcome.error_context {
        None => Priority { stage: 0, closeness: 0, speed: 0 },
        Some(error) => {
            if let Some(fields) = error.fields() {
                if fields.len() == 0 {
                    return Priority { stage: 0, closeness: 0, speed: 0 };
                }
            }
            let stage: i128 = match error.get("error_type") {
                Some(found) => stage(found.text()),
                None => 0,
            };
            let closeness: i128 = match error.at("max_diff").reading() {
                Some(diff) => -(diff.value.rank as i128),
                None => 0,
            };
            let speed: i64 = node.speedup().rank;
            Priority {
                stage,
                closeness,
                speed: if speed < TWO {
                    speed as i128
                } else {
                    TWO as i128
                },
            }
        },
    }
}

fn is_nearer(left: &Priority, right: &Priority) -> (found: bool)
    ensures
        found == nearer(*left, *right),
{
    if left.stage != right.stage {
        left.stage > right.stage
    } else if left.closeness != right.closeness {
        left.closeness > right.closeness
    } else {
        left.speed > right.speed
    }
}

impl SearchState {
    /// The iteration of the latest node but for the root.
    fn latest_iteration(&self) -> (iteration: Option<i64>)
        requires
            self@.sound(),
        ensures
            match iteration {
                Some(iteration) => latest(self@.nodes, self@.nodes.len() as int) == Some(
                    iteration as int,
                ),
                None => latest(self@.nodes, self@.nodes.len() as int) is None,
            },
    {
        let ghost nodes = self@.nodes;
        assert(nodes.len() == self.nodes@.len());
        let mut found: Option<i64> = None;
        let mut id: usize = 1;
        while id < self.nodes.len()
            invariant
                1 <= id <= self.nodes@.len(),
                nodes == self@.nodes,
                match found {
                    Some(iteration) => latest(nodes, id as int) == Some(iteration as int),
                    None => latest(nodes, id as int) is None,
                },
            decreases self.nodes@.len() - id,
        {
            let iteration: i64 = self.nodes[id].iteration;
            assert(nodes[id as int].iteration == iteration);
            found = match found {
                None => Some(iteration),
                Some(before) => if iteration > before {
                    Some(iteration)
                } else {
                    Some(before)
                },
            };
            id += 1;
        }
        found
    }

    /// The best so far, or the failure that is nearest to working; nothing at the start and after
    /// too many failures in a row.
    pub fn select_greedy(&self) -> (chosen: Option<NodeId>)
        requires
            self@.sound(),
        ensures
            chosen == greedy_choice(self@),
    {
        let patience: usize = match self.config.max_consecutive_failures {
            Some(limit) => limit,
            None => 2,
        };
        if self.current_iteration == 0 || self.consecutive_failures >= patience {
            return None;
        }
        proof {
            state::current_best_is_highest(self@);
        }
        if let Some(best) = self.current_best {
            if self.nodes[best].successful() {
                return Some(best);
            }
        }
        let ghost nodes = self@.nodes;
        assert(nodes.len() == self.nodes@.len());
        let ghost better = nearer_nodes(nodes);
        let recent = match self.config.use_recent_failed_only {
            Some(only) => only,
            None => true,
        };
        let newest = self.latest_iteration();
        let ghost iteration = if recent {
            latest(nodes, nodes.len() as int)
        } else {
            None
        };
        let mut best: Option<NodeId> = None;
        let mut id: usize = 1;
        while id < self.nodes.len()
            invariant
                1 <= id <= self.nodes@.len(),
                nodes == self@.nodes,
                better == nearer_nodes(nodes),
                recent ==> match newest {
                    Some(newest) => iteration == Some(newest as int),
                    None => iteration is None,
                },
                newest is Some || nodes.len() <= 1,
                !recent ==> iteration is None,
                best == order::first_best(failures(nodes, iteration, id as int), better),
                best matches Some(best) ==> best < self.nodes@.len(),
            decreases self.nodes@.len() - id,
        {
            let skipped = self.nodes[id].outcome.status != Status::Failed || (recent
                && match newest {
                Some(newest) => self.nodes[id].iteration != newest,
                None => true,
            });
            if !skipped {
                let replaces = match best {
                    None => true,
                    Some(old) => is_nearer(&priority(&self.nodes[id]), &priority(&self.nodes[old])),
                };
                proof {
                    order::first_best_push(failures(nodes, iteration, id as int), id, better);
                }
                if replaces {
                    best = Some(id);
                }
            }
            id += 1;
        }
        best
    }
}

/// At the start, and after as many batches without a success as the set-up allows, the greedy
/// strategy starts afresh; else the best so far is the parent if there is one, and a parent that
/// is not has failed, in the latest iteration unless older failures count too.
pub proof fn greedy_parent_is_best_or_failed(search: StateView)
    requires
        search.sound(),
        greedy_choice(search) is Some,
    ensures
        ({
            let parent = greedy_choice(search)->Some_0;
            &&& search.current_iteration > 0
            &&& 0 < parent < search.nodes.len()
            &&& search.current_best is Some ==> greedy_choice(search) == search.current_best
            &&& search.current_best is None ==> search.nodes[parent as int].failed() && (recent_only(
                search,
            ) ==> forall|i: int|
                0 < i < search.nodes.len() ==> (#[trigger] search.nodes[i]).iteration
                    <= search.nodes[parent as int].iteration)
        }),
{
    let nodes = search.nodes;
    let end = nodes.len() as int;
    state::current_best_is_highest(search);
    if search.current_best is None {
        let iteration = if recent_only(search) {
            latest(nodes, end)
        } else {
            None
        };
        lemma_failures(nodes, iteration, end);
        lemma_latest(nodes, end);
        order::first_best_is_listed(failures(nodes, iteration, end), nearer_nodes(nodes));
    }
}

proof fn lemma_failures(nodes: Seq<NodeView>, iteration: Option<int>, end: int)
    requires
        end <= nodes.len() <= usize::MAX,
    ensures
        forall|id: usize|
            #[trigger] failures(nodes, iteration, end).contains(id) ==> {
                &&& 1 <= id < end
                &&& nodes[id as int].failed()
                &&& iteration matches Some(wanted) ==> nodes[id as int].iteration == wanted
            },
    decreases end,
{
    if end > 1 {
        lemma_failures(nodes, iteration, end - 1);
        let before = failures(nodes, iteration, end - 1);
        assert forall|id: usize| #[trigger] failures(nodes, iteration, end).contains(id) implies {
            &&& 1 <= id < end
            &&& nodes[id as int].failed()
            &&& iteration matches Some(wanted) ==> nodes[id as int].iteration == wanted
        } by {
            let all = failures(nodes, iteration, end);
            let i = choose|i: int| 0 <= i < all.len() && all[i] == id;
            if i < before.len() {
                assert(before[i] == id);
                assert(before.contains(id));
            }
        }
    }
}

proof fn lemma_latest(nodes: Seq<NodeView>, end: int)
    requires
        end <= nodes.len(),
    ensures
        latest(nodes, end) is None <==> end <= 1,
        latest(nodes, end) matches Some(newest) ==> forall|i: int|
            0 < i < end ==> (#[trigger] nodes[i]).iteration <= newest,
    decreases end,
{
    if end > 1 {
        lemma_latest(nodes, end - 1);
    }
}

} // verus!
