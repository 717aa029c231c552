//! The state of a search.
use crate::number::{Real, EXACT};
use crate::search::config::{SearchConfig, Strategy};
use crate::search::node::{Node, NodeId, NodeView, Outcome, OutcomeView, Status, ROOT};
use crate::search::order;
use crate::search::tree;
use vstd::prelude::*;

verus! {

/// The rank of a tenth.
pub const TENTH: i64 = 0x3fb9_9999_9999_999a;

/// A search: its tree, and what the rules remember between batches.
pub struct SearchState {
    pub strategy: Strategy,
    pub config: SearchConfig,
    pub nodes: Vec<Node>,
    pub current_iteration: usize,
    pub current_best: Option<NodeId>,
    pub consecutive_failures: usize,
    pub speedup_history: Vec<Real>,
    pub root_expansions: u64,
    pub pw_gate_closures: u64,
    pub virtual_child_wins: u64,
}

/// The model of a [`SearchState`].
#[verifier::ext_equal]
pub struct StateView {
    pub strategy: Strategy,
    pub config: SearchConfig,
    pub nodes: Seq<NodeView>,
    pub current_iteration: nat,
    pub current_best: Option<NodeId>,
    pub consecutive_failures: nat,
    pub speedup_history: Seq<Real>,
    pub root_expansions: nat,
    pub pw_gate_closures: nat,
    pub virtual_child_wins: nat,
}

impl View for SearchState {
    type V = StateView;

    open spec fn view(&self) -> StateView {
        StateView {
            strategy: self.strategy,
            config: self.config,
            nodes: tree::nodes_view(self.nodes@),
            current_iteration: self.current_iteration as nat,
            current_best: self.current_best,
            consecutive_failures: self.consecutive_failures as nat,
            speedup_history: self.speedup_history@,
            root_expansions: self.root_expansions as nat,
            pw_gate_closures: self.pw_gate_closures as nat,
            virtual_child_wins: self.virtual_child_wins as nat,
        }
    }
}

/// The models of outcomes.
pub open spec fn outcomes_view(outcomes: Seq<Outcome>) -> Seq<OutcomeView> {
    Seq::new(outcomes.len(), |i: int| outcomes[i]@)
}

/// Why the first outcome that cannot be recorded cannot, if there is one.
pub open spec fn first_refusal(outcomes: Seq<OutcomeView>) -> Option<Seq<char>>
    decreases outcomes.len(),
{
    if outcomes.len() == 0 {
        None
    } else if outcomes[0].refusal() is Some {
        outcomes[0].refusal()
    } else {
        first_refusal(outcomes.skip(1))
    }
}

/// Why a batch cannot be recorded, if it cannot.
pub open spec fn batch_refusal(
    nodes: Seq<NodeView>,
    parent: Option<NodeId>,
    outcomes: Seq<OutcomeView>,
) -> Option<Seq<char>> {
    if parent matches Some(parent) && !(ROOT < parent < nodes.len()) {
        Some("invalid parent"@)
    } else {
        first_refusal(outcomes)
    }
}

/// By what successful nodes are compared under a strategy.
pub open spec fn score_of(strategy: Strategy, node: NodeView) -> int {
    match strategy {
        Strategy::Greedy => node.speedup().rank as int,
        Strategy::Mcts => node.mcts_score().rank as int,
    }
}

/// The score of a node, by its id.
pub open spec fn scores(strategy: Strategy, nodes: Seq<NodeView>) -> spec_fn(NodeId) -> int {
    |id: NodeId| score_of(strategy, nodes[id as int])
}

/// The speedup of a node, by its id.
pub open spec fn speedups(nodes: Seq<NodeView>) -> spec_fn(NodeId) -> int {
    |id: NodeId| nodes[id as int].speedup().rank as int
}

/// The successful nodes from `first` up to `end`.
pub open spec fn successes(nodes: Seq<NodeView>, first: int, end: int) -> Seq<NodeId>
    decreases end - first,
{
    if end <= first {
        Seq::empty()
    } else {
        let before = successes(nodes, first, end - 1);
        if nodes[end - 1].successful() {
            before.push((end - 1) as usize)
        } else {
            before
        }
    }
}

/// The successful nodes but for the root.
pub open spec fn all_successes(nodes: Seq<NodeView>) -> Seq<NodeId> {
    successes(nodes, 1, nodes.len() as int)
}

/// The best node of all, by score: the first with the highest.
pub open spec fn best_of_all(strategy: Strategy, nodes: Seq<NodeView>) -> Option<NodeId> {
    order::first_best(all_successes(nodes), order::higher(scores(strategy, nodes)))
}

/// The state after a batch that is not refused.
pub open spec fn recorded(
    state: StateView,
    parent: Option<NodeId>,
    outcomes: Seq<OutcomeView>,
) -> StateView {
    let nodes = tree::grown(
        state.strategy,
        state.nodes,
        state.current_iteration,
        parent,
        outcomes,
    );
    let batch_best = order::first_best(
        successes(nodes, state.nodes.len() as int, nodes.len() as int),
        order::higher(scores(state.strategy, nodes)),
    );
    StateView {
        nodes,
        current_iteration: state.current_iteration + 1,
        current_best: match (batch_best, state.current_best) {
            (Some(best), Some(old)) => if score_of(state.strategy, nodes[best as int]) > score_of(
                state.strategy,
                nodes[old as int],
            ) {
                Some(best)
            } else {
                Some(old)
            },
            (Some(best), None) => Some(best),
            (None, old) => old,
        },
        consecutive_failures: match batch_best {
            Some(_) => 0,
            None => state.consecutive_failures + 1,
        },
        speedup_history: match batch_best {
            Some(best) => if state.strategy == Strategy::Greedy {
                state.speedup_history.push(nodes[best as int].speedup())
            } else {
                state.speedup_history
            },
            None => state.speedup_history,
        },
        ..state
    }
}

impl StateView {
    /// What holds of every search.
    pub open spec fn sound(self) -> bool {
        &&& self.config.valid()
        &&& tree::well_formed(self.strategy, self.nodes)
        &&& self.nodes.len() <= EXACT
        &&& self.nodes.len() <= usize::MAX
        &&& self.nodes[0].outcome.status == Status::Pending
        &&& forall|i: int|
            0 < i < self.nodes.len() ==> {
                &&& (#[trigger] self.nodes[i]).outcome.refusal() is None
                &&& 0 <= self.nodes[i].iteration < self.current_iteration
            }
        &&& self.current_best == best_of_all(self.strategy, self.nodes)
        &&& self.consecutive_failures <= self.current_iteration
        &&& self.speedup_history.len() + self.consecutive_failures <= self.current_iteration
        &&& self.strategy == Strategy::Mcts ==> self.speedup_history.len() == 0
        &&& forall|i: int|
            0 <= i < self.speedup_history.len() ==> (#[trigger] self.speedup_history[i]).finite()
    }

    /// The state before the first batch.
    pub open spec fn initial(strategy: Strategy, config: SearchConfig) -> StateView {
        StateView {
            strategy,
            config,
            nodes: seq![
                NodeView {
                    id: ROOT,
                    name: "ROOT"@,
                    iteration: -1,
                    parent: None,
                    children: Seq::empty(),
                    outcome: OutcomeView {
                        status: Status::Pending,
                        speedup: None,
                        log: Real { rank: 0 },
                        error_context: None,
                    },
                    visits: 0,
                    credits: Seq::empty(),
                    terminal: false,
                },
            ],
            current_iteration: 0,
            current_best: None,
            consecutive_failures: 0,
            speedup_history: Seq::empty(),
            root_expansions: 0,
            pw_gate_closures: 0,
            virtual_child_wins: 0,
        }
    }

    /// Whether the search goes on, where `gain` is the last speedup of the history less the one
    /// before.
    pub open spec fn continues(self, gain: Real) -> bool {
        let limit = match self.config.max_iterations {
            Some(limit) => limit as int,
            None => if self.strategy == Strategy::Greedy {
                3
            } else {
                10
            },
        };
        let threshold = match self.config.speedup_threshold {
            Some(threshold) => threshold.rank,
            None => TENTH,
        };
        &&& self.current_iteration < limit
        &&& self.strategy == Strategy::Greedy && self.speedup_history.len() >= 2 ==> gain.rank
            >= threshold
    }

    /// The first of the successful nodes with the highest speedup.
    pub open spec fn winner(self) -> Option<NodeId> {
        order::first_best(all_successes(self.nodes), order::higher(speedups(self.nodes)))
    }
}

impl SearchState {
    /// A search before its first batch.
    pub fn new(strategy: Strategy, config: SearchConfig) -> (made: Result<Self, String>)
        ensures
            made is Ok <==> config.valid(),
            match made {
                Ok(search) => search@ == StateView::initial(strategy, config) && search@.sound(),
                Err(error) => error@ == "search parameters must be finite"@,
            },
    {
        match config.validate() {
            Err(error) => Err(error),
            Ok(_) => {
                let mut nodes: Vec<Node> = Vec::new();
                nodes.push(
                    Node {
                        id: ROOT,
                        name: "ROOT".to_owned(),
                        iteration: -1,
                        parent: None,
                        children: Vec::new(),
                        outcome: Outcome {
                            status: Status::Pending,
                            speedup: None,
                            log: Real { rank: 0 },
                            error_context: None,
                        },
                        visits: 0,
                        credits: Vec::new(),
                        terminal: false,
                    },
                );
                let search = SearchState {
                    strategy,
                    config,
                    nodes,
                    current_iteration: 0,
                    current_best: None,
                    consecutive_failures: 0,
                    speedup_history: Vec::new(),
                    root_expansions: 0,
                    pw_gate_closures: 0,
                    virtual_child_wins: 0,
                };
                proof {
                    let initial = StateView::initial(strategy, config);
                    assert(search@.nodes =~= initial.nodes);
                    assert(search@ =~= initial);
                    assert(tree::offspring(initial.nodes, 0, 0) =~= Seq::<NodeId>::empty());
                    assert(tree::offspring(initial.nodes, 0, 1) =~= Seq::<NodeId>::empty());
                    assert(tree::lineage(initial.nodes, 0, 1) =~= Seq::<NodeId>::empty());
                    assert(tree::node_formed(strategy, initial.nodes, 0));
                    assert(all_successes(initial.nodes) =~= Seq::<NodeId>::empty());
                }
                Ok(search)
            },
        }
    }

    /// Whether the search goes on, where `gain` is the last speedup of the history less the one
    /// before.
    pub fn should_continue(&self, gain: Real) -> (goes_on: bool)
        requires
            gain.ordered(),
        ensures
            goes_on == self@.continues(gain),
    {
        if self.current_iteration >= self.config.max_iterations(self.strategy) {
            return false;
        }
        if self.strategy == Strategy::Greedy && self.speedup_history.len() >= 2 {
            let threshold: i64 = match self.config.speedup_threshold {
                Some(threshold) => threshold.rank,
                None => TENTH,
            };
            if gain.rank < threshold {
                return false;
            }
        }
        true
    }

    /// The first of the successful nodes with the highest speedup.
    pub fn winner(&self) -> (best: Option<NodeId>)
        requires
            self@.sound(),
        ensures
            best == self@.winner(),
    {
        let ghost nodes = self@.nodes;
        let ghost better = order::higher(speedups(nodes));
        let mut best: Option<NodeId> = None;
        let mut id: usize = 1;
        while id < self.nodes.len()
            invariant
                1 <= id <= self.nodes@.len(),
                nodes == self@.nodes,
                better == order::higher(speedups(nodes)),
                best == order::first_best(successes(nodes, 1, id as int), better),
                best matches Some(best) ==> best < self.nodes@.len(),
            decreases self.nodes@.len() - id,
        {
            if self.nodes[id].successful() {
                let replaces = match best {
                    None => true,
                    Some(old) => self.nodes[id].speedup().rank > self.nodes[old].speedup().rank,
                };
                proof {
                    order::first_best_push(successes(nodes, 1, id as int), id, better);
                }
                if replaces {
                    best = Some(id);
                }
            }
            id += 1;
        }
        best
    }

    /// By what a node is compared with others for the best so far.
    pub fn score(&self, id: NodeId) -> (score: Real)
        requires
            id < self.nodes@.len(),
        ensures
            score.rank == score_of(self.strategy, self@.nodes[id as int]),
    {
        match self.strategy {
            Strategy::Greedy => self.nodes[id].speedup(),
            Strategy::Mcts => self.nodes[id].mcts_score(),
        }
    }
}

/// The winner has the highest speedup of all successful nodes, and no earlier one has as high a
/// speedup; there is one as soon as an attempt has succeeded.
pub proof fn winner_is_fastest(search: StateView)
    requires
        search.sound(),
    ensures
        search.winner() is None <==> forall|i: int|
            0 < i < search.nodes.len() ==> !(#[trigger] search.nodes[i]).successful(),
        search.winner() matches Some(best) ==> {
            &&& 0 < best < search.nodes.len()
            &&& search.nodes[best as int].successful()
            &&& forall|i: int|
                0 < i < search.nodes.len() && (#[trigger] search.nodes[i]).successful() ==> {
                    &&& search.nodes[i].speedup().rank <= search.nodes[best as int].speedup().rank
                    &&& i < best ==> search.nodes[i].speedup().rank
                        < search.nodes[best as int].speedup().rank
                }
        },
{
    lemma_best_success(search.nodes, speedups(search.nodes));
}

/// The best so far has the highest score of all successful nodes, and no earlier one has as high a
/// score.
pub proof fn current_best_is_highest(search: StateView)
    requires
        search.sound(),
    ensures
        search.current_best is None <==> forall|i: int|
            0 < i < search.nodes.len() ==> !(#[trigger] search.nodes[i]).successful(),
        search.current_best matches Some(best) ==> {
            &&& 0 < best < search.nodes.len()
            &&& search.nodes[best as int].successful()
            &&& forall|i: int|
                0 < i < search.nodes.len() && (#[trigger] search.nodes[i]).successful() ==> {
                    &&& score_of(search.strategy, search.nodes[i]) <= score_of(
                        search.strategy,
                        search.nodes[best as int],
                    )
                    &&& i < best ==> score_of(search.strategy, search.nodes[i]) < score_of(
                        search.strategy,
                        search.nodes[best as int],
                    )
                }
        },
{
    lemma_best_success(search.nodes, scores(search.strategy, search.nodes));
}

/// Under the greedy strategy the best so far is the winner.
pub proof fn greedy_best_is_winner(search: StateView)
    requires
        search.sound(),
        search.strategy == Strategy::Greedy,
    ensures
        search.current_best == search.winner(),
{
    assert(scores(search.strategy, search.nodes) =~= speedups(search.nodes));
}

/// The successes hold every successful node but the root, in order.
proof fn lemma_successes_complete(nodes: Seq<NodeView>, end: int)
    requires
        1 <= end <= nodes.len() <= usize::MAX,
    ensures
        forall|i: int|
            0 <= i < successes(nodes, 1, end).len() ==> {
                let id = #[trigger] successes(nodes, 1, end)[i];
                1 <= id < end && nodes[id as int].successful()
            },
        forall|i: int, j: int|
            0 <= i < j < successes(nodes, 1, end).len() ==> #[trigger] successes(nodes, 1, end)[i]
                < #[trigger] successes(nodes, 1, end)[j],
        forall|id: int|
            1 <= id < end && (#[trigger] nodes[id]).successful() ==> successes(
                nodes,
                1,
                end,
            ).contains(id as usize),
    decreases end,
{
    if end > 1 {
        lemma_successes_complete(nodes, end - 1);
        let before = successes(nodes, 1, end - 1);
        let all = successes(nodes, 1, end);
        assert forall|i: int| 0 <= i < all.len() implies {
            let id = #[trigger] all[i];
            1 <= id < end && nodes[id as int].successful()
        } by {
            if i < before.len() {
                assert(all[i] == before[i]);
            }
        }
        assert forall|i: int, j: int| 0 <= i < j < all.len() implies #[trigger] all[i]
            < #[trigger] all[j] by {
            assert(all[i] == before[i]);
            if j < before.len() {
                assert(all[j] == before[j]);
            }
        }
        assert forall|id: int| 1 <= id < end && (#[trigger] nodes[id]).successful() implies all.contains(
            id as usize,
        ) by {
            if id < end - 1 {
                let i = choose|i: int| 0 <= i < before.len() && before[i] == id as usize;
                assert(all[i] == id as usize);
            } else {
                assert(all[before.len() as int] == id as usize);
            }
        }
    }
}

proof fn lemma_best_success(nodes: Seq<NodeView>, score: spec_fn(NodeId) -> int)
    requires
        1 <= nodes.len() <= usize::MAX,
    ensures
        order::first_best(all_successes(nodes), order::higher(score)) is None <==> forall|i: int|
            0 < i < nodes.len() ==> !(#[trigger] nodes[i]).successful(),
        order::first_best(all_successes(nodes), order::higher(score)) matches Some(best) ==> {
            &&& 0 < best < nodes.len()
            &&& nodes[best as int].successful()
            &&& forall|i: int|
                0 < i < nodes.len() && (#[trigger] nodes[i]).successful() ==> {
                    &&& score(i as usize) <= score(best)
                    &&& i < best ==> score(i as usize) < score(best)
                }
        },
{
    let all = all_successes(nodes);
    lemma_successes_complete(nodes, nodes.len() as int);
    order::first_best_is_highest(all, score);
    match order::first_best(all, order::higher(score)) {
        None => {},
        Some(best) => {
            let place = choose|place: int|
                {
                    &&& 0 <= place < all.len()
                    &&& #[trigger] all[place] == best
                    &&& forall|i: int| 0 <= i < place ==> score(#[trigger] all[i]) < score(best)
                };
            assert forall|i: int| 0 < i < nodes.len() && (#[trigger] nodes[i]).successful() implies {
                &&& score(i as usize) <= score(best)
                &&& i < best ==> score(i as usize) < score(best)
            } by {
                let at = choose|at: int| 0 <= at < all.len() && all[at] == i as usize;
                if i < best && at >= place {
                    assert(all[place] <= all[at]);
                }
            }
        },
    }
}

} // verus!
