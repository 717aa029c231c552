//! Picking a parent by descending the tree.
use crate::number;
use crate::number::{integer_rank, Real, INFINITE};
use crate::search::config::{SearchConfig, Strategy};
use crate::search::greedy;
use crate::search::node::{NodeId, NodeView, ROOT};
use crate::search::order;
use crate::search::record;
use crate::search::state;
use crate::search::state::{SearchState, StateView};
use crate::search::tree;
use vstd::prelude::*;

verus! {

/// What is worked out from the visits and rewards of the nodes, for each node by its id.
///
/// With `v` visits, `r` the sum of the rewards of the node's credits and `n` children:
pub struct Scores {
    /// `r / v`, and where the parent has visits `V` in addition the exploration constant (1.414)
    /// times the square root of `ln V / v`.
    pub uct: Vec<Real>,
    /// `r / v` and the exploration constant times the square root of `ln v / max(v / (n + 1), 1)`.
    pub virtual_uct: Vec<Real>,
    /// `v` to the power of `pw_alpha` (0.5) times the widening factor of the node: `pw_c_root` (2)
    /// at the root, `pw_c_repair` (2) where the node failed, else `pw_c_optimize` (3).
    pub width: Vec<Real>,
}

/// The model of [`Scores`].
pub struct ScoresView {
    pub uct: Seq<Real>,
    pub virtual_uct: Seq<Real>,
    pub width: Seq<Real>,
}

impl View for Scores {
    type V = ScoresView;

    open spec fn view(&self) -> ScoresView {
        ScoresView { uct: self.uct@, virtual_uct: self.virtual_uct@, width: self.width@ }
    }
}

impl ScoresView {
    /// Whether there are scores for `count` nodes, and those that are compared can be.
    pub open spec fn covers(self, count: nat) -> bool {
        &&& self.uct.len() == count
        &&& self.virtual_uct.len() == count
        &&& self.width.len() == count
        &&& forall|i: int| 0 <= i < count ==> (#[trigger] self.uct[i]).ordered()
        &&& forall|i: int| 0 <= i < count ==> (#[trigger] self.virtual_uct[i]).ordered()
    }
}

fn all_ordered(list: &Vec<Real>) -> (ordered: bool)
    ensures
        ordered == forall|i: int| 0 <= i < list@.len() ==> (#[trigger] list@[i]).ordered(),
{
    let mut index: usize = 0;
    while index < list.len()
        invariant
            index <= list@.len(),
            forall|i: int| 0 <= i < index ==> (#[trigger] list@[i]).ordered(),
        decreases list@.len() - index,
    {
        if !list[index].is_ordered() {
            assert(!list@[index as int].ordered());
            return false;
        }
        index += 1;
    }
    true
}

impl Scores {
    /// Whether there are scores for `count` nodes, and those that are compared can be.
    pub fn cover(&self, count: usize) -> (covers: bool)
        ensures
            covers == self@.covers(count as nat),
    {
        self.uct.len() == count && self.virtual_uct.len() == count && self.width.len() == count
            && all_ordered(&self.uct) && all_ordered(&self.virtual_uct)
    }
}

/// The score of a child: infinite before its first visit.
pub open spec fn uct(nodes: Seq<NodeView>, scores: ScoresView) -> spec_fn(NodeId) -> int {
    |id: NodeId|
        if nodes[id as int].visits == 0 {
            INFINITE as int
        } else {
            scores.uct[id as int].rank as int
        }
}

/// The score of a child that does not exist yet: infinite before the first visit of its parent.
pub open spec fn virtual_uct(nodes: Seq<NodeView>, scores: ScoresView, id: NodeId) -> int {
    if nodes[id as int].visits == 0 {
        INFINITE as int
    } else {
        scores.virtual_uct[id as int].rank as int
    }
}

/// Whether another child fits below a node: the first one always; else one more than there are
/// must not exceed the width, nor the cap where one is set.
pub open spec fn has_room(
    config: SearchConfig,
    nodes: Seq<NodeView>,
    scores: ScoresView,
    id: NodeId,
) -> bool {
    let count = nodes[id as int].children.len();
    let width = scores.width[id as int];
    &&& count == 0 || (width.rank <= INFINITE && number::rank_of_integer(count as int + 1) <= width.rank)
    &&& config.max_children_per_node matches Some(cap) ==> cap == 0 || count < cap
}

/// The children of a node that are no dead ends, of the first `end`.
pub open spec fn open_children(nodes: Seq<NodeView>, id: NodeId, end: int) -> Seq<NodeId>
    decreases end,
{
    if end <= 0 {
        Seq::empty()
    } else {
        let before = open_children(nodes, id, end - 1);
        let child = nodes[id as int].children[end - 1];
        if nodes[child as int].terminal {
            before
        } else {
            before.push(child)
        }
    }
}

/// The child to descend to: the first of those with the highest score that are no dead ends.
pub open spec fn best_child(nodes: Seq<NodeView>, scores: ScoresView, id: NodeId) -> Option<NodeId> {
    order::first_best(
        open_children(nodes, id, nodes[id as int].children.len() as int),
        order::higher(uct(nodes, scores)),
    )
}

/// Where a descent ends.
pub enum Stop {
    /// At a node without children.
    Leaf(NodeId),
    /// At a node where a new child is worth more than the best one.
    NewChild(NodeId),
    /// At a node whose children are all dead ends.
    DeadEnd(NodeId),
}

/// A descent: where it ends, and at how many nodes on the way no other child fitted.
pub struct Descent {
    pub stop: Stop,
    pub closures: nat,
}

/// The descent from `id`.
pub open spec fn descent(
    config: SearchConfig,
    nodes: Seq<NodeView>,
    scores: ScoresView,
    id: NodeId,
) -> Descent
    decreases nodes.len() - id,
{
    if nodes[id as int].children.len() == 0 {
        Descent { stop: Stop::Leaf(id), closures: 0 }
    } else {
        match best_child(nodes, scores, id) {
            None => Descent { stop: Stop::DeadEnd(id), closures: 0 },
            Some(child) => if has_room(config, nodes, scores, id) && virtual_uct(nodes, scores, id)
                > uct(nodes, scores)(child) {
                Descent { stop: Stop::NewChild(id), closures: 0 }
            } else if id < child < nodes.len() {
                let rest = descent(config, nodes, scores, child);
                if has_room(config, nodes, scores, id) {
                    rest
                } else {
                    Descent { closures: rest.closures + 1, ..rest }
                }
            } else {
                Descent { stop: Stop::Leaf(child), closures: 0 }
            },
        }
    }
}

/// The state after a descent from the root, and the parent that it picks: none at the root and at
/// a dead end, which is marked.
pub open spec fn descended(search: StateView, scores: ScoresView) -> (StateView, Option<NodeId>) {
    let way = descent(search.config, search.nodes, scores, ROOT);
    let counted = StateView { pw_gate_closures: search.pw_gate_closures + way.closures, ..search };
    match way.stop {
        Stop::DeadEnd(id) => (
            StateView {
                nodes: search.nodes.update(
                    id as int,
                    NodeView { terminal: true, ..search.nodes[id as int] },
                ),
                ..counted
            },
            None,
        ),
        Stop::Leaf(id) => arrived(counted, id),
        Stop::NewChild(id) => arrived(
            StateView { virtual_child_wins: search.virtual_child_wins + 1, ..counted },
            id,
        ),
    }
}

/// The state and the parent when a descent has ended at a node.
pub open spec fn arrived(search: StateView, id: NodeId) -> (StateView, Option<NodeId>) {
    if id == ROOT {
        (StateView { root_expansions: search.root_expansions + 1, ..search }, None)
    } else {
        (search, Some(id))
    }
}

/// The state and the parent that a strategy picks.
pub open spec fn selected(search: StateView, scores: ScoresView) -> (StateView, Option<NodeId>) {
    match search.strategy {
        Strategy::Greedy => (search, greedy::greedy_choice(search)),
        Strategy::Mcts => descended(search, scores),
    }
}

/// Every child of a node comes after it.
proof fn lemma_children(search: StateView, id: NodeId)
    requires
        search.sound(),
        id < search.nodes.len(),
    ensures
        forall|i: int|
            0 <= i < search.nodes[id as int].children.len() ==> id < (
            #[trigger] search.nodes[id as int].children[i]) < search.nodes.len(),
        search.nodes[id as int].children.len() < search.nodes.len(),
{
    let nodes = search.nodes;
    assert(tree::node_formed(search.strategy, nodes, id as int));
    tree::lemma_offspring(nodes, id as int, nodes.len() as int);
    assert forall|i: int| 0 <= i < nodes[id as int].children.len() implies id < (
    #[trigger] nodes[id as int].children[i]) < nodes.len() by {
        let child = nodes[id as int].children[i];
        assert(tree::node_formed(search.strategy, nodes, child as int));
    }
    lemma_offspring_len(search.strategy, nodes, id as int, nodes.len() as int);
}

proof fn lemma_offspring_len(strategy: Strategy, nodes: Seq<NodeView>, id: int, count: int)
    requires
        tree::well_formed(strategy, nodes),
        1 <= count <= nodes.len(),
    ensures
        tree::offspring(nodes, id, count).len() < count,
    decreases count,
{
    if count > 1 {
        lemma_offspring_len(strategy, nodes, id, count - 1);
    } else {
        assert(tree::offspring(nodes, id, 0).len() == 0);
    }
}

proof fn lemma_open_children(nodes: Seq<NodeView>, id: NodeId, end: int)
    requires
        end <= nodes[id as int].children.len(),
    ensures
        forall|child: NodeId|
            #[trigger] open_children(nodes, id, end).contains(child) ==> {
                &&& nodes[id as int].children.contains(child)
                &&& !nodes[child as int].terminal
            },
    decreases end,
{
    if end > 0 {
        lemma_open_children(nodes, id, end - 1);
        let before = open_children(nodes, id, end - 1);
        let all = open_children(nodes, id, end);
        assert forall|child: NodeId| #[trigger] all.contains(child) implies {
            &&& nodes[id as int].children.contains(child)
            &&& !nodes[child as int].terminal
        } by {
            let i = choose|i: int| 0 <= i < all.len() && all[i] == child;
            if i < before.len() {
                assert(before[i] == child);
                assert(before.contains(child));
            } else {
                assert(nodes[id as int].children[end - 1] == child);
            }
        }
    }
}

impl SearchState {
    /// Whether another child fits below a node.
    pub fn can_add_child(&self, id: NodeId, scores: &Scores) -> (fits: bool)
        requires
            self@.sound(),
            scores@.covers(self@.nodes.len()),
            id < self.nodes@.len(),
        ensures
            fits == has_room(self.config, self@.nodes, scores@, id),
    {
        proof {
            lemma_children(self@, id);
        }
        let ghost children = self@.nodes[id as int].children;
        let children: usize = self.nodes[id].children.len();
        if let Some(cap) = self.config.max_children_per_node {
            if cap > 0 && children >= cap {
                return false;
            }
        }
        let width: i64 = scores.width[id].rank;
        children == 0 || (width <= INFINITE && integer_rank(children as u64 + 1) <= width)
    }

    /// The score of a child: infinite before its first visit.
    pub fn uct(&self, id: NodeId, scores: &Scores) -> (score: Real)
        requires
            scores@.covers(self@.nodes.len()),
            id < self.nodes@.len(),
        ensures
            score.rank == uct(self@.nodes, scores@)(id),
    {
        if self.nodes[id].visits == 0 {
            Real { rank: INFINITE }
        } else {
            scores.uct[id]
        }
    }

    /// The score of a child that does not exist yet: infinite before the first visit of its parent.
    pub fn virtual_uct(&self, id: NodeId, scores: &Scores) -> (score: Real)
        requires
            scores@.covers(self@.nodes.len()),
            id < self.nodes@.len(),
        ensures
            score.rank == virtual_uct(self@.nodes, scores@, id),
    {
        if self.nodes[id].visits == 0 {
            Real { rank: INFINITE }
        } else {
            scores.virtual_uct[id]
        }
    }

    /// The child to descend to.
    fn best_child(&self, id: NodeId, scores: &Scores) -> (best: Option<NodeId>)
        requires
            self@.sound(),
            scores@.covers(self@.nodes.len()),
            id < self.nodes@.len(),
        ensures
            best == best_child(self@.nodes, scores@, id),
            best matches Some(best) ==> id < best < self.nodes@.len(),
    {
        let ghost nodes = self@.nodes;
        let ghost children = nodes[id as int].children;
        let ghost better = order::higher(uct(nodes, scores@));
        proof {
            lemma_children(self@, id);
        }
        let mut best: Option<NodeId> = None;
        let mut index: usize = 0;
        while index < self.nodes[id].children.len()
            invariant
                nodes == self@.nodes,
                nodes.len() == self.nodes@.len(),
                id < nodes.len(),
                scores@.covers(nodes.len()),
                children == nodes[id as int].children,
                children == self.nodes@[id as int].children@,
                better == order::higher(uct(nodes, scores@)),
                index <= children.len(),
                forall|i: int| 0 <= i < children.len() ==> id < (#[trigger] children[i]) < nodes.len(),
                best == order::first_best(open_children(nodes, id, index as int), better),
                best matches Some(best) ==> id < best < nodes.len(),
            decreases children.len() - index,
        {
            let child: usize = self.nodes[id].children[index];
            assert(child == children[index as int]);
            if !self.nodes[child].terminal {
                let replaces = match best {
                    None => true,
                    Some(old) => self.uct(child, scores).rank > self.uct(old, scores).rank,
                };
                proof {
                    order::first_best_push(open_children(nodes, id, index as int), child, better);
                }
                if replaces {
                    best = Some(child);
                }
            }
            index += 1;
        }
        best
    }

    /// Descends from the root to the node to expand; none is picked at the root, nor where all
    /// children are dead ends, which makes their parent one.
    pub fn select_mcts(&mut self, scores: &Scores) -> (chosen: Option<NodeId>)
        requires
            old(self)@.sound(),
            scores@.covers(old(self)@.nodes.len()),
            old(self).pw_gate_closures + old(self).nodes@.len() <= u64::MAX,
            old(self).virtual_child_wins < u64::MAX,
            old(self).root_expansions < u64::MAX,
        ensures
            (final(self)@, chosen) == descended(old(self)@, scores@),
    {
        let ghost before = self@;
        let ghost way = descent(before.config, before.nodes, scores@, ROOT);
        let ghost nodes = before.nodes;
        let mut id: usize = ROOT;
        let mut wins = false;
        assert(nodes.len() == self.nodes@.len());
        loop
            invariant_except_break
                !wins,
                before == old(self)@,
                before.sound(),
                nodes == before.nodes,
                nodes.len() == self.nodes@.len(),
                scores@.covers(nodes.len()),
                way == descent(before.config, nodes, scores@, ROOT),
                before.pw_gate_closures + nodes.len() <= u64::MAX,
                before.virtual_child_wins < u64::MAX,
                id < nodes.len(),
                before.pw_gate_closures <= self.pw_gate_closures <= before.pw_gate_closures + id,
                self@ == (StateView { pw_gate_closures: self@.pw_gate_closures, ..before }),
                way.stop == descent(before.config, nodes, scores@, id).stop,
                before.pw_gate_closures + way.closures == self.pw_gate_closures + descent(
                    before.config,
                    nodes,
                    scores@,
                    id,
                ).closures,
            ensures
                before == old(self)@,
                way == descent(before.config, before.nodes, scores@, ROOT),
                self@ == (StateView {
                    pw_gate_closures: before.pw_gate_closures + way.closures,
                    virtual_child_wins: before.virtual_child_wins + (if wins {
                        1nat
                    } else {
                        0
                    }),
                    ..before
                }),
                way.stop == (if wins {
                    Stop::NewChild(id)
                } else {
                    Stop::Leaf(id)
                }),
            decreases nodes.len() - id,
        {
            assert(nodes[id as int].children == self.nodes@[id as int].children@);
            if self.nodes[id].children.len() == 0 {
                break;
            }
            match self.best_child(id, scores) {
                None => {
                    self.nodes[id].terminal = true;
                    assert(self@.nodes =~= nodes.update(
                        id as int,
                        NodeView { terminal: true, ..nodes[id as int] },
                    ));
                    assert(self@ =~= descended(before, scores@).0);
                    return None;
                },
                Some(child) => {
                    if self.can_add_child(id, scores) {
                        if self.virtual_uct(id, scores).rank > self.uct(child, scores).rank {
                            self.virtual_child_wins = self.virtual_child_wins + 1;
                            wins = true;
                            break;
                        }
                    } else {
                        self.pw_gate_closures = self.pw_gate_closures + 1;
                    }
                    id = child;
                },
            }
        }
        if id == ROOT {
            self.root_expansions = self.root_expansions + 1;
            assert(self@ =~= descended(before, scores@).0);
            None
        } else {
            assert(self@ =~= descended(before, scores@).0);
            Some(id)
        }
    }

    /// Picks the parent of the next batch.
    pub fn select(&mut self, scores: &Scores) -> (chosen: Option<NodeId>)
        requires
            old(self)@.sound(),
            scores@.covers(old(self)@.nodes.len()),
            old(self).pw_gate_closures + old(self).nodes@.len() <= u64::MAX,
            old(self).virtual_child_wins < u64::MAX,
            old(self).root_expansions < u64::MAX,
        ensures
            (final(self)@, chosen) == selected(old(self)@, scores@),
    {
        match self.strategy {
            Strategy::Greedy => self.select_greedy(),
            Strategy::Mcts => self.select_mcts(scores),
        }
    }
}

/// Where a descent from `id` ends: at a node of the tree, not before `id`, which is no dead end
/// unless the descent began there; at a dead end every child is one.
proof fn lemma_descent(search: StateView, scores: ScoresView, id: NodeId)
    requires
        search.sound(),
        id < search.nodes.len(),
    ensures
        match descent(search.config, search.nodes, scores, id).stop {
            Stop::Leaf(end) => id <= end < search.nodes.len() && (end == id
                || !search.nodes[end as int].terminal) && search.nodes[end as int].children.len() == 0,
            Stop::NewChild(end) => id <= end < search.nodes.len() && (end == id
                || !search.nodes[end as int].terminal) && has_room(
                search.config,
                search.nodes,
                scores,
                end,
            ),
            Stop::DeadEnd(end) => id <= end < search.nodes.len() && (end == id
                || !search.nodes[end as int].terminal) && search.nodes[end as int].children.len() > 0
                && forall|i: int|
                0 <= i < search.nodes[end as int].children.len() ==> (
                #[trigger] search.nodes[search.nodes[end as int].children[i] as int]).terminal,
        },
    decreases search.nodes.len() - id,
{
    let nodes = search.nodes;
    let children = nodes[id as int].children;
    if children.len() > 0 {
        lemma_children(search, id);
        let open = open_children(nodes, id, children.len() as int);
        order::first_best_is_listed(open, order::higher(uct(nodes, scores)));
        lemma_open_children(nodes, id, children.len() as int);
        match best_child(nodes, scores, id) {
            None => {
                lemma_all_dead(nodes, id, children.len() as int);
            },
            Some(child) => {
                let i = choose|i: int| 0 <= i < children.len() && children[i] == child;
                assert(id < children[i] < nodes.len());
                lemma_descent(search, scores, child);
            },
        }
    }
}

proof fn lemma_all_dead(nodes: Seq<NodeView>, id: NodeId, end: int)
    requires
        0 <= end <= nodes[id as int].children.len(),
        open_children(nodes, id, end).len() == 0,
    ensures
        forall|i: int|
            0 <= i < end ==> (#[trigger] nodes[nodes[id as int].children[i] as int]).terminal,
    decreases end,
{
    if end > 0 {
        lemma_all_dead(nodes, id, end - 1);
    }
}

/// Picking a parent leaves a sound search sound, and the parent is one that a batch can be
/// recorded for.
pub proof fn selection_is_sound(search: StateView, scores: ScoresView)
    requires
        search.sound(),
        scores.covers(search.nodes.len()),
    ensures
        selected(search, scores).0.sound(),
        selected(search, scores).1 matches Some(parent) ==> ROOT < parent < search.nodes.len(),
{
    match search.strategy {
        Strategy::Greedy => {
            if greedy::greedy_choice(search) is Some {
                greedy::greedy_parent_is_best_or_failed(search);
            }
        },
        Strategy::Mcts => {
            lemma_descent(search, scores, ROOT);
            let after = descended(search, scores).0;
            if let Stop::DeadEnd(id) = descent(search.config, search.nodes, scores, ROOT).stop {
                tree::mark_is_well_formed(search.strategy, search.nodes, id as int);
                let nodes = search.nodes;
                let end = nodes.len() as int;
                assert forall|i: int| 0 <= i < nodes.len() implies (
                #[trigger] after.nodes[i]).outcome == (#[trigger] nodes[i]).outcome by {}
                record::lemma_successes_same(nodes, after.nodes, 1, end);
                record::lemma_successes(nodes, 1, end);
                order::first_best_agrees(
                    state::successes(nodes, 1, end),
                    order::higher(state::scores(search.strategy, nodes)),
                    order::higher(state::scores(search.strategy, after.nodes)),
                );
                assert forall|i: int| 0 < i < after.nodes.len() implies {
                    &&& (#[trigger] after.nodes[i]).outcome.refusal() is None
                    &&& 0 <= after.nodes[i].iteration < after.current_iteration
                } by {
                    assert(after.nodes[i].outcome == nodes[i].outcome);
                    assert(after.nodes[i].iteration == nodes[i].iteration);
                }
            }
        },
    }
}

/// A descent picks no dead end, and changes nothing but its counters and one mark: where it finds
/// children that are all dead ends, their parent becomes one and none is picked.
pub proof fn descent_avoids_dead_ends(search: StateView, scores: ScoresView)
    requires
        search.sound(),
    ensures
        ({
            let (after, chosen) = descended(search, scores);
            &&& chosen matches Some(parent) ==> !search.nodes[parent as int].terminal && after.nodes
                == search.nodes
            &&& forall|i: int|
                0 <= i < search.nodes.len() && (#[trigger] after.nodes[i]) != search.nodes[i] ==> {
                    &&& chosen is None
                    &&& after.nodes[i] == (NodeView { terminal: true, ..search.nodes[i] })
                    &&& search.nodes[i].children.len() > 0
                    &&& forall|j: int|
                        0 <= j < search.nodes[i].children.len() ==> (
                        #[trigger] search.nodes[search.nodes[i].children[j] as int]).terminal
                }
        }),
{
    lemma_descent(search, scores, ROOT);
}

/// Picking a parent adds no node and changes no outcome; it may only mark a dead end.
pub proof fn selection_keeps_nodes(search: StateView, scores: ScoresView)
    requires
        search.sound(),
    ensures
        ({
            let after = selected(search, scores).0;
            &&& after.nodes.len() == search.nodes.len()
            &&& after.config == search.config
            &&& after.current_iteration == search.current_iteration
            &&& forall|i: int|
                0 <= i < search.nodes.len() ==> (#[trigger] after.nodes[i]) == (NodeView {
                    terminal: after.nodes[i].terminal,
                    ..search.nodes[i]
                })
        }),
{
    lemma_descent(search, scores, ROOT);
}

} // verus!
