//! Recording a batch.
use crate::number::EXACT;
use crate::numeral::count;
use crate::search::config::Strategy;
use crate::search::node::{Node, NodeId, NodeView, Outcome, OutcomeView, Status, ROOT};
use crate::search::order;
use crate::search::state;
use crate::search::state::{SearchState, StateView};
use crate::search::tree;
use vstd::prelude::*;

verus! {

/// The first best of two rows is the better of their first bests.
proof fn lemma_first_best_of_two(
    left: Seq<NodeId>,
    right: Seq<NodeId>,
    score: spec_fn(NodeId) -> int,
)
    ensures
        order::first_best(left + right, order::higher(score)) == (match (
            order::first_best(left, order::higher(score)),
            order::first_best(right, order::higher(score)),
        ) {
            (Some(old), Some(best)) => if score(best) > score(old) {
                Some(best)
            } else {
                Some(old)
            },
            (None, best) => best,
            (old, None) => old,
        }),
    decreases right.len(),
{
    if right.len() == 0 {
        assert(left + right =~= left);
    } else {
        lemma_first_best_of_two(left, right.drop_last(), score);
        assert((left + right).drop_last() =~= left + right.drop_last());
        assert((left + right).last() == right.last());
        if left.len() == 0 {
            assert(left + right =~= right);
        } else {
            order::first_best_is_listed(left, order::higher(score));
        }
    }
}

/// The successes of more nodes are those of the first part and of the rest.
proof fn lemma_successes_split(
    nodes: Seq<NodeView>,
    after: Seq<NodeView>,
    middle: int,
    end: int,
)
    requires
        1 <= middle <= end <= after.len(),
        middle == nodes.len(),
        forall|i: int|
            0 <= i < middle ==> (#[trigger] after[i]).outcome == (#[trigger] nodes[i]).outcome,
    ensures
        state::successes(after, 1, end) == state::successes(nodes, 1, middle) + state::successes(
            after,
            middle,
            end,
        ),
    decreases end - middle,
{
    if end == middle {
        lemma_successes_same(nodes, after, 1, middle);
        assert(state::successes(nodes, 1, middle) + Seq::<NodeId>::empty() =~= state::successes(
            nodes,
            1,
            middle,
        ));
    } else {
        lemma_successes_split(nodes, after, middle, end - 1);
        let left = state::successes(nodes, 1, middle);
        let right = state::successes(after, middle, end - 1);
        assert((left + right).push((end - 1) as usize) =~= left + right.push((end - 1) as usize));
    }
}

/// Successes depend on outcomes only.
pub proof fn lemma_successes_same(nodes: Seq<NodeView>, after: Seq<NodeView>, first: int, end: int)
    requires
        0 <= first,
        end <= nodes.len(),
        end <= after.len(),
        forall|i: int|
            0 <= i < end ==> (#[trigger] after[i]).outcome == (#[trigger] nodes[i]).outcome,
    ensures
        state::successes(after, first, end) == state::successes(nodes, first, end),
    decreases end - first,
{
    if end > first {
        lemma_successes_same(nodes, after, first, end - 1);
        assert(after[end - 1].outcome == nodes[end - 1].outcome);
    }
}

/// Every entry of the successes is a successful node within the bounds.
pub proof fn lemma_successes(nodes: Seq<NodeView>, first: int, end: int)
    requires
        0 <= first,
        end <= nodes.len() <= usize::MAX,
    ensures
        forall|i: int|
            0 <= i < state::successes(nodes, first, end).len() ==> {
                let id = #[trigger] state::successes(nodes, first, end)[i];
                first <= id < end && nodes[id as int].successful()
            },
    decreases end - first,
{
    if end > first {
        lemma_successes(nodes, first, end - 1);
        let before = state::successes(nodes, first, end - 1);
        let all = state::successes(nodes, first, end);
        assert forall|i: int| 0 <= i < all.len() implies {
            let id = #[trigger] all[i];
            first <= id < end && nodes[id as int].successful()
        } by {
            if i < before.len() {
                assert(all[i] == before[i]);
            }
        }
    }
}

/// An entry of a batch that is not refused is not refused itself.
proof fn lemma_first_refusal(outcomes: Seq<OutcomeView>, index: int)
    requires
        state::first_refusal(outcomes) is None,
        0 <= index < outcomes.len(),
    ensures
        outcomes[index].refusal() is None,
    decreases outcomes.len(),
{
    if index > 0 {
        assert(outcomes.skip(1)[index - 1] == outcomes[index]);
        lemma_first_refusal(outcomes.skip(1), index - 1);
    }
}

/// A batch that is not refused leaves a sound search sound: the tree stays a tree, the best so far
/// is still the first with the highest score among all, and the counters still fit together.
pub proof fn recording_is_sound(
    search: StateView,
    parent: Option<NodeId>,
    outcomes: Seq<OutcomeView>,
)
    requires
        search.sound(),
        state::batch_refusal(search.nodes, parent, outcomes) is None,
        search.nodes.len() + outcomes.len() <= EXACT,
        search.nodes.len() + outcomes.len() <= usize::MAX,
    ensures
        state::recorded(search, parent, outcomes).sound(),
{
    let strategy = search.strategy;
    let nodes = search.nodes;
    let after = state::recorded(search, parent, outcomes);
    tree::growth_is_well_formed(strategy, nodes, search.current_iteration, parent, outcomes);
    assert forall|i: int| 0 < i < after.nodes.len() implies {
        &&& (#[trigger] after.nodes[i]).outcome.refusal() is None
        &&& 0 <= after.nodes[i].iteration < after.current_iteration
    } by {
        if i < nodes.len() {
            assert(after.nodes[i].outcome == nodes[i].outcome);
            assert(after.nodes[i].iteration == nodes[i].iteration);
        } else {
            lemma_first_refusal(outcomes, i - nodes.len());
        }
    }
    assert forall|i: int| 0 <= i < nodes.len() implies (#[trigger] after.nodes[i]).outcome == (
    #[trigger] nodes[i]).outcome by {}
    let middle = nodes.len() as int;
    let end = after.nodes.len() as int;
    let left = state::successes(nodes, 1, middle);
    let right = state::successes(after.nodes, middle, end);
    lemma_successes_split(nodes, after.nodes, middle, end);
    lemma_first_best_of_two(left, right, state::scores(strategy, after.nodes));
    lemma_successes(nodes, 1, middle);
    lemma_successes(after.nodes, middle, end);
    order::first_best_agrees(
        left,
        order::higher(state::scores(strategy, nodes)),
        order::higher(state::scores(strategy, after.nodes)),
    );
    order::first_best_is_listed(right, order::higher(state::scores(strategy, after.nodes)));
}

/// Checks every outcome of a batch.
fn check(outcomes: &Vec<Outcome>) -> (checked: Result<(), String>)
    ensures
        match checked {
            Ok(_) => state::first_refusal(state::outcomes_view(outcomes@)) is None,
            Err(error) => state::first_refusal(state::outcomes_view(outcomes@)) == Some(error@),
        },
{
    let ghost all = state::outcomes_view(outcomes@);
    let mut index: usize = 0;
    assert(all.skip(0) =~= all);
    while index < outcomes.len()
        invariant
            index <= outcomes@.len(),
            all == state::outcomes_view(outcomes@),
            state::first_refusal(all) == state::first_refusal(all.skip(index as int)),
        decreases outcomes@.len() - index,
    {
        assert(all.skip(index as int)[0] == outcomes@[index as int]@);
        if let Err(error) = outcomes[index].validate() {
            return Err(error);
        }
        assert(all.skip(index as int).skip(1) =~= all.skip(index + 1));
        index += 1;
    }
    Ok(())
}

/// The nodes with the newcomer `id` hung at the root if it has no parent.
spec fn linked_up(nodes: Seq<NodeView>, parent: Option<NodeId>, id: NodeId) -> Seq<NodeView> {
    Seq::new(
        nodes.len(),
        |i: int|
            if parent is Some {
                nodes[i]
            } else if i == id {
                NodeView { parent: Some(ROOT), ..nodes[i] }
            } else if i == ROOT {
                NodeView { children: nodes[i].children.push(id), ..nodes[i] }
            } else {
                nodes[i]
            },
    )
}

/// Whether the rule for dead ends applies once the whole batch is attached.
proof fn lemma_prunes(
    nodes: Seq<NodeView>,
    iteration: nat,
    parent: NodeId,
    outcomes: Seq<OutcomeView>,
    given: Seq<NodeView>,
)
    requires
        tree::well_formed(Strategy::Mcts, nodes),
        nodes.len() + outcomes.len() <= usize::MAX,
        outcomes.len() > 0,
        ROOT < parent < nodes.len(),
        given.len() == nodes.len() + outcomes.len(),
        forall|i: int|
            0 <= i < given.len() ==> (#[trigger] given[i]).outcome == tree::attached(
                nodes,
                iteration,
                Some(parent),
                outcomes,
                outcomes.len(),
            )[i].outcome,
        given[parent as int].children == nodes[parent as int].children + tree::ids_from(
            nodes.len(),
            outcomes.len(),
        ),
    ensures
        forall|i: int|
            0 <= i < given[parent as int].children.len() ==> (
            #[trigger] given[parent as int].children[i]) < given.len(),
        tree::prunes(nodes, Some(parent), outcomes, parent as int) == (given[parent as int].failed()
            && given[parent as int].children.len() >= 3 && forall|i: int|
            0 <= i < given[parent as int].children.len() ==> (
            #[trigger] given[given[parent as int].children[i] as int]).failed()),
{
    assert(tree::node_formed(Strategy::Mcts, nodes, parent as int));
    tree::lemma_offspring(nodes, parent as int, nodes.len() as int);
    let old_children = nodes[parent as int].children;
    let children = given[parent as int].children;
    assert forall|i: int| 0 <= i < children.len() implies (#[trigger] children[i]) < given.len()
        && given[children[i] as int].outcome == (if i < old_children.len() {
        nodes[old_children[i] as int].outcome
    } else {
        outcomes[i - old_children.len()]
    }) by {
        if i < old_children.len() {
            assert(children[i] == old_children[i]);
        }
    }
    if tree::prunes(nodes, Some(parent), outcomes, parent as int) {
        assert forall|i: int| 0 <= i < children.len() implies (
        #[trigger] given[children[i] as int]).failed() by {
            if i < old_children.len() {
                assert(nodes[old_children[i] as int].failed());
            } else {
                assert(outcomes[i - old_children.len()].status == Status::Failed);
            }
        }
    }
    if forall|i: int| 0 <= i < children.len() ==> (#[trigger] given[children[i] as int]).failed() {
        assert forall|i: int| 0 <= i < old_children.len() implies (
        #[trigger] nodes[old_children[i] as int]).failed() by {
            assert(given[children[i] as int].failed());
        }
        assert forall|i: int| 0 <= i < outcomes.len() implies (#[trigger] outcomes[i]).status
            == Status::Failed by {
            assert(given[children[i + old_children.len()] as int].failed());
        }
    }
}

/// Crediting one more of a batch, and the rule for dead ends, give the next stage.
proof fn lemma_credited_step(
    nodes: Seq<NodeView>,
    iteration: nat,
    parent: Option<NodeId>,
    outcomes: Seq<OutcomeView>,
    index: nat,
)
    requires
        tree::well_formed(Strategy::Mcts, nodes),
        nodes.len() + outcomes.len() <= usize::MAX,
        index < outcomes.len(),
        parent matches Some(parent) ==> ROOT < parent < nodes.len(),
    ensures
        ({
            let id = (nodes.len() + index) as usize;
            let shown = tree::credited(nodes, iteration, parent, outcomes, index);
            let given = tree::rewarded(linked_up(shown, parent, id), id);
            let wanted = tree::credited(nodes, iteration, parent, outcomes, index + 1);
            &&& wanted.len() == given.len()
            &&& forall|i: int|
                0 <= i < given.len() ==> #[trigger] wanted[i] == (NodeView {
                    terminal: given[i].terminal || tree::prunes(nodes, parent, outcomes, i),
                    ..given[i]
                })
        }),
{
    let id = (nodes.len() + index) as usize;
    let shown = tree::credited(nodes, iteration, parent, outcomes, index);
    let linked = linked_up(shown, parent, id);
    let given = tree::rewarded(linked, id);
    let wanted = tree::credited(nodes, iteration, parent, outcomes, index + 1);
    let hook: NodeId = match parent {
        Some(parent) => parent,
        None => ROOT,
    };
    assert(tree::ids_from(nodes.len(), index + 1) =~= tree::ids_from(nodes.len(), index).push(id));
    assert forall|i: int| 0 <= i < given.len() implies #[trigger] wanted[i] == (NodeView {
        terminal: given[i].terminal || tree::prunes(nodes, parent, outcomes, i),
        ..given[i]
    }) by {
        assert forall|j: int| 0 <= j <= hook implies (#[trigger] linked[j]).parent == (
        #[trigger] nodes[j]).parent by {}
        tree::lemma_above_same(linked, nodes, i, hook as int);
        assert(linked[id as int].parent == Some(hook));
        assert(tree::above(linked, i, id as int) == (i == id || tree::above(nodes, i, hook as int)));
        if tree::above(nodes, i, hook as int) {
            tree::lemma_above_order(nodes, i, hook as int);
        }
        assert(given[i].children =~= wanted[i].children);
        assert(given[i].credits =~= wanted[i].credits);
    }
}

impl SearchState {
    /// The name of the candidate at `index` of the next batch.
    fn candidate_name(&self, parent: Option<NodeId>, index: usize) -> (name: String)
        requires
            parent matches Some(parent) ==> parent < self.nodes@.len(),
        ensures
            name@ == tree::candidate_name(
                self@.nodes,
                self.current_iteration as nat,
                parent,
                index as nat,
            ),
    {
        match parent {
            Some(parent) => "iter".to_owned().concat(&count(self.current_iteration)).concat(
                "_p",
            ).concat(&self.nodes[parent].name).concat("_c").concat(&count(index)),
            None => "iter".to_owned().concat(&count(self.current_iteration)).concat("_sol").concat(
                &count(index),
            ),
        }
    }

    /// Adds a node for every outcome.
    fn attach(&mut self, parent: Option<NodeId>, outcomes: Vec<Outcome>) -> (added: Vec<NodeId>)
        requires
            parent matches Some(parent) ==> parent < old(self).nodes@.len(),
            old(self).nodes@.len() + outcomes@.len() <= usize::MAX,
            old(self).current_iteration <= i64::MAX,
        ensures
            added@ == tree::ids_from(old(self).nodes@.len(), outcomes@.len()),
            final(self)@ == (StateView {
                nodes: tree::attached(
                    old(self)@.nodes,
                    old(self).current_iteration as nat,
                    parent,
                    state::outcomes_view(outcomes@),
                    outcomes@.len(),
                ),
                ..old(self)@
            }),
    {
        let ghost before = self@;
        let ghost all = state::outcomes_view(outcomes@);
        let ghost iteration = self.current_iteration as nat;
        let mut added: Vec<NodeId> = Vec::new();
        let mut index: usize = 0;
        assert(tree::attached(before.nodes, iteration, parent, all, 0) =~= before.nodes) by {
            if let Some(parent) = parent {
                assert(before.nodes[parent as int].children + tree::ids_from(before.nodes.len(), 0)
                    =~= before.nodes[parent as int].children);
            }
        }
        for outcome in iter: outcomes
            invariant
                index == iter.index(),
                iter.seq() == outcomes@,
                all == state::outcomes_view(outcomes@),
                before == old(self)@,
                iteration == self.current_iteration as nat,
                iteration <= i64::MAX,
                before.nodes.len() + outcomes@.len() <= usize::MAX,
                parent matches Some(parent) ==> parent < before.nodes.len(),
                added@ == tree::ids_from(before.nodes.len(), index as nat),
                self@ == (StateView {
                    nodes: tree::attached(before.nodes, iteration, parent, all, index as nat),
                    ..before
                }),
        {
            let ghost shown = self@;
            assert(shown.nodes.len() == self.nodes@.len());
            let id = self.nodes.len();
            let name = self.candidate_name(parent, index);
            assert(name@ == tree::candidate_name(before.nodes, iteration, parent, index as nat));
            let node = Node {
                id,
                name,
                iteration: self.current_iteration as i64,
                parent,
                children: Vec::new(),
                outcome,
                visits: 0,
                credits: Vec::new(),
                terminal: false,
            };
            assert(node@ =~= tree::newcomer(before.nodes, iteration, parent, all[index as int], index as nat));
            self.nodes.push(node);
            assert(self@.nodes =~= shown.nodes.push(node@));
            if let Some(parent) = parent {
                let ghost pushed = self@.nodes;
                self.nodes[parent].children.push(id);
                assert(self@.nodes =~= pushed.update(
                    parent as int,
                    NodeView {
                        children: pushed[parent as int].children.push(id),
                        ..pushed[parent as int]
                    },
                ));
            }
            added.push(id);
            index += 1;
            proof {
                let ids = tree::ids_from(before.nodes.len(), index as nat);
                assert(ids =~= tree::ids_from(before.nodes.len(), (index - 1) as nat).push(id));
                let wanted = tree::attached(before.nodes, iteration, parent, all, index as nat);
                assert forall|i: int| 0 <= i < wanted.len() implies self@.nodes[i] == wanted[i] by {
                    if parent == Some(i as usize) && i < before.nodes.len() {
                        assert(self@.nodes[i].children =~= wanted[i].children);
                    } else if i < before.nodes.len() {
                        assert(self@.nodes[i] == shown.nodes[i]);
                    } else if i < before.nodes.len() + index - 1 {
                        assert(self@.nodes[i] == shown.nodes[i]);
                    }
                }
                assert(self@.nodes =~= wanted);
                assert(self@ =~= (StateView { nodes: wanted, ..before }));
            }
        }
        added
    }

    /// Credits a node to itself and its ancestors.
    fn credit(&mut self, id: NodeId)
        requires
            id < old(self).nodes@.len(),
            forall|i: int|
                0 <= i < old(self)@.nodes.len() ==> {
                    &&& (#[trigger] old(self)@.nodes[i]).parent matches Some(parent) ==> parent < i
                    &&& old(self)@.nodes[i].visits < u64::MAX
                },
        ensures
            final(self)@ == (StateView {
                nodes: tree::rewarded(old(self)@.nodes, id),
                ..old(self)@
            }),
    {
        let ghost before = self@;
        let ghost nodes = before.nodes;
        let mut current: usize = id;
        loop
            invariant
                before == old(self)@,
                nodes == before.nodes,
                id < nodes.len(),
                current < nodes.len(),
                nodes.len() == self.nodes@.len(),
                forall|i: int|
                    0 <= i < nodes.len() ==> {
                        &&& (#[trigger] nodes[i]).parent matches Some(parent) ==> parent < i
                        &&& nodes[i].visits < u64::MAX
                    },
                forall|i: int|
                    #[trigger] tree::above(nodes, i, current as int) ==> tree::above(
                        nodes,
                        i,
                        id as int,
                    ),
                self@ == (StateView { nodes: self@.nodes, ..before }),
                forall|i: int|
                    0 <= i < nodes.len() ==> #[trigger] self@.nodes[i] == (if tree::above(
                        nodes,
                        i,
                        id as int,
                    ) && !tree::above(nodes, i, current as int) {
                        tree::rewarded(nodes, id)[i]
                    } else {
                        nodes[i]
                    }),
            decreases current,
        {
            let ghost shown = self@.nodes;
            assert(shown[current as int] == nodes[current as int]) by {
                assert(tree::above(nodes, current as int, current as int));
            }
            self.nodes[current].visits = self.nodes[current].visits + 1;
            self.nodes[current].credits.push(id);
            assert(self@.nodes =~= shown.update(
                current as int,
                tree::rewarded(nodes, id)[current as int],
            ));
            match self.nodes[current].parent {
                None => {
                    assert(self@.nodes =~= tree::rewarded(nodes, id)) by {
                        assert forall|i: int| 0 <= i < nodes.len() implies self@.nodes[i]
                            == tree::rewarded(nodes, id)[i] by {
                            assert(shown[i] == self@.nodes[i] || i == current);
                        }
                    }
                    return ;
                },
                Some(parent) => {
                    proof {
                        assert forall|i: int| #[trigger]
                            tree::above(nodes, i, parent as int) implies tree::above(
                            nodes,
                            i,
                            id as int,
                        ) by {
                            assert(tree::above(nodes, i, current as int));
                        }
                        assert forall|i: int| 0 <= i < nodes.len() implies #[trigger] self@.nodes[i]
                            == (if tree::above(nodes, i, id as int) && !tree::above(
                            nodes,
                            i,
                            parent as int,
                        ) {
                            tree::rewarded(nodes, id)[i]
                        } else {
                            nodes[i]
                        }) by {
                            if i == current {
                                if tree::above(nodes, i, parent as int) {
                                    tree::lemma_above_order(nodes, i, parent as int);
                                }
                            } else {
                                assert(shown[i] == self@.nodes[i]);
                            }
                        }
                    }
                    current = parent;
                },
            }
        }
    }

    /// Whether every child of `id` failed.
    fn all_failed(&self, id: NodeId) -> (failed: bool)
        requires
            id < self.nodes@.len(),
            forall|i: int|
                0 <= i < self@.nodes[id as int].children.len() ==> (
                #[trigger] self@.nodes[id as int].children[i]) < self.nodes@.len(),
        ensures
            failed == forall|i: int|
                0 <= i < self@.nodes[id as int].children.len() ==> (
                #[trigger] self@.nodes[self@.nodes[id as int].children[i] as int]).failed(),
    {
        let ghost children = self@.nodes[id as int].children;
        let mut index: usize = 0;
        while index < self.nodes[id].children.len()
            invariant
                id < self.nodes@.len(),
                children == self@.nodes[id as int].children,
                children == self.nodes@[id as int].children@,
                index <= children.len(),
                forall|i: int| 0 <= i < children.len() ==> (#[trigger] children[i]) < self.nodes@.len(),
                forall|i: int|
                    0 <= i < index ==> (#[trigger] self@.nodes[children[i] as int]).failed(),
            decreases children.len() - index,
        {
            let child = self.nodes[id].children[index];
            if self.nodes[child].outcome.status != Status::Failed {
                assert(!self@.nodes[children[index as int] as int].failed());
                return false;
            }
            index += 1;
        }
        true
    }

    /// Hangs the newcomers of a batch in the tree, credits them, and marks their parent as a dead
    /// end where all its children failed.
    fn update_mcts(
        &mut self,
        added: &Vec<NodeId>,
        Ghost(nodes): Ghost<Seq<NodeView>>,
        Ghost(parent): Ghost<Option<NodeId>>,
        Ghost(outcomes): Ghost<Seq<OutcomeView>>,
    )
        requires
            tree::well_formed(Strategy::Mcts, nodes),
            nodes.len() + outcomes.len() <= usize::MAX,
            nodes.len() + outcomes.len() <= EXACT,
            parent matches Some(parent) ==> ROOT < parent < nodes.len(),
            added@ == tree::ids_from(nodes.len(), outcomes.len()),
            old(self)@.nodes == tree::attached(
                nodes,
                old(self)@.current_iteration,
                parent,
                outcomes,
                outcomes.len(),
            ),
        ensures
            final(self)@ == (StateView {
                nodes: tree::credited(
                    nodes,
                    old(self)@.current_iteration,
                    parent,
                    outcomes,
                    outcomes.len(),
                ),
                ..old(self)@
            }),
    {
        let ghost before = self@;
        let ghost iteration = self@.current_iteration;
        let ghost base = tree::attached(nodes, iteration, parent, outcomes, outcomes.len());
        let ghost hook: NodeId = match parent {
            Some(parent) => parent,
            None => ROOT,
        };
        let mut index: usize = 0;
        proof {
            let start = tree::credited(nodes, iteration, parent, outcomes, 0);
            assert forall|i: int| 0 <= i < base.len() implies base[i] == start[i] by {
                if i < nodes.len() {
                    assert(nodes[i].children + tree::ids_from(nodes.len(), 0) =~= nodes[i].children);
                    assert(nodes[i].credits + tree::ids_from(nodes.len(), 0) =~= nodes[i].credits);
                }
            }
            assert(base =~= start);
        }
        while index < added.len()
            invariant
                before == old(self)@,
                iteration == before.current_iteration,
                hook == (match parent {
                    Some(parent) => parent,
                    None => ROOT,
                }),
                hook < nodes.len(),
                base == tree::attached(nodes, iteration, parent, outcomes, outcomes.len()),
                tree::well_formed(Strategy::Mcts, nodes),
                nodes.len() + outcomes.len() <= usize::MAX,
                nodes.len() + outcomes.len() <= EXACT,
                parent matches Some(parent) ==> ROOT < parent < nodes.len(),
                added@ == tree::ids_from(nodes.len(), outcomes.len()),
                index <= outcomes.len(),
                self@ == (StateView {
                    nodes: tree::credited(nodes, iteration, parent, outcomes, index as nat),
                    ..before
                }),
            decreases outcomes.len() - index,
        {
            let ghost shown = self@.nodes;
            assert(shown.len() == self.nodes@.len());
            assert(tree::node_formed(Strategy::Mcts, nodes, 0));
            let id = added[index];
            if self.nodes[id].parent.is_none() {
                self.nodes[id].parent = Some(ROOT);
                self.nodes[ROOT].children.push(id);
            }
            let ghost linked = self@.nodes;
            proof {
                assert(shown[id as int].parent == parent);
                assert(linked =~= linked_up(shown, parent, id));
                assert forall|i: int| 0 <= i < linked.len() implies {
                    &&& (#[trigger] linked[i]).parent matches Some(parent) ==> parent < i
                    &&& linked[i].visits < u64::MAX
                } by {
                    if i < nodes.len() {
                        assert(tree::node_formed(Strategy::Mcts, nodes, i));
                    }
                }
            }
            self.credit(id);
            let ghost given = self@.nodes;
            proof {
                assert(given.len() == self.nodes@.len());
                assert(given[id as int].parent == Some(hook));
                if parent is Some {
                    lemma_prunes(nodes, iteration, hook, outcomes, given);
                }
            }
            if let Some(upper) = self.nodes[id].parent {
                if upper != ROOT && self.nodes[upper].outcome.status == Status::Failed
                    && self.nodes[upper].children.len() >= 3 && self.all_failed(upper) {
                    self.nodes[upper].terminal = true;
                }
            }
            index += 1;
            proof {
                let wanted = tree::credited(nodes, iteration, parent, outcomes, index as nat);
                lemma_credited_step(nodes, iteration, parent, outcomes, (index - 1) as nat);
                assert(self@.nodes =~= wanted);
                assert(self@ =~= (StateView { nodes: wanted, ..before }));
            }
        }
    }

    /// The first of the successful nodes from `first` on with the highest score.
    pub(crate) fn batch_best(&self, first: usize) -> (best: Option<NodeId>)
        requires
            first <= self.nodes@.len(),
        ensures
            best == order::first_best(
                state::successes(self@.nodes, first as int, self@.nodes.len() as int),
                order::higher(state::scores(self.strategy, self@.nodes)),
            ),
            best matches Some(best) ==> best < self.nodes@.len(),
    {
        let ghost nodes = self@.nodes;
        let ghost better = order::higher(state::scores(self.strategy, nodes));
        let mut best: Option<NodeId> = None;
        let mut id: usize = first;
        while id < self.nodes.len()
            invariant
                first <= id <= self.nodes@.len(),
                nodes == self@.nodes,
                better == order::higher(state::scores(self.strategy, nodes)),
                best == order::first_best(state::successes(nodes, first as int, id as int), better),
                best matches Some(best) ==> best < self.nodes@.len(),
            decreases self.nodes@.len() - id,
        {
            if self.nodes[id].successful() {
                let replaces = match best {
                    None => true,
                    Some(old) => self.score(id).rank > self.score(old).rank,
                };
                proof {
                    order::first_best_push(
                        state::successes(nodes, first as int, id as int),
                        id,
                        better,
                    );
                }
                if replaces {
                    best = Some(id);
                }
            }
            id += 1;
        }
        best
    }

    /// Records the outcomes of a batch of candidates that were made from `parent`, and gives the
    /// ids of their nodes. A batch that is refused changes nothing.
    pub fn record_batch(&mut self, parent: Option<NodeId>, outcomes: Vec<Outcome>) -> (added: Result<
        Vec<NodeId>,
        String,
    >)
        requires
            old(self)@.sound(),
            old(self).nodes@.len() + outcomes@.len() <= EXACT,
            old(self).nodes@.len() + outcomes@.len() <= usize::MAX,
            old(self).current_iteration < i64::MAX,
            old(self).current_iteration < usize::MAX,
        ensures
            match added {
                Ok(ids) => {
                    &&& state::batch_refusal(
                        old(self)@.nodes,
                        parent,
                        state::outcomes_view(outcomes@),
                    ) is None
                    &&& ids@ == tree::ids_from(old(self).nodes@.len(), outcomes@.len())
                    &&& final(self)@ == state::recorded(
                        old(self)@,
                        parent,
                        state::outcomes_view(outcomes@),
                    )
                },
                Err(error) => {
                    &&& state::batch_refusal(
                        old(self)@.nodes,
                        parent,
                        state::outcomes_view(outcomes@),
                    ) == Some(error@)
                    &&& *final(self) == *old(self)
                },
            },
            final(self)@.sound(),
    {
        let ghost before = self@;
        let ghost all = state::outcomes_view(outcomes@);
        assert(before.nodes.len() == self.nodes@.len());
        if let Some(parent) = parent {
            if !(parent > ROOT && parent < self.nodes.len()) {
                return Err("invalid parent".to_owned());
            }
        }
        if let Err(error) = check(&outcomes) {
            return Err(error);
        }
        let first = self.nodes.len();
        let added = self.attach(parent, outcomes);
        if self.strategy == Strategy::Mcts {
            self.update_mcts(&added, Ghost(before.nodes), Ghost(parent), Ghost(all));
        }
        let ghost nodes = self@.nodes;
        assert(nodes.len() == self.nodes@.len());
        assert(nodes == tree::grown(
            before.strategy,
            before.nodes,
            before.current_iteration,
            parent,
            all,
        ));
        proof {
            recording_is_sound(before, parent, all);
            state::current_best_is_highest(before);
        }
        match self.batch_best(first) {
            Some(best) => {
                self.consecutive_failures = 0;
                let replaces = match self.current_best {
                    None => true,
                    Some(old) => self.score(best).rank > self.score(old).rank,
                };
                if replaces {
                    self.current_best = Some(best);
                }
                if self.strategy == Strategy::Greedy {
                    let speedup = self.nodes[best].speedup();
                    self.speedup_history.push(speedup);
                }
            },
            None => {
                self.consecutive_failures = self.consecutive_failures + 1;
            },
        }
        self.current_iteration = self.current_iteration + 1;
        assert(self@ =~= state::recorded(before, parent, all));
        Ok(added)
    }
}

/// After a batch that is recorded the search has a node for each of its outcomes, in order, with
/// the parent's name in the name of each; every earlier node keeps its name, parent and outcome.
pub proof fn batch_is_kept(search: StateView, parent: Option<NodeId>, outcomes: Seq<OutcomeView>)
    ensures
        ({
            let after = state::recorded(search, parent, outcomes);
            &&& after.nodes.len() == search.nodes.len() + outcomes.len()
            &&& forall|i: int|
                0 <= i < outcomes.len() ==> {
                    let node = #[trigger] after.nodes[search.nodes.len() + i];
                    &&& node.outcome == outcomes[i]
                    &&& node.parent == tree::link(search.strategy, parent)
                    &&& node.name == tree::candidate_name(
                        search.nodes,
                        search.current_iteration,
                        parent,
                        i as nat,
                    )
                    &&& !node.terminal
                }
            &&& forall|i: int|
                0 <= i < search.nodes.len() ==> {
                    &&& (#[trigger] after.nodes[i]).name == search.nodes[i].name
                    &&& after.nodes[i].parent == search.nodes[i].parent
                    &&& after.nodes[i].outcome == search.nodes[i].outcome
                    &&& after.nodes[i].iteration == search.nodes[i].iteration
                }
        }),
{
}

/// A batch turns a node into a dead end only if the node failed, is not the root, and has at least
/// three children, all of them failed, with the whole batch attached.
pub proof fn only_failed_lines_end(
    search: StateView,
    parent: Option<NodeId>,
    outcomes: Seq<OutcomeView>,
    id: int,
)
    requires
        search.sound(),
        state::batch_refusal(search.nodes, parent, outcomes) is None,
        search.nodes.len() + outcomes.len() <= usize::MAX,
        0 <= id < search.nodes.len(),
        !search.nodes[id].terminal,
        state::recorded(search, parent, outcomes).nodes[id].terminal,
    ensures
        ({
            let after = state::recorded(search, parent, outcomes).nodes;
            &&& search.strategy == Strategy::Mcts
            &&& id != ROOT
            &&& parent == Some(id as usize)
            &&& after[id].failed()
            &&& after[id].children.len() >= 3
            &&& forall|i: int|
                0 <= i < after[id].children.len() ==> (
                #[trigger] after[after[id].children[i] as int]).failed()
        }),
{
    let after = state::recorded(search, parent, outcomes).nodes;
    assert(search.strategy == Strategy::Mcts);
    lemma_prunes(search.nodes, search.current_iteration, id as usize, outcomes, after);
}

/// A successful node is among the successes.
pub proof fn lemma_successes_hold(nodes: Seq<NodeView>, first: int, end: int, id: int)
    requires
        0 <= first <= id < end <= nodes.len() <= usize::MAX,
        nodes[id].successful(),
    ensures
        state::successes(nodes, first, end).contains(id as usize),
    decreases end,
{
    let before = state::successes(nodes, first, end - 1);
    let all = state::successes(nodes, first, end);
    if id < end - 1 {
        lemma_successes_hold(nodes, first, end - 1, id);
        let place = choose|place: int| 0 <= place < before.len() && before[place] == id as usize;
        assert(all[place] == id as usize);
    } else {
        assert(all[all.len() - 1] == id as usize);
    }
}

/// The greedy strategy compares batches by their own best: the history grows by the highest speedup
/// of the batch, not of the search, and by nothing where the batch has no success, which is counted
/// instead.
pub proof fn history_holds_batch_bests(
    search: StateView,
    parent: Option<NodeId>,
    outcomes: Seq<OutcomeView>,
)
    requires
        search.strategy == Strategy::Greedy,
        search.nodes.len() + outcomes.len() <= usize::MAX,
    ensures
        ({
            let after = state::recorded(search, parent, outcomes);
            &&& (forall|i: int|
                0 <= i < outcomes.len() ==> (#[trigger] outcomes[i]).status != Status::Success) ==> {
                &&& after.speedup_history == search.speedup_history
                &&& after.consecutive_failures == search.consecutive_failures + 1
            }
            &&& (exists|i: int|
                0 <= i < outcomes.len() && (#[trigger] outcomes[i]).status == Status::Success) ==> {
                let last = after.speedup_history.last();
                &&& after.consecutive_failures == 0
                &&& after.speedup_history == search.speedup_history.push(last)
                &&& exists|i: int|
                    {
                        &&& 0 <= i < outcomes.len()
                        &&& (#[trigger] outcomes[i]).status == Status::Success
                        &&& last == after.nodes[search.nodes.len() + i].speedup()
                    }
                &&& forall|i: int|
                    0 <= i < outcomes.len() && (#[trigger] outcomes[i]).status == Status::Success
                        ==> after.nodes[search.nodes.len() + i].speedup().rank <= last.rank
            }
        }),
{
    let after = state::recorded(search, parent, outcomes);
    let nodes = after.nodes;
    let first = search.nodes.len() as int;
    let end = nodes.len() as int;
    batch_is_kept(search, parent, outcomes);
    let ids = state::successes(nodes, first, end);
    let score = state::scores(search.strategy, nodes);
    lemma_successes(nodes, first, end);
    order::first_best_is_highest(ids, score);
    assert forall|i: int|
        0 <= i < outcomes.len() && (#[trigger] outcomes[i]).status == Status::Success implies {
        &&& ids.contains((first + i) as usize)
        &&& nodes[first + i].successful()
    } by {
        assert(nodes[first + i].outcome == outcomes[i]);
        lemma_successes_hold(nodes, first, end, first + i);
    }
    match order::first_best(ids, order::higher(score)) {
        None => {
            assert forall|i: int| 0 <= i < outcomes.len() implies (#[trigger] outcomes[i]).status
                != Status::Success by {
                if outcomes[i].status == Status::Success {
                    assert(ids.contains((first + i) as usize));
                }
            }
        },
        Some(best) => {
            let place = choose|place: int| 0 <= place < ids.len() && ids[place] == best;
            assert(first <= ids[place] < end);
            let chosen = best - first;
            assert(nodes[first + chosen].outcome == outcomes[chosen]);
            assert(outcomes[chosen].status == Status::Success);
            assert(after.speedup_history.last() == nodes[first + chosen].speedup());
            assert forall|i: int|
                0 <= i < outcomes.len() && (#[trigger] outcomes[i]).status
                    == Status::Success implies nodes[first + i].speedup().rank
                <= after.speedup_history.last().rank by {
                let at = choose|at: int| 0 <= at < ids.len() && ids[at] == (first + i) as usize;
                assert(score(ids[at]) <= score(best));
            }
        },
    }
}

/// The nodes before `count` that descend from `id`, itself not counted.
pub open spec fn descendants(nodes: Seq<NodeView>, id: int, count: int) -> Set<int> {
    Set::new(|lower: int| id < lower < count && tree::above(nodes, id, lower))
}

/// Whether `id` stands in `list` once.
pub open spec fn stands_once(list: Seq<NodeId>, id: int) -> bool {
    exists|place: int|
        {
            &&& 0 <= place < list.len()
            &&& #[trigger] list[place] == id
            &&& forall|other: int|
                0 <= other < list.len() && #[trigger] list[other] == id ==> other == place
        }
}

proof fn lemma_lineage_counts(nodes: Seq<NodeView>, id: int, count: int)
    requires
        0 < id < nodes.len(),
        0 <= count <= nodes.len(),
    ensures
        descendants(nodes, id, count).finite(),
        tree::lineage(nodes, id, count).len() == descendants(nodes, id, count).len() + if id
            < count {
            1int
        } else {
            0int
        },
    decreases count,
{
    if count <= 1 {
        assert(descendants(nodes, id, count) =~= Set::empty());
    } else {
        lemma_lineage_counts(nodes, id, count - 1);
        let before = descendants(nodes, id, count - 1);
        let last = count - 1;
        if tree::above(nodes, id, last) {
            tree::lemma_above_order(nodes, id, last);
            if last == id {
                assert(descendants(nodes, id, count) =~= before);
            } else {
                assert(descendants(nodes, id, count) =~= before.insert(last));
            }
        } else {
            assert(descendants(nodes, id, count) =~= before);
        }
    }
}

proof fn lemma_offspring_once(nodes: Seq<NodeView>, parent: int, id: int, count: int)
    requires
        0 <= id < count <= nodes.len() <= usize::MAX,
        nodes[id].parent matches Some(found) && found == parent,
    ensures
        stands_once(tree::offspring(nodes, parent, count), id),
    decreases count,
{
    let before = tree::offspring(nodes, parent, count - 1);
    let all = tree::offspring(nodes, parent, count);
    tree::lemma_offspring(nodes, parent, count - 1);
    if id == count - 1 {
        let place = all.len() - 1;
        assert(all[place] == id);
        assert forall|other: int| 0 <= other < all.len() && #[trigger] all[other]
            == id implies other == place by {
            if other < place {
                assert(before[other] == all[other]);
            }
        }
    } else {
        lemma_offspring_once(nodes, parent, id, count - 1);
        let place = choose|place: int|
            {
                &&& 0 <= place < before.len()
                &&& #[trigger] before[place] == id
                &&& forall|other: int|
                    0 <= other < before.len() && #[trigger] before[other] == id ==> other == place
            };
        assert(all[place] == id);
        assert forall|other: int| 0 <= other < all.len() && #[trigger] all[other]
            == id implies other == place by {
            if other < before.len() {
                assert(before[other] == all[other]);
            }
        }
    }
}

/// In a tree search the root has been visited once for every other node, and every other node once
/// for itself and once for every node that descends from it. Every node but the root has an earlier
/// node as its parent, which lists it once among its children.
pub proof fn visits_count_descendants(search: StateView, id: int)
    requires
        search.sound(),
        search.strategy == Strategy::Mcts,
        0 <= id < search.nodes.len(),
    ensures
        id == ROOT ==> search.nodes[id].visits == search.nodes.len() - 1,
        id != ROOT ==> {
            let below = descendants(search.nodes, id, search.nodes.len() as int);
            &&& below.finite()
            &&& search.nodes[id].visits == 1 + below.len()
            &&& search.nodes[id].parent matches Some(parent) && parent < id && stands_once(
                search.nodes[parent as int].children,
                id,
            )
        },
{
    let nodes = search.nodes;
    assert(tree::node_formed(Strategy::Mcts, nodes, id));
    if id == ROOT {
        lemma_root_lineage(nodes, nodes.len() as int);
    } else {
        lemma_lineage_counts(nodes, id, nodes.len() as int);
        let parent = nodes[id].parent->Some_0 as int;
        assert(tree::node_formed(Strategy::Mcts, nodes, parent));
        lemma_offspring_once(nodes, parent, id, nodes.len() as int);
    }
}

proof fn lemma_root_lineage(nodes: Seq<NodeView>, count: int)
    requires
        tree::well_formed(Strategy::Mcts, nodes),
        1 <= count <= nodes.len(),
    ensures
        tree::lineage(nodes, 0, count).len() == count - 1,
    decreases count,
{
    if count > 1 {
        lemma_root_lineage(nodes, count - 1);
        lemma_below_root(nodes, count - 1);
    }
}

proof fn lemma_below_root(nodes: Seq<NodeView>, id: int)
    requires
        tree::well_formed(Strategy::Mcts, nodes),
        0 <= id < nodes.len(),
    ensures
        tree::above(nodes, 0, id),
    decreases id,
{
    if id > 0 {
        assert(tree::node_formed(Strategy::Mcts, nodes, id));
        lemma_below_root(nodes, nodes[id].parent->Some_0 as int);
    }
}

} // verus!
