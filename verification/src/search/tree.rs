//! The shape of the search tree and how a batch changes it.
use crate::numeral;
use crate::search::config::Strategy;
use crate::search::node::{Node, NodeId, NodeView, OutcomeView, ROOT};
use vstd::prelude::*;

verus! {

/// The models of nodes.
pub open spec fn nodes_view(nodes: Seq<Node>) -> Seq<NodeView> {
    Seq::new(nodes.len(), |i: int| nodes[i]@)
}

/// Whether `upper` is `lower` or one of its ancestors.
pub open spec fn above(nodes: Seq<NodeView>, upper: int, lower: int) -> bool
    decreases lower,
{
    upper == lower || match nodes[lower].parent {
        Some(parent) => parent < lower && above(nodes, upper, parent as int),
        None => false,
    }
}

/// The ids from `first` on, `count` of them.
pub open spec fn ids_from(first: nat, count: nat) -> Seq<NodeId> {
    Seq::new(count, |i: int| (first + i) as usize)
}

/// Of the first `count` nodes those whose parent is `parent`, in the order of their arrival.
pub open spec fn offspring(nodes: Seq<NodeView>, parent: int, count: int) -> Seq<NodeId>
    decreases count,
{
    if count <= 0 {
        Seq::empty()
    } else {
        let before = offspring(nodes, parent, count - 1);
        if nodes[count - 1].parent matches Some(found) && found == parent {
            before.push((count - 1) as usize)
        } else {
            before
        }
    }
}

/// Of the first `count` nodes those that are `upper` or descend from it, but for the root, in the
/// order of their arrival.
pub open spec fn lineage(nodes: Seq<NodeView>, upper: int, count: int) -> Seq<NodeId>
    decreases count,
{
    if count <= 1 {
        Seq::empty()
    } else {
        let before = lineage(nodes, upper, count - 1);
        if above(nodes, upper, count - 1) {
            before.push((count - 1) as usize)
        } else {
            before
        }
    }
}

/// The parent that a newcomer ends up with: without one it hangs at the root where the strategy
/// wants a tree.
pub open spec fn link(strategy: Strategy, parent: Option<NodeId>) -> Option<NodeId> {
    if parent is None && strategy == Strategy::Mcts {
        Some(ROOT)
    } else {
        parent
    }
}

/// The name of the newcomer at `index` of a batch.
pub open spec fn candidate_name(
    nodes: Seq<NodeView>,
    iteration: nat,
    parent: Option<NodeId>,
    index: nat,
) -> Seq<char> {
    match parent {
        Some(parent) => "iter"@ + numeral::decimal(iteration) + "_p"@ + nodes[parent as int].name
            + "_c"@ + numeral::decimal(index),
        None => "iter"@ + numeral::decimal(iteration) + "_sol"@ + numeral::decimal(index),
    }
}

/// Whether a batch makes `id` a dead end: a failed node other than the root, the parent of the
/// batch, with at least three children that all failed.
pub open spec fn prunes(
    nodes: Seq<NodeView>,
    parent: Option<NodeId>,
    outcomes: Seq<OutcomeView>,
    id: int,
) -> bool {
    &&& parent matches Some(found) && found == id
    &&& id != ROOT
    &&& nodes[id].failed()
    &&& outcomes.len() > 0
    &&& nodes[id].children.len() + outcomes.len() >= 3
    &&& forall|i: int|
        0 <= i < nodes[id].children.len() ==> (#[trigger] nodes[nodes[id].children[i] as int]).failed()
    &&& forall|i: int|
        0 <= i < outcomes.len() ==> (#[trigger] outcomes[i]).status
            == crate::search::node::Status::Failed
}

/// The newcomer at `index` before it is credited.
pub open spec fn newcomer(
    nodes: Seq<NodeView>,
    iteration: nat,
    parent: Option<NodeId>,
    outcome: OutcomeView,
    index: nat,
) -> NodeView {
    NodeView {
        id: (nodes.len() + index) as usize,
        name: candidate_name(nodes, iteration, parent, index),
        iteration: iteration as int,
        parent,
        children: Seq::empty(),
        outcome,
        visits: 0,
        credits: Seq::empty(),
        terminal: false,
    }
}

/// The nodes with the first `count` of a batch attached.
pub open spec fn attached(
    nodes: Seq<NodeView>,
    iteration: nat,
    parent: Option<NodeId>,
    outcomes: Seq<OutcomeView>,
    count: nat,
) -> Seq<NodeView> {
    Seq::new(
        nodes.len() + count,
        |i: int|
            if i >= nodes.len() {
                newcomer(nodes, iteration, parent, outcomes[i - nodes.len()], (i - nodes.len()) as nat)
            } else if parent matches Some(found) && found == i {
                NodeView {
                    children: nodes[i].children + ids_from(nodes.len(), count),
                    ..nodes[i]
                }
            } else {
                nodes[i]
            },
    )
}

/// The nodes with a whole batch attached, and the first `count` of it credited to themselves and
/// their ancestors.
pub open spec fn credited(
    nodes: Seq<NodeView>,
    iteration: nat,
    parent: Option<NodeId>,
    outcomes: Seq<OutcomeView>,
    count: nat,
) -> Seq<NodeView> {
    let base = attached(nodes, iteration, parent, outcomes, outcomes.len());
    let hook = match parent {
        Some(parent) => parent,
        None => ROOT,
    };
    Seq::new(
        nodes.len() + outcomes.len(),
        |i: int|
            if i >= nodes.len() + count {
                base[i]
            } else if i >= nodes.len() {
                NodeView {
                    parent: Some(hook),
                    visits: 1,
                    credits: seq![i as usize],
                    ..base[i]
                }
            } else {
                NodeView {
                    children: if parent is None && i == ROOT {
                        nodes[i].children + ids_from(nodes.len(), count)
                    } else {
                        base[i].children
                    },
                    visits: if above(nodes, i, hook as int) {
                        nodes[i].visits + count
                    } else {
                        nodes[i].visits
                    },
                    credits: if above(nodes, i, hook as int) {
                        nodes[i].credits + ids_from(nodes.len(), count)
                    } else {
                        nodes[i].credits
                    },
                    terminal: nodes[i].terminal || (count > 0 && prunes(nodes, parent, outcomes, i)),
                    ..base[i]
                }
            },
    )
}

/// The nodes with `id` credited to itself and its ancestors.
pub open spec fn rewarded(nodes: Seq<NodeView>, id: NodeId) -> Seq<NodeView> {
    Seq::new(
        nodes.len(),
        |i: int|
            if above(nodes, i, id as int) {
                NodeView {
                    visits: nodes[i].visits + 1,
                    credits: nodes[i].credits.push(id),
                    ..nodes[i]
                }
            } else {
                nodes[i]
            },
    )
}

/// The nodes after a batch.
pub open spec fn grown(
    strategy: Strategy,
    nodes: Seq<NodeView>,
    iteration: nat,
    parent: Option<NodeId>,
    outcomes: Seq<OutcomeView>,
) -> Seq<NodeView> {
    match strategy {
        Strategy::Greedy => attached(nodes, iteration, parent, outcomes, outcomes.len()),
        Strategy::Mcts => credited(nodes, iteration, parent, outcomes, outcomes.len()),
    }
}

/// Whether the nodes form a tree under the root, or under the first of each line where the
/// strategy wants no root, with every node credited by its line.
pub open spec fn well_formed(strategy: Strategy, nodes: Seq<NodeView>) -> bool {
    &&& nodes.len() >= 1
    &&& nodes[0].parent is None
    &&& forall|i: int| 0 <= i < nodes.len() ==> node_formed(strategy, nodes, i)
}

/// Whether the node `id` has its place in the tree.
pub open spec fn node_formed(strategy: Strategy, nodes: Seq<NodeView>, id: int) -> bool {
    let node = nodes[id];
    &&& node.id == id
    &&& node.visits == node.credits.len()
    &&& node.visits < nodes.len()
    &&& node.parent matches Some(parent) ==> parent < id && (strategy == Strategy::Greedy ==> parent
        != ROOT)
    &&& strategy == Strategy::Mcts && id != ROOT ==> node.parent is Some
    &&& node.children == offspring(nodes, id, nodes.len() as int)
    &&& node.credits == (if strategy == Strategy::Mcts {
        lineage(nodes, id, nodes.len() as int)
    } else {
        Seq::empty()
    })
}

/// Lines depend on parents only.
pub proof fn lemma_above_same(left: Seq<NodeView>, right: Seq<NodeView>, upper: int, lower: int)
    requires
        0 <= lower < left.len(),
        lower < right.len(),
        forall|i: int| 0 <= i <= lower ==> (#[trigger] left[i]).parent == (#[trigger] right[i]).parent,
    ensures
        above(left, upper, lower) == above(right, upper, lower),
    decreases lower,
{
    assert(left[lower].parent == right[lower].parent);
    if let Some(parent) = left[lower].parent {
        if parent < lower {
            lemma_above_same(left, right, upper, parent as int);
        }
    }
}

/// A node lies above itself and above later ones only.
pub proof fn lemma_above_order(nodes: Seq<NodeView>, upper: int, lower: int)
    requires
        0 <= lower < nodes.len(),
        above(nodes, upper, lower),
    ensures
        0 <= upper <= lower,
    decreases lower,
{
    if upper != lower {
        lemma_above_order(nodes, upper, nodes[lower].parent->Some_0 as int);
    }
}

/// Every entry of an offspring is an earlier one of the nodes that were looked at.
pub proof fn lemma_offspring(nodes: Seq<NodeView>, parent: int, count: int)
    requires
        count <= nodes.len() <= usize::MAX,
    ensures
        offspring(nodes, parent, count).len() <= (if count < 0 { 0 } else { count }),
        forall|i: int|
            0 <= i < offspring(nodes, parent, count).len() ==> {
                let child = #[trigger] offspring(nodes, parent, count)[i];
                child < count && nodes[child as int].parent == Some(parent as usize) && (
                nodes[child as int].parent->Some_0 == parent)
            },
    decreases count,
{
    if count > 0 {
        lemma_offspring(nodes, parent, count - 1);
    }
}

/// An offspring depends on parents only.
pub proof fn lemma_offspring_same(left: Seq<NodeView>, right: Seq<NodeView>, parent: int, count: int)
    requires
        count <= left.len(),
        count <= right.len(),
        forall|i: int| 0 <= i < count ==> (#[trigger] left[i]).parent == (#[trigger] right[i]).parent,
    ensures
        offspring(left, parent, count) == offspring(right, parent, count),
    decreases count,
{
    if count > 0 {
        lemma_offspring_same(left, right, parent, count - 1);
        assert(left[count - 1].parent == right[count - 1].parent);
    }
}

/// A line depends on parents only.
pub proof fn lemma_lineage_same(left: Seq<NodeView>, right: Seq<NodeView>, upper: int, count: int)
    requires
        count <= left.len(),
        count <= right.len(),
        forall|i: int| 0 <= i < count ==> (#[trigger] left[i]).parent == (#[trigger] right[i]).parent,
    ensures
        lineage(left, upper, count) == lineage(right, upper, count),
    decreases count,
{
    if count > 1 {
        lemma_lineage_same(left, right, upper, count - 1);
        lemma_above_same(left, right, upper, count - 1);
    }
}

/// The entries of a line lie among the nodes that were looked at.
proof fn lemma_lineage_len(nodes: Seq<NodeView>, upper: int, count: int)
    requires
        count >= 1,
    ensures
        lineage(nodes, upper, count).len() < count,
    decreases count,
{
    if count > 1 {
        lemma_lineage_len(nodes, upper, count - 1);
    }
}

/// The offspring grows by the newcomers that hang at `parent`.
proof fn lemma_offspring_grows(
    nodes: Seq<NodeView>,
    after: Seq<NodeView>,
    hook: Option<NodeId>,
    parent: int,
    count: nat,
)
    requires
        nodes.len() + count <= after.len() <= usize::MAX,
        forall|i: int|
            0 <= i < nodes.len() ==> (#[trigger] after[i]).parent == (#[trigger] nodes[i]).parent,
        forall|i: int| nodes.len() <= i < after.len() ==> (#[trigger] after[i]).parent == hook,
    ensures
        offspring(after, parent, (nodes.len() + count) as int) == offspring(
            nodes,
            parent,
            nodes.len() as int,
        ) + (if hook matches Some(found) && found == parent {
            ids_from(nodes.len(), count)
        } else {
            Seq::empty()
        }),
    decreases count,
{
    let before = offspring(nodes, parent, nodes.len() as int);
    if count == 0 {
        lemma_offspring_same(after, nodes, parent, nodes.len() as int);
        assert(before + Seq::<NodeId>::empty() =~= before);
        assert(before + ids_from(nodes.len(), 0) =~= before);
    } else {
        let less = (count - 1) as nat;
        lemma_offspring_grows(nodes, after, hook, parent, less);
        assert(after[(nodes.len() + less) as int].parent == hook);
        assert(ids_from(nodes.len(), count) =~= ids_from(nodes.len(), less).push(
            (nodes.len() + less) as usize,
        ));
        assert((before + ids_from(nodes.len(), less)).push((nodes.len() + less) as usize) =~= before
            + ids_from(nodes.len(), count));
    }
}

/// A line grows by the newcomers below `upper`.
proof fn lemma_lineage_grows(
    nodes: Seq<NodeView>,
    after: Seq<NodeView>,
    hook: NodeId,
    upper: int,
    count: nat,
)
    requires
        1 <= nodes.len(),
        hook < nodes.len(),
        nodes.len() + count <= after.len() <= usize::MAX,
        0 <= upper < after.len(),
        forall|i: int|
            0 <= i < nodes.len() ==> (#[trigger] after[i]).parent == (#[trigger] nodes[i]).parent,
        forall|i: int| nodes.len() <= i < after.len() ==> (#[trigger] after[i]).parent == Some(hook),
    ensures
        upper < nodes.len() ==> lineage(after, upper, (nodes.len() + count) as int) == lineage(
            nodes,
            upper,
            nodes.len() as int,
        ) + (if above(nodes, upper, hook as int) {
            ids_from(nodes.len(), count)
        } else {
            Seq::empty()
        }),
        upper >= nodes.len() ==> lineage(after, upper, (nodes.len() + count) as int) == (if upper
            < nodes.len() + count {
            seq![upper as usize]
        } else {
            Seq::empty()
        }),
    decreases count,
{
    let before = lineage(nodes, upper, nodes.len() as int);
    if count == 0 {
        lemma_lineage_same(after, nodes, upper, nodes.len() as int);
        assert(before + Seq::<NodeId>::empty() =~= before);
        assert(before + ids_from(nodes.len(), 0) =~= before);
        if upper >= nodes.len() {
            lemma_lineage_absent(after, upper, nodes.len() as int);
        }
    } else {
        let less = (count - 1) as nat;
        lemma_lineage_grows(nodes, after, hook, upper, less);
        let last = nodes.len() + less;
        assert(after[last as int].parent == Some(hook));
        lemma_above_same(after, nodes, upper, hook as int);
        assert(above(after, upper, last as int) == (upper == last || above(nodes, upper, hook as int)));
        if above(nodes, upper, hook as int) {
            lemma_above_order(nodes, upper, hook as int);
        }
        assert(ids_from(nodes.len(), count) =~= ids_from(nodes.len(), less).push(last as usize));
        assert((before + ids_from(nodes.len(), less)).push(last as usize) =~= before + ids_from(
            nodes.len(),
            count,
        ));
        assert(Seq::<NodeId>::empty().push(upper as usize) =~= seq![upper as usize]);
    }
}

/// No line has a node that comes after the ones that were looked at.
proof fn lemma_lineage_absent(nodes: Seq<NodeView>, upper: int, count: int)
    requires
        count <= nodes.len(),
        upper >= count,
    ensures
        lineage(nodes, upper, count) == Seq::<NodeId>::empty(),
    decreases count,
{
    if count > 1 {
        lemma_lineage_absent(nodes, upper, count - 1);
        if above(nodes, upper, count - 1) {
            lemma_above_order(nodes, upper, count - 1);
        }
    }
}

/// A batch keeps the tree well formed.
pub proof fn growth_is_well_formed(
    strategy: Strategy,
    nodes: Seq<NodeView>,
    iteration: nat,
    parent: Option<NodeId>,
    outcomes: Seq<OutcomeView>,
)
    requires
        well_formed(strategy, nodes),
        parent matches Some(parent) ==> ROOT < parent < nodes.len(),
        nodes.len() + outcomes.len() <= usize::MAX,
    ensures
        well_formed(strategy, grown(strategy, nodes, iteration, parent, outcomes)),
{
    let after = grown(strategy, nodes, iteration, parent, outcomes);
    let hook = link(strategy, parent);
    let count = outcomes.len();
    assert(node_formed(strategy, nodes, 0));
    assert forall|i: int| 0 <= i < nodes.len() implies (#[trigger] after[i]).parent == (
    #[trigger] nodes[i]).parent by {}
    assert forall|i: int| nodes.len() <= i < after.len() implies (#[trigger] after[i]).parent
        == hook by {}
    assert forall|i: int| 0 <= i < after.len() implies node_formed(strategy, after, i) by {
        lemma_offspring_grows(nodes, after, hook, i, count);
        if strategy == Strategy::Mcts {
            lemma_lineage_grows(nodes, after, hook->Some_0, i, count);
            lemma_lineage_len(after, i, after.len() as int);
        }
        if i < nodes.len() {
            assert(node_formed(strategy, nodes, i));
            if hook matches Some(found) && found == i {
            } else {
                assert(nodes[i].children + Seq::<NodeId>::empty() =~= nodes[i].children);
            }
            assert(nodes[i].credits + Seq::<NodeId>::empty() =~= nodes[i].credits);
            if strategy == Strategy::Mcts && parent is None && i == ROOT {
                assert(after[i].children == nodes[i].children + ids_from(nodes.len(), count));
            }
        } else {
            assert forall|j: int| 0 <= j < nodes.len() implies ((#[trigger] nodes[j]).parent matches Some(
                found,
            ) ==> found < j) by {
                assert(node_formed(strategy, nodes, j));
            }
            lemma_offspring_absent(nodes, i, nodes.len() as int);
            assert(Seq::<NodeId>::empty() + Seq::<NodeId>::empty() =~= Seq::<NodeId>::empty());
        }
    }
}

/// No node hangs at one that comes later.
proof fn lemma_offspring_absent(nodes: Seq<NodeView>, parent: int, count: int)
    requires
        count <= nodes.len(),
        parent >= count,
        forall|i: int|
            0 <= i < count ==> ((#[trigger] nodes[i]).parent matches Some(found) ==> found < i),
    ensures
        offspring(nodes, parent, count) == Seq::<NodeId>::empty(),
    decreases count,
{
    if count > 0 {
        lemma_offspring_absent(nodes, parent, count - 1);
        assert(nodes[count - 1].parent matches Some(found) ==> found < count - 1);
    }
}

/// Marking a dead end keeps the tree well formed.
pub proof fn mark_is_well_formed(strategy: Strategy, nodes: Seq<NodeView>, id: int)
    requires
        well_formed(strategy, nodes),
        0 <= id < nodes.len(),
    ensures
        well_formed(strategy, nodes.update(id, NodeView { terminal: true, ..nodes[id] })),
{
    let after = nodes.update(id, NodeView { terminal: true, ..nodes[id] });
    assert forall|i: int| 0 <= i < nodes.len() implies (#[trigger] after[i]).parent == (
    #[trigger] nodes[i]).parent by {}
    assert forall|i: int| 0 <= i < after.len() implies node_formed(strategy, after, i) by {
        assert(node_formed(strategy, nodes, i));
        lemma_offspring_same(after, nodes, i, nodes.len() as int);
        lemma_lineage_same(after, nodes, i, nodes.len() as int);
    }
}

} // verus!
