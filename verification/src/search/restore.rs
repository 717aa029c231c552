//! Reading a search back from what is kept of it.
use crate::number::EXACT;
use crate::search::config::Strategy;
use crate::search::node::{Node, NodeId, NodeView, Status, ROOT};
use crate::search::state;
use crate::search::state::{SearchState, StateView};
use crate::search::tree;
use vstd::prelude::*;

verus! {

/// A search without the lists of nodes whose rewards make up the totals: what is kept of it.
pub open spec fn uncredited(search: StateView) -> StateView {
    StateView {
        nodes: Seq::new(
            search.nodes.len(),
            |i: int| NodeView { credits: Seq::empty(), ..search.nodes[i] },
        ),
        ..search
    }
}

/// The nodes whose rewards make up the total of the node `id`: its line in a tree search.
pub open spec fn credits_of(strategy: Strategy, nodes: Seq<NodeView>, id: int) -> Seq<NodeId> {
    if strategy == Strategy::Mcts {
        tree::lineage(nodes, id, nodes.len() as int)
    } else {
        Seq::empty()
    }
}

/// A search with the lists of nodes whose rewards make up the totals.
pub open spec fn credited(search: StateView) -> StateView {
    StateView {
        nodes: Seq::new(
            search.nodes.len(),
            |i: int|
                NodeView {
                    credits: credits_of(search.strategy, search.nodes, i),
                    ..search.nodes[i]
                },
        ),
        ..search
    }
}

/// A sound search comes back from what is kept of it.
pub proof fn kept_searches_come_back(search: StateView)
    requires
        search.sound(),
    ensures
        credited(uncredited(search)) == search,
{
    let kept = uncredited(search);
    let back = credited(kept);
    assert forall|i: int| 0 <= i < search.nodes.len() implies back.nodes[i] == search.nodes[i] by {
        assert(tree::node_formed(search.strategy, search.nodes, i));
        tree::lemma_lineage_same(kept.nodes, search.nodes, i, search.nodes.len() as int);
        assert(back.nodes[i] =~= search.nodes[i]);
    }
    assert(back.nodes =~= search.nodes);
    assert(back =~= search);
}

fn is_above(nodes: &Vec<Node>, upper: usize, lower: usize) -> (found: bool)
    requires
        lower < nodes@.len(),
    ensures
        found == tree::above(tree::nodes_view(nodes@), upper as int, lower as int),
    decreases lower,
{
    if upper == lower {
        return true;
    }
    match nodes[lower].parent {
        Some(parent) => parent < lower && is_above(nodes, upper, parent),
        None => false,
    }
}

fn find_line(nodes: &Vec<Node>, upper: usize) -> (line: Vec<NodeId>)
    ensures
        line@ == tree::lineage(tree::nodes_view(nodes@), upper as int, nodes@.len() as int),
{
    let ghost all = tree::nodes_view(nodes@);
    let mut line: Vec<NodeId> = Vec::new();
    if nodes.len() == 0 {
        assert(line@ =~= tree::lineage(all, upper as int, 0));
        return line;
    }
    let mut count: usize = 1;
    assert(line@ =~= tree::lineage(all, upper as int, 1));
    while count < nodes.len()
        invariant
            1 <= count <= nodes@.len(),
            all == tree::nodes_view(nodes@),
            line@ == tree::lineage(all, upper as int, count as int),
        decreases nodes@.len() - count,
    {
        if is_above(nodes, upper, count) {
            line.push(count);
        }
        count += 1;
    }
    line
}

fn find_offspring(nodes: &Vec<Node>, parent: usize) -> (list: Vec<NodeId>)
    ensures
        list@ == tree::offspring(tree::nodes_view(nodes@), parent as int, nodes@.len() as int),
{
    let ghost all = tree::nodes_view(nodes@);
    let mut list: Vec<NodeId> = Vec::new();
    let mut count: usize = 0;
    assert(list@ =~= tree::offspring(all, parent as int, 0));
    while count < nodes.len()
        invariant
            count <= nodes@.len(),
            all == tree::nodes_view(nodes@),
            list@ == tree::offspring(all, parent as int, count as int),
        decreases nodes@.len() - count,
    {
        if let Some(found) = nodes[count].parent {
            if found == parent {
                list.push(count);
            }
        }
        count += 1;
    }
    list
}

fn same_ids(left: &Vec<NodeId>, right: &Vec<NodeId>) -> (same: bool)
    ensures
        same == (left@ == right@),
{
    if left.len() != right.len() {
        return false;
    }
    let mut index: usize = 0;
    while index < left.len()
        invariant
            index <= left@.len(),
            left@.len() == right@.len(),
            forall|i: int| 0 <= i < index ==> #[trigger] left@[i] == right@[i],
        decreases left@.len() - index,
    {
        if left[index] != right[index] {
            return false;
        }
        index += 1;
    }
    assert(left@ =~= right@);
    true
}

/// Whether the node `id` has its place in the tree; its credits were just found.
fn is_formed(strategy: Strategy, nodes: &Vec<Node>, id: usize) -> (formed: bool)
    requires
        id < nodes@.len(),
        nodes@[id as int].credits@ == credits_of(strategy, tree::nodes_view(nodes@), id as int),
    ensures
        formed == tree::node_formed(strategy, tree::nodes_view(nodes@), id as int),
{
    let node = &nodes[id];
    assert(tree::nodes_view(nodes@)[id as int] == node@);
    let hangs = match node.parent {
        Some(parent) => parent < id && (strategy == Strategy::Mcts || parent != ROOT),
        None => strategy == Strategy::Greedy || id == ROOT,
    };
    node.id == id && node.visits == node.credits.len() as u64 && node.visits < nodes.len() as u64
        && hangs && same_ids(&node.children, &find_offspring(nodes, id))
}

fn all_formed(strategy: Strategy, nodes: &Vec<Node>) -> (formed: bool)
    requires
        forall|i: int|
            0 <= i < nodes@.len() ==> (#[trigger] nodes@[i]).credits@ == credits_of(
                strategy,
                tree::nodes_view(nodes@),
                i,
            ),
    ensures
        formed == tree::well_formed(strategy, tree::nodes_view(nodes@)),
{
    if nodes.len() == 0 || nodes[0].parent.is_some() {
        return false;
    }
    let mut id: usize = 0;
    while id < nodes.len()
        invariant
            id <= nodes@.len(),
            forall|i: int|
                0 <= i < nodes@.len() ==> (#[trigger] nodes@[i]).credits@ == credits_of(
                    strategy,
                    tree::nodes_view(nodes@),
                    i,
                ),
            forall|i: int|
                0 <= i < id ==> tree::node_formed(strategy, tree::nodes_view(nodes@), i),
        decreases nodes@.len() - id,
    {
        if !is_formed(strategy, nodes, id) {
            return false;
        }
        id += 1;
    }
    true
}

/// Whether every node but the root has an outcome that can be recorded and belongs to a batch.
spec fn all_ended(search: StateView) -> bool {
    forall|i: int|
        0 < i < search.nodes.len() ==> {
            &&& (#[trigger] search.nodes[i]).outcome.refusal() is None
            &&& 0 <= search.nodes[i].iteration < search.current_iteration
        }
}

impl SearchState {
    fn has_ended(&self) -> (ended: bool)
        ensures
            ended == all_ended(self@),
    {
        let mut id: usize = 1;
        while id < self.nodes.len()
            invariant
                1 <= id,
                forall|i: int|
                    0 < i < id && i < self@.nodes.len() ==> {
                        &&& (#[trigger] self@.nodes[i]).outcome.refusal() is None
                        &&& 0 <= self@.nodes[i].iteration < self@.current_iteration
                    },
            decreases self.nodes@.len() - id,
        {
            let node = &self.nodes[id];
            assert(self@.nodes[id as int] == node@);
            let valid = match node.outcome.validate() {
                Ok(()) => true,
                Err(_) => false,
            };
            if !valid || node.iteration < 0 || node.iteration as u64 >= self.current_iteration as u64 {
                return false;
            }
            id += 1;
        }
        true
    }

    fn has_finite_history(&self) -> (finite: bool)
        ensures
            finite == forall|i: int|
                0 <= i < self@.speedup_history.len() ==> (
                #[trigger] self@.speedup_history[i]).finite(),
    {
        let mut index: usize = 0;
        while index < self.speedup_history.len()
            invariant
                index <= self.speedup_history@.len(),
                forall|i: int|
                    0 <= i < index ==> (#[trigger] self@.speedup_history[i]).finite(),
            decreases self.speedup_history@.len() - index,
        {
            if !self.speedup_history[index].is_finite() {
                assert(!self@.speedup_history[index as int].finite());
                return false;
            }
            index += 1;
        }
        true
    }

    /// Whether what holds of every search holds; the credits were just found.
    fn is_sound(&self) -> (sound: bool)
        requires
            forall|i: int|
                0 <= i < self.nodes@.len() ==> (#[trigger] self.nodes@[i]).credits@ == credits_of(
                    self.strategy,
                    self@.nodes,
                    i,
                ),
        ensures
            sound == self@.sound(),
    {
        let valid = match self.config.validate() {
            Ok(()) => true,
            Err(_) => false,
        };
        if !valid || !all_formed(self.strategy, &self.nodes) {
            return false;
        }
        assert(self@.nodes[0] == self.nodes@[0]@);
        let best = self.batch_best(1);
        let length: usize = self.speedup_history.len();
        let fits = self.consecutive_failures <= self.current_iteration && length
            <= self.current_iteration - self.consecutive_failures;
        let same_best = match (self.current_best, best) {
            (Some(left), Some(right)) => left == right,
            (None, None) => true,
            _ => false,
        };
        self.nodes.len() as u64 <= EXACT && self.nodes[0].outcome.status == Status::Pending
            && self.has_ended() && same_best && fits && (self.strategy == Strategy::Greedy || length
            == 0) && self.has_finite_history()
    }

    /// The search of which everything but the credits is kept, unless there is no such search.
    pub fn restore(kept: SearchState) -> (result: Result<SearchState, String>)
        ensures
            match result {
                Ok(search) => search@ == credited(kept@) && search@.sound(),
                Err(error) => !credited(kept@).sound() && error@ == "unsound search"@,
            },
    {
        let mut search = kept;
        let ghost given = kept@;
        let mut id: usize = 0;
        while id < search.nodes.len()
            invariant
                id <= search.nodes@.len(),
                search.nodes@.len() == given.nodes.len(),
                search@ == (StateView { nodes: search@.nodes, ..given }),
                forall|i: int|
                    0 <= i < given.nodes.len() ==> #[trigger] search@.nodes[i] == (if i < id {
                        credited(given).nodes[i]
                    } else {
                        given.nodes[i]
                    }),
            decreases search.nodes@.len() - id,
        {
            let ghost before = search@.nodes;
            let ghost strategy = search.strategy;
            let credits = match search.strategy {
                Strategy::Mcts => find_line(&search.nodes, id),
                Strategy::Greedy => Vec::new(),
            };
            proof {
                assert forall|i: int| 0 <= i < given.nodes.len() implies (
                #[trigger] before[i]).parent == (#[trigger] given.nodes[i]).parent by {}
                tree::lemma_lineage_same(before, given.nodes, id as int, given.nodes.len() as int);
                assert(credits@ =~= credits_of(strategy, given.nodes, id as int));
            }
            let ghost found = credits@;
            search.nodes[id].credits = credits;
            assert(search.nodes@[id as int].credits@ == found);
            id += 1;
            proof {
                assert forall|i: int| 0 <= i < given.nodes.len() implies #[trigger] search@.nodes[i]
                    == (if i < id {
                    credited(given).nodes[i]
                } else {
                    given.nodes[i]
                }) by {
                    if i == id - 1 {
                        assert(before[i] == given.nodes[i]);
                        assert(search@.nodes[i] =~= credited(given).nodes[i]);
                    } else {
                        assert(search@.nodes[i] == before[i]);
                    }
                }
            }
        }
        proof {
            assert(search@.nodes =~= credited(given).nodes);
            assert(search@ =~= credited(given));
            assert forall|i: int| 0 <= i < search.nodes@.len() implies (
            #[trigger] search.nodes@[i]).credits@ == credits_of(
                search.strategy,
                search@.nodes,
                i,
            ) by {
                assert(search@.nodes[i] == search.nodes@[i]@);
                tree::lemma_lineage_same(
                    search@.nodes,
                    given.nodes,
                    i,
                    given.nodes.len() as int,
                );
            }
        }
        if search.is_sound() {
            Ok(search)
        } else {
            Err("unsound search".to_owned())
        }
    }
}

} // verus!
