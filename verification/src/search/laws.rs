//! What holds of every choice of a parent and of every batch.
use crate::json::JsonView;
use crate::number;
use crate::number::Real;
use crate::numeral;
use crate::search::config::{SearchConfig, Strategy};
use crate::search::greedy;
use crate::search::mcts;
use crate::search::mcts::{ScoresView, Stop};
use crate::search::node::{NodeId, NodeView, OutcomeView, Status, ROOT};
use crate::search::order;
use crate::search::record;
use crate::search::replay;
use crate::search::state;
use crate::search::state::StateView;
use crate::search::tree;
use vstd::prelude::*;

verus! {

/// Whether a node has a child that is no dead end.
pub open spec fn is_open(nodes: Seq<NodeView>, id: int, child: int) -> bool {
    &&& 0 <= child < nodes.len()
    &&& nodes[id].children.contains(child as usize)
    &&& !nodes[child].terminal
}

/// Whether one more child fits below a node: it is the first, or the width of the node is at least
/// as large as their number would be; and their number would not exceed a cap other than zero.
pub open spec fn fits(
    config: SearchConfig,
    nodes: Seq<NodeView>,
    scores: ScoresView,
    id: int,
) -> bool {
    let wanted = nodes[id].children.len() as int + 1;
    &&& wanted == 1 || number::rank_of_integer(wanted) <= scores.width[id].rank
        <= number::INFINITE
    &&& match config.max_children_per_node {
        Some(cap) => cap == 0 || wanted <= cap,
        None => true,
    }
}

/// Whether a descent goes from one node to another: to the first of its children with the highest
/// score that are no dead ends, unless one more child fits and would score higher still.
pub open spec fn goes(
    config: SearchConfig,
    nodes: Seq<NodeView>,
    scores: ScoresView,
    from: int,
    to: int,
) -> bool {
    &&& is_open(nodes, from, to)
    &&& forall|child: int|
        #[trigger] is_open(nodes, from, child) ==> {
            &&& scores.uct[child].rank <= scores.uct[to].rank
            &&& child < to ==> scores.uct[child].rank < scores.uct[to].rank
        }
    &&& fits(config, nodes, scores, from) ==> scores.virtual_uct[from].rank
        <= scores.uct[to].rank
}

/// Whether a way leads down from a node, from child to child.
pub open spec fn leads(
    config: SearchConfig,
    nodes: Seq<NodeView>,
    scores: ScoresView,
    start: int,
    way: Seq<int>,
) -> bool {
    &&& way.len() > 0
    &&& way[0] == start
    &&& forall|k: int| 0 <= k < way.len() ==> 0 <= #[trigger] way[k] < nodes.len()
    &&& forall|k: int|
        0 <= k < way.len() - 1 ==> #[trigger] goes(config, nodes, scores, way[k], way[k + 1])
}

/// How many nodes of a way, its last not counted, have no room for one more child.
pub open spec fn gates(
    config: SearchConfig,
    nodes: Seq<NodeView>,
    scores: ScoresView,
    way: Seq<int>,
) -> nat
    decreases way.len(),
{
    if way.len() <= 1 {
        0
    } else {
        gates(config, nodes, scores, way.drop_first()) + if fits(config, nodes, scores, way[0]) {
            0nat
        } else {
            1nat
        }
    }
}

/// Whether a descent ends at a node: it has no children, or all of them are dead ends, or one more
/// child fits and would score higher than each of them.
pub open spec fn rests(
    config: SearchConfig,
    nodes: Seq<NodeView>,
    scores: ScoresView,
    id: int,
) -> bool {
    (exists|child: int| #[trigger] is_open(nodes, id, child)) ==> {
        &&& fits(config, nodes, scores, id)
        &&& forall|child: int| #[trigger]
            is_open(nodes, id, child) ==> scores.uct[child].rank < scores.virtual_uct[id].rank
    }
}

proof fn lemma_open(nodes: Seq<NodeView>, id: NodeId, end: int)
    requires
        0 <= end <= nodes[id as int].children.len(),
        forall|i: int| 0 <= i < end ==> (#[trigger] nodes[id as int].children[i]) < nodes.len(),
        forall|i: int, j: int|
            0 <= i < j < end ==> (#[trigger] nodes[id as int].children[i]) < (
            #[trigger] nodes[id as int].children[j]),
    ensures
        forall|i: int|
            0 <= i < end && !nodes[(#[trigger] nodes[id as int].children[i]) as int].terminal
                ==> mcts::open_children(nodes, id, end).contains(nodes[id as int].children[i]),
        forall|i: int|
            0 <= i < mcts::open_children(nodes, id, end).len() ==> {
                let child = #[trigger] mcts::open_children(nodes, id, end)[i];
                &&& !nodes[child as int].terminal
                &&& nodes[id as int].children.take(end).contains(child)
            },
        forall|i: int, j: int|
            0 <= i < j < mcts::open_children(nodes, id, end).len() ==> (
            #[trigger] mcts::open_children(nodes, id, end)[i]) < (
            #[trigger] mcts::open_children(nodes, id, end)[j]),
    decreases end,
{
    if end > 0 {
        lemma_open(nodes, id, end - 1);
        let children = nodes[id as int].children;
        let short = children.take(end - 1);
        let before = mcts::open_children(nodes, id, end - 1);
        let all = mcts::open_children(nodes, id, end);
        assert forall|i: int|
            0 <= i < end && !nodes[(#[trigger] children[i]) as int].terminal implies all.contains(
            children[i],
        ) by {
            if i < end - 1 {
                let at = choose|at: int| 0 <= at < before.len() && before[at] == children[i];
                assert(all[at] == children[i]);
            } else {
                assert(all[all.len() - 1] == children[i]);
            }
        }
        assert forall|i: int| 0 <= i < all.len() implies {
            let child = #[trigger] all[i];
            &&& !nodes[child as int].terminal
            &&& children.take(end).contains(child)
        } by {
            if i < before.len() {
                assert(all[i] == before[i]);
                let at = choose|at: int|
                    0 <= at < short.len() && short[at] == before[i];
                assert(children.take(end)[at] == before[i]);
            } else {
                assert(children.take(end)[end - 1] == all[i]);
            }
        }
        assert forall|i: int, j: int| 0 <= i < j < all.len() implies (#[trigger] all[i]) < (
        #[trigger] all[j]) by {
            assert(all[i] == before[i]);
            if j < before.len() {
                assert(all[j] == before[j]);
            } else {
                let at = choose|at: int|
                    0 <= at < short.len() && short[at] == before[i];
                assert(children[at] < children[end - 1]);
            }
        }
    }
}

proof fn lemma_offspring_sorted(nodes: Seq<NodeView>, parent: int, count: int)
    requires
        count <= nodes.len() <= usize::MAX,
    ensures
        forall|i: int, j: int|
            0 <= i < j < tree::offspring(nodes, parent, count).len() ==> (
            #[trigger] tree::offspring(nodes, parent, count)[i]) < (
            #[trigger] tree::offspring(nodes, parent, count)[j]),
    decreases count,
{
    if count > 0 {
        lemma_offspring_sorted(nodes, parent, count - 1);
        tree::lemma_offspring(nodes, parent, count - 1);
        let before = tree::offspring(nodes, parent, count - 1);
        let all = tree::offspring(nodes, parent, count);
        assert forall|i: int, j: int| 0 <= i < j < all.len() implies (#[trigger] all[i]) < (
        #[trigger] all[j]) by {
            assert(all[i] == before[i]);
            if j < before.len() {
                assert(all[j] == before[j]);
            }
        }
    }
}

/// The child that a descent goes to, and the others.
proof fn lemma_best(search: StateView, scores: ScoresView, id: NodeId)
    requires
        search.sound(),
        search.strategy == Strategy::Mcts,
        id < search.nodes.len(),
    ensures
        mcts::best_child(search.nodes, scores, id) is None <==> !exists|child: int| #[trigger]
            is_open(search.nodes, id as int, child),
        mcts::best_child(search.nodes, scores, id) matches Some(best) ==> {
            &&& is_open(search.nodes, id as int, best as int)
            &&& id < best
            &&& mcts::uct(search.nodes, scores)(best) == scores.uct[best as int].rank
            &&& forall|child: int|
                #[trigger] is_open(search.nodes, id as int, child) ==> {
                    &&& scores.uct[child].rank <= scores.uct[best as int].rank
                    &&& child < best ==> scores.uct[child].rank < scores.uct[best as int].rank
                }
        },
{
    let nodes = search.nodes;
    let children = nodes[id as int].children;
    let end = children.len() as int;
    assert(tree::node_formed(search.strategy, nodes, id as int));
    tree::lemma_offspring(nodes, id as int, nodes.len() as int);
    lemma_offspring_sorted(nodes, id as int, nodes.len() as int);
    lemma_open(nodes, id, end);
    assert(children.take(end) =~= children);
    let open = mcts::open_children(nodes, id, end);
    let score = mcts::uct(nodes, scores);
    order::first_best_is_highest(open, score);
    assert forall|child: int| is_open(nodes, id as int, child) implies {
        &&& open.contains(child as usize)
        &&& score(child as usize) == scores.uct[child].rank
        &&& id < child
    } by {
        let at = choose|at: int| 0 <= at < children.len() && children[at] == child as usize;
        assert(children[at] as int == child);
        assert(tree::node_formed(search.strategy, nodes, child));
        record::visits_count_descendants(search, child);
    }
    match mcts::best_child(nodes, scores, id) {
        None => {
            assert forall|child: int| !is_open(nodes, id as int, child) by {
                if is_open(nodes, id as int, child) {
                    assert(open.contains(child as usize));
                }
            }
        },
        Some(best) => {
            let place = choose|place: int|
                {
                    &&& 0 <= place < open.len()
                    &&& #[trigger] open[place] == best
                    &&& forall|i: int| 0 <= i < place ==> score(#[trigger] open[i]) < score(best)
                };
            assert(open[place] == best);
            let at = choose|at: int| 0 <= at < children.len() && children[at] == best;
            assert(children[at] < nodes.len());
            assert(is_open(nodes, id as int, best as int));
            assert forall|child: int| #[trigger] is_open(nodes, id as int, child) implies {
                &&& scores.uct[child].rank <= scores.uct[best as int].rank
                &&& child < best ==> scores.uct[child].rank < scores.uct[best as int].rank
            } by {
                let i = choose|i: int| 0 <= i < open.len() && open[i] == child as usize;
                if child < best && i >= place {
                    if i > place {
                        assert(open[place] < open[i]);
                    }
                }
            }
        },
    }
}

proof fn lemma_way(search: StateView, scores: ScoresView, id: NodeId) -> (way: Seq<int>)
    requires
        search.sound(),
        search.strategy == Strategy::Mcts,
        id < search.nodes.len(),
    ensures
        leads(search.config, search.nodes, scores, id as int, way),
        rests(search.config, search.nodes, scores, way.last()),
        mcts::descent(search.config, search.nodes, scores, id).closures == gates(
            search.config,
            search.nodes,
            scores,
            way,
        ),
        mcts::descent(search.config, search.nodes, scores, id).stop == (if search.nodes[way.last()].children.len()
            == 0 {
            Stop::Leaf(way.last() as usize)
        } else if exists|child: int| #[trigger] is_open(search.nodes, way.last(), child) {
            Stop::NewChild(way.last() as usize)
        } else {
            Stop::DeadEnd(way.last() as usize)
        }),
    decreases search.nodes.len() - id,
{
    let nodes = search.nodes;
    lemma_best(search, scores, id);
    record::visits_count_descendants(search, id as int);
    assert(mcts::has_room(search.config, nodes, scores, id) == fits(
        search.config,
        nodes,
        scores,
        id as int,
    ));
    let here = seq![id as int];
    if nodes[id as int].children.len() == 0 {
        here
    } else {
        match mcts::best_child(nodes, scores, id) {
            None => here,
            Some(child) => {
                assert(is_open(nodes, id as int, child as int));
                assert(nodes.len() > 1);
                if mcts::has_room(search.config, nodes, scores, id) && mcts::virtual_uct(
                    nodes,
                    scores,
                    id,
                ) > mcts::uct(nodes, scores)(child) {
                    here
                } else {
                    let rest = lemma_way(search, scores, child);
                    let way = here + rest;
                    assert(way.drop_first() =~= rest);
                    assert(way.last() == rest.last());
                    assert(goes(search.config, nodes, scores, id as int, child as int));
                    assert forall|k: int| 0 <= k < way.len() - 1 implies #[trigger] goes(
                        search.config,
                        nodes,
                        scores,
                        way[k],
                        way[k + 1],
                    ) by {
                        if k > 0 {
                            assert(goes(
                                search.config,
                                nodes,
                                scores,
                                rest[k - 1],
                                rest[k - 1 + 1],
                            ));
                        }
                    }
                    way
                }
            },
        }
    }
}

/// A tree search picks the node at the end of a way down from the root. At each step the way goes
/// to the child with the highest entry in the table of scores that is no dead end, the first of
/// them where several have it, and stops before that only where one more child fits and has a
/// higher entry than all of them. No parent is picked at the root, nor where all children are dead
/// ends, which makes their parent one.
pub proof fn descent_follows_the_scores(search: StateView, scores: ScoresView)
    requires
        search.sound(),
        search.strategy == Strategy::Mcts,
    ensures
        ({
            let (after, chosen) = mcts::selected(search, scores);
            exists|way: Seq<int>|
                {
                    let end = way.last();
                    let leaf = search.nodes[end].children.len() == 0;
                    let grows = exists|child: int| #[trigger] is_open(search.nodes, end, child);
                    &&& #[trigger] leads(search.config, search.nodes, scores, ROOT as int, way)
                    &&& rests(search.config, search.nodes, scores, end)
                    &&& chosen == (if end != ROOT && (leaf || grows) {
                        Some(end as usize)
                    } else {
                        None
                    })
                    &&& after.nodes == (if leaf || grows {
                        search.nodes
                    } else {
                        search.nodes.update(
                            end,
                            NodeView { terminal: true, ..search.nodes[end] },
                        )
                    })
                    &&& after.pw_gate_closures == search.pw_gate_closures + gates(
                        search.config,
                        search.nodes,
                        scores,
                        way,
                    )
                    &&& after.virtual_child_wins == search.virtual_child_wins + (if grows {
                        1nat
                    } else {
                        0nat
                    })
                    &&& after.root_expansions == search.root_expansions + (if end == ROOT && (leaf
                        || grows) {
                        1nat
                    } else {
                        0nat
                    })
                }
        }),
{
    let way = lemma_way(search, scores, ROOT);
    let end = way.last();
    assert(leads(search.config, search.nodes, scores, ROOT as int, way));
    assert(way[way.len() - 1] == end);
    assert forall|child: int| #[trigger] is_open(search.nodes, end, child) implies search.nodes[end].children.len()
        > 0 by {
        let at = choose|at: int|
            0 <= at < search.nodes[end].children.len() && search.nodes[end].children[at]
                == child as usize;
        assert(search.nodes[end].children[at] == child as usize);
    }
}

/// What a failure is called.
pub open spec fn said(outcome: OutcomeView) -> Option<Seq<char>> {
    match outcome.error_context {
        Some(error) => error.at("error_type"@).text(),
        None => None,
    }
}

/// How far a failure deviates from what was expected; not at all where it does not say.
pub open spec fn deviation(outcome: OutcomeView) -> int {
    match outcome.error_context {
        Some(error) => match error.at("max_diff"@).reading() {
            Some(reading) => reading.value.rank as int,
            None => 0,
        },
        None => 0,
    }
}

/// The measured speedup, or zero.
pub open spec fn pace(outcome: OutcomeView) -> int {
    match outcome.speedup {
        Some(speedup) => speedup.rank as int,
        None => 0,
    }
}

/// Whether the output was merely not the expected one.
pub open spec fn is_wrong(outcome: OutcomeView) -> bool {
    said(outcome) == Some("correctness_error"@)
}

/// Whether the candidate ran and broke off.
pub open spec fn is_broken(outcome: OutcomeView) -> bool {
    said(outcome) == Some("RuntimeError"@) || said(outcome) == Some("CudaError"@) || said(outcome)
        == Some("execution_error"@) || said(outcome) == Some("cuda_compile_runtime_error"@)
}

/// Whether the candidate could not be loaded.
pub open spec fn is_unreadable(outcome: OutcomeView) -> bool {
    said(outcome) == Some("SyntaxError"@) || said(outcome) == Some("ImportError"@)
}

/// Whether a node is a failure that can be tried again: of the latest iteration, unless the set-up
/// says that older ones count too.
pub open spec fn retries(search: StateView, id: int) -> bool {
    &&& 0 < id < search.nodes.len()
    &&& search.nodes[id].outcome.status == Status::Failed
    &&& search.config.use_recent_failed_only != Some(false) ==> forall|other: int|
        0 < other < search.nodes.len() ==> (#[trigger] search.nodes[other]).iteration
            <= search.nodes[id].iteration
}

proof fn lemma_failures_complete(nodes: Seq<NodeView>, iteration: Option<int>, end: int)
    requires
        1 <= end <= nodes.len() <= usize::MAX,
    ensures
        forall|id: int|
            0 < id < end && (#[trigger] nodes[id]).outcome.status == Status::Failed && (iteration
                is None || iteration == Some(nodes[id].iteration)) ==> greedy::failures(
                nodes,
                iteration,
                end,
            ).contains(id as usize),
        forall|i: int|
            0 <= i < greedy::failures(nodes, iteration, end).len() ==> {
                let id = #[trigger] greedy::failures(nodes, iteration, end)[i];
                &&& 0 < id < end
                &&& nodes[id as int].outcome.status == Status::Failed
                &&& iteration is None || iteration == Some(nodes[id as int].iteration)
            },
        forall|i: int, j: int|
            0 <= i < j < greedy::failures(nodes, iteration, end).len() ==> (
            #[trigger] greedy::failures(nodes, iteration, end)[i]) < (
            #[trigger] greedy::failures(nodes, iteration, end)[j]),
    decreases end,
{
    if end > 1 {
        lemma_failures_complete(nodes, iteration, end - 1);
        let before = greedy::failures(nodes, iteration, end - 1);
        let all = greedy::failures(nodes, iteration, end);
        assert forall|id: int|
            0 < id < end && (#[trigger] nodes[id]).outcome.status == Status::Failed && (iteration
                is None || iteration == Some(nodes[id].iteration)) implies all.contains(
            id as usize,
        ) by {
            if id < end - 1 {
                let at = choose|at: int| 0 <= at < before.len() && before[at] == id as usize;
                assert(all[at] == id as usize);
            } else {
                assert(all[all.len() - 1] == id as usize);
            }
        }
        assert forall|i: int| 0 <= i < all.len() implies {
            let id = #[trigger] all[i];
            &&& 0 < id < end
            &&& nodes[id as int].outcome.status == Status::Failed
            &&& iteration is None || iteration == Some(nodes[id as int].iteration)
        } by {
            if i < before.len() {
                assert(all[i] == before[i]);
            }
        }
        assert forall|i: int, j: int| 0 <= i < j < all.len() implies (#[trigger] all[i]) < (
        #[trigger] all[j]) by {
            assert(all[i] == before[i]);
            if j < before.len() {
                assert(all[j] == before[j]);
            }
        }
    }
}

proof fn lemma_nearest(ids: Seq<NodeId>, nodes: Seq<NodeView>)
    ensures
        order::first_best(ids, greedy::nearer_nodes(nodes)) is None <==> ids.len() == 0,
        order::first_best(ids, greedy::nearer_nodes(nodes)) matches Some(best) ==> {
            &&& forall|i: int|
                0 <= i < ids.len() ==> !greedy::nearer(
                    greedy::priority_of(nodes[(#[trigger] ids[i]) as int]),
                    greedy::priority_of(nodes[best as int]),
                )
            &&& exists|place: int|
                {
                    &&& 0 <= place < ids.len()
                    &&& #[trigger] ids[place] == best
                    &&& forall|i: int|
                        0 <= i < place ==> greedy::nearer(
                            greedy::priority_of(nodes[best as int]),
                            greedy::priority_of(nodes[(#[trigger] ids[i]) as int]),
                        )
                }
        },
    decreases ids.len(),
{
    if ids.len() > 0 {
        let rest = ids.drop_last();
        let last = ids.len() - 1;
        lemma_nearest(rest, nodes);
        assert(forall|i: int| 0 <= i < last ==> #[trigger] ids[i] == rest[i]);
        match order::first_best(rest, greedy::nearer_nodes(nodes)) {
            None => {
                assert(ids[last] == ids.last());
            },
            Some(best) => {
                let place = choose|place: int|
                    {
                        &&& 0 <= place < rest.len()
                        &&& #[trigger] rest[place] == best
                        &&& forall|i: int|
                            0 <= i < place ==> greedy::nearer(
                                greedy::priority_of(nodes[best as int]),
                                greedy::priority_of(nodes[(#[trigger] rest[i]) as int]),
                            )
                    };
                if greedy::nearer(
                    greedy::priority_of(nodes[ids.last() as int]),
                    greedy::priority_of(nodes[best as int]),
                ) {
                    assert(ids[last] == ids.last());
                } else {
                    assert(ids[place] == best);
                }
            },
        }
    }
}

/// Whether a node is the fastest success, and the first of them.
pub open spec fn is_fastest(nodes: Seq<NodeView>, best: int) -> bool {
    &&& 0 < best < nodes.len()
    &&& nodes[best].outcome.status == Status::Success
    &&& forall|i: int|
        0 < i < nodes.len() && (#[trigger] nodes[i]).outcome.status == Status::Success ==> {
            &&& pace(nodes[i].outcome) <= pace(nodes[best].outcome)
            &&& i < best ==> pace(nodes[i].outcome) < pace(nodes[best].outcome)
        }
}

/// Whether the greedy strategy starts afresh: before the first batch, and after as many batches
/// without a success as the set-up allows, which is two where it does not say.
pub open spec fn starts_afresh(search: StateView) -> bool {
    search.current_iteration == 0 || search.consecutive_failures >= match search.config.max_consecutive_failures {
        Some(limit) => limit as int,
        None => 2,
    }
}

/// Whether one failure goes before another: the one that came further; of those that came equally
/// far under the same name the one that deviates less; and then the faster one, up to twice as
/// fast as the reference.
pub open spec fn goes_before(one: OutcomeView, other: OutcomeView) -> bool {
    &&& is_wrong(other) ==> is_wrong(one)
    &&& is_broken(other) ==> is_wrong(one) || is_broken(one)
    &&& is_unreadable(other) ==> is_wrong(one) || is_broken(one) || is_unreadable(one)
    &&& said(one) is Some && said(one) == said(other) ==> {
        &&& deviation(one) <= deviation(other)
        &&& deviation(one) == deviation(other) ==> pace(one) >= pace(other) || pace(one)
            >= 0x4000_0000_0000_0000
    }
}

/// The greedy strategy builds on the fastest success, the earliest of them where several are as
/// fast. Without one it tries a failure again: one that came as far as any other, and of those
/// under the same name the one that deviates least. It builds on nothing where it starts afresh,
/// and where there is nothing to build on.
pub proof fn greedy_builds_on_the_fastest(search: StateView, scores: ScoresView)
    requires
        search.sound(),
        search.strategy == Strategy::Greedy,
    ensures
        ({
            let (after, chosen) = mcts::selected(search, scores);
            let nodes = search.nodes;
            &&& after == search
            &&& starts_afresh(search) ==> chosen is None
            &&& !starts_afresh(search) && (exists|i: int|
                0 < i < nodes.len() && (#[trigger] nodes[i]).outcome.status == Status::Success)
                ==> chosen is Some && is_fastest(nodes, chosen->Some_0 as int)
            &&& !starts_afresh(search) && (forall|i: int|
                0 < i < nodes.len() ==> (#[trigger] nodes[i]).outcome.status != Status::Success)
                ==> {
                &&& chosen is None <==> forall|i: int| !#[trigger] retries(search, i)
                &&& chosen matches Some(best) ==> {
                    &&& retries(search, best as int)
                    &&& forall|i: int|
                        #[trigger] retries(search, i) ==> {
                            &&& goes_before(nodes[best as int].outcome, nodes[i].outcome)
                            &&& nodes[i].outcome == nodes[best as int].outcome ==> best <= i
                        }
                }
            }
        }),
{
    let nodes = search.nodes;
    let end = nodes.len() as int;
    state::current_best_is_highest(search);
    assert forall|i: int| 0 < i < nodes.len() implies (#[trigger] nodes[i]).successful() == (
    nodes[i].outcome.status == Status::Success) && nodes[i].speedup().rank == pace(
        nodes[i].outcome,
    ) by {}
    if !starts_afresh(search) && search.current_best is None {
        let iteration = if greedy::recent_only(search) {
            greedy::latest(nodes, end)
        } else {
            None
        };
        let ids = greedy::failures(nodes, iteration, end);
        lemma_failures_complete(nodes, iteration, end);
        lemma_latest_is_one(nodes, end);
        lemma_nearest(ids, nodes);
        assert forall|i: int| #[trigger] retries(search, i) implies ids.contains(i as usize) by {
            if greedy::recent_only(search) {
                assert(iteration == Some(nodes[i].iteration));
            }
        }
        assert forall|i: int| 0 <= i < ids.len() implies retries(
            search,
            (#[trigger] ids[i]) as int,
        ) by {}
        match order::first_best(ids, greedy::nearer_nodes(nodes)) {
            None => {
                assert forall|i: int| !#[trigger] retries(search, i) by {
                    if retries(search, i) {
                        assert(ids.contains(i as usize));
                    }
                }
            },
            Some(best) => {
                let place = choose|place: int|
                    {
                        &&& 0 <= place < ids.len()
                        &&& #[trigger] ids[place] == best
                        &&& forall|i: int|
                            0 <= i < place ==> greedy::nearer(
                                greedy::priority_of(nodes[best as int]),
                                greedy::priority_of(nodes[(#[trigger] ids[i]) as int]),
                            )
                    };
                assert(retries(search, ids[place] as int));
                assert forall|i: int| #[trigger] retries(search, i) implies {
                    &&& goes_before(nodes[best as int].outcome, nodes[i].outcome)
                    &&& nodes[i].outcome == nodes[best as int].outcome ==> best <= i
                } by {
                    let at = choose|at: int| 0 <= at < ids.len() && ids[at] == i as usize;
                    assert(!greedy::nearer(
                        greedy::priority_of(nodes[ids[at] as int]),
                        greedy::priority_of(nodes[best as int]),
                    ));
                    lemma_stages(nodes[best as int]);
                    lemma_stages(nodes[i]);
                    if i < best {
                        if at >= place {
                            if at > place {
                                assert(ids[place] < ids[at]);
                            }
                        }
                    }
                }
            },
        }
    }
}

proof fn lemma_latest_is_one(nodes: Seq<NodeView>, end: int)
    requires
        end <= nodes.len(),
    ensures
        greedy::latest(nodes, end) is None <==> end <= 1,
        greedy::latest(nodes, end) matches Some(newest) ==> {
            &&& forall|i: int| 0 < i < end ==> (#[trigger] nodes[i]).iteration <= newest
            &&& exists|i: int| 0 < i < end && (#[trigger] nodes[i]).iteration == newest
        },
    decreases end,
{
    if end > 1 {
        lemma_latest_is_one(nodes, end - 1);
        assert(nodes[end - 1].iteration == nodes[end - 1].iteration);
    }
}

/// How far a failure came, by what it is called.
proof fn lemma_stages(node: NodeView)
    ensures
        ({
            let stage = greedy::priority_of(node).stage;
            &&& is_wrong(node.outcome) <==> stage == 3
            &&& is_broken(node.outcome) <==> stage == 2
            &&& is_unreadable(node.outcome) <==> stage == 1
            &&& 0 <= stage <= 3
            &&& said(node.outcome) is Some ==> {
                &&& greedy::priority_of(node).closeness == -deviation(node.outcome)
                &&& greedy::priority_of(node).speed == (if pace(node.outcome)
                    < 0x4000_0000_0000_0000 {
                    pace(node.outcome)
                } else {
                    0x4000_0000_0000_0000
                })
            }
        }),
{
    reveal_strlit("correctness_error");
    reveal_strlit("RuntimeError");
    reveal_strlit("CudaError");
    reveal_strlit("execution_error");
    reveal_strlit("cuda_compile_runtime_error");
    reveal_strlit("SyntaxError");
    reveal_strlit("ImportError");
    assert("SyntaxError"@.len() == 11 && "ImportError"@.len() == 11 && "RuntimeError"@.len() == 12
        && "CudaError"@.len() == 9 && "execution_error"@.len() == 15
        && "cuda_compile_runtime_error"@.len() == 26 && "correctness_error"@.len() == 17);
    if let Some(error) = node.outcome.error_context {
        if let JsonView::Object(list) = error {
            if list.len() == 0 {
                crate::json::lemma_place(list, "error_type"@);
            }
        }
    }
}

/// A search begins with a root that nothing is known of, and has counted nothing.
pub proof fn searches_begin_at_the_root(strategy: Strategy, config: SearchConfig)
    ensures
        ({
            let search = StateView::initial(strategy, config);
            &&& search.strategy == strategy
            &&& search.config == config
            &&& search.nodes.len() == 1
            &&& search.nodes[0].id == 0
            &&& search.nodes[0].name == "ROOT"@
            &&& search.nodes[0].iteration == -1
            &&& search.nodes[0].parent is None
            &&& search.nodes[0].children.len() == 0
            &&& search.nodes[0].outcome.status == Status::Pending
            &&& search.nodes[0].outcome.speedup is None
            &&& search.nodes[0].outcome.error_context is None
            &&& search.nodes[0].visits == 0
            &&& search.nodes[0].credits.len() == 0
            &&& !search.nodes[0].terminal
            &&& search.current_iteration == 0
            &&& search.current_best is None
            &&& search.consecutive_failures == 0
            &&& search.speedup_history.len() == 0
            &&& search.root_expansions == 0
            &&& search.pw_gate_closures == 0
            &&& search.virtual_child_wins == 0
        }),
{
}

/// An outcome can be recorded exactly if it is settled, its speedup is a finite number and is there
/// where the attempt succeeded, and its error is a record whose deviation, if there is one, is a
/// number.
pub proof fn settled_outcomes_are_recorded(outcome: OutcomeView)
    ensures
        outcome.refusal() is None <==> {
            &&& outcome.status != Status::Pending
            &&& outcome.status == Status::Success ==> outcome.speedup is Some
            &&& outcome.speedup matches Some(speedup) ==> -0x7ff0_0000_0000_0000 < speedup.rank
                < 0x7ff0_0000_0000_0000
            &&& outcome.error_context matches Some(error) ==> {
                &&& error is Object
                &&& error.get("max_diff"@) matches Some(diff) ==> diff is Number && diff.reading()
                    is Some
            }
        },
{
}

/// A batch is refused exactly if its parent is the root or no node, or one of its outcomes cannot be
/// recorded.
pub proof fn sound_batches_are_recorded(
    nodes: Seq<NodeView>,
    parent: Option<NodeId>,
    outcomes: Seq<OutcomeView>,
)
    ensures
        state::batch_refusal(nodes, parent, outcomes) is None <==> {
            &&& parent matches Some(id) ==> 0 < id < nodes.len()
            &&& forall|i: int| 0 <= i < outcomes.len() ==> (#[trigger] outcomes[i]).refusal() is None
        },
{
    lemma_first_refusal(outcomes);
}

proof fn lemma_first_refusal(outcomes: Seq<OutcomeView>)
    ensures
        state::first_refusal(outcomes) is None <==> forall|i: int|
            0 <= i < outcomes.len() ==> (#[trigger] outcomes[i]).refusal() is None,
    decreases outcomes.len(),
{
    if outcomes.len() > 0 {
        let rest = outcomes.skip(1);
        lemma_first_refusal(rest);
        assert(forall|i: int| 0 < i < outcomes.len() ==> #[trigger] outcomes[i] == rest[i - 1]);
        assert(forall|i: int| 0 <= i < rest.len() ==> #[trigger] rest[i] == outcomes[i + 1]);
    }
}

/// Whether an outcome of a batch is a success.
pub open spec fn has_success(outcomes: Seq<OutcomeView>) -> bool {
    exists|i: int| 0 <= i < outcomes.len() && (#[trigger] outcomes[i]).status == Status::Success
}

/// Recording a batch adds a node for each outcome, below the parent or, in a tree search without
/// one, below the root. The nodes bear the number of the batch and of their place in it in their
/// names, behind the parent's name where there is one.
pub proof fn batches_hang_below_their_parent(
    search: StateView,
    parent: Option<NodeId>,
    outcomes: Seq<OutcomeView>,
    index: int,
)
    requires
        0 <= index < outcomes.len(),
        search.nodes.len() + outcomes.len() <= usize::MAX,
    ensures
        ({
            let after = state::recorded(search, parent, outcomes);
            let first = search.nodes.len() as int;
            let node = after.nodes[first + index];
            &&& after.nodes.len() == first + outcomes.len()
            &&& node.id == first + index
            &&& node.outcome == outcomes[index]
            &&& node.iteration == search.current_iteration
            &&& node.children.len() == 0
            &&& !node.terminal
            &&& node.parent == (match (parent, search.strategy) {
                (None, Strategy::Mcts) => Some(0usize),
                _ => parent,
            })
            &&& match parent {
                Some(id) => node.name == "iter"@ + numeral::decimal(search.current_iteration)
                    + "_p"@ + search.nodes[id as int].name + "_c"@ + numeral::decimal(
                    index as nat,
                ),
                None => node.name == "iter"@ + numeral::decimal(search.current_iteration)
                    + "_sol"@ + numeral::decimal(index as nat),
            }
        }),
{
}

/// Recording a batch counts it, and counts the batches in a row without a success; the set-up and
/// what the choices of parents counted stay as they are.
pub proof fn batches_without_success_are_counted(
    search: StateView,
    parent: Option<NodeId>,
    outcomes: Seq<OutcomeView>,
)
    requires
        search.nodes.len() + outcomes.len() <= usize::MAX,
    ensures
        ({
            let after = state::recorded(search, parent, outcomes);
            &&& after.current_iteration == search.current_iteration + 1
            &&& has_success(outcomes) ==> after.consecutive_failures == 0
            &&& !has_success(outcomes) ==> {
                &&& after.consecutive_failures == search.consecutive_failures + 1
                &&& after.current_best == search.current_best
                &&& after.speedup_history == search.speedup_history
            }
            &&& search.strategy == Strategy::Mcts ==> after.speedup_history
                == search.speedup_history
            &&& after.strategy == search.strategy
            &&& after.config == search.config
            &&& after.root_expansions == search.root_expansions
            &&& after.pw_gate_closures == search.pw_gate_closures
            &&& after.virtual_child_wins == search.virtual_child_wins
        }),
{
    let after = state::recorded(search, parent, outcomes);
    let nodes = after.nodes;
    let first = search.nodes.len() as int;
    let end = nodes.len() as int;
    record::batch_is_kept(search, parent, outcomes);
    let ids = state::successes(nodes, first, end);
    record::lemma_successes(nodes, first, end);
    order::first_best_is_listed(ids, order::higher(state::scores(search.strategy, nodes)));
    if has_success(outcomes) {
        let i = choose|i: int|
            0 <= i < outcomes.len() && (#[trigger] outcomes[i]).status == Status::Success;
        assert(nodes[first + i].outcome == outcomes[i]);
        record::lemma_successes_hold(nodes, first, end, first + i);
        assert(ids.len() > 0);
    } else if ids.len() > 0 {
        let id = ids[0];
        assert(nodes[id as int].successful());
        assert(nodes[first + (id - first)].outcome == outcomes[id - first]);
    }
}

/// In a tree search a batch turns exactly its parent into a dead end, if the parent failed, and it
/// has at least three children with the batch, all of which failed.
pub proof fn failed_lines_become_dead_ends(
    search: StateView,
    parent: Option<NodeId>,
    outcomes: Seq<OutcomeView>,
    id: int,
)
    requires
        search.sound(),
        search.strategy == Strategy::Mcts,
        0 <= id < search.nodes.len(),
        outcomes.len() > 0,
    ensures
        state::recorded(search, parent, outcomes).nodes[id].terminal == (search.nodes[id].terminal
            || {
            &&& id != 0
            &&& parent is Some
            &&& parent->Some_0 == id
            &&& search.nodes[id].outcome.status == Status::Failed
            &&& search.nodes[id].children.len() + outcomes.len() >= 3
            &&& forall|i: int|
                0 <= i < search.nodes[id].children.len() ==> (
                #[trigger] search.nodes[search.nodes[id].children[i] as int]).outcome.status
                    == Status::Failed
            &&& forall|i: int|
                0 <= i < outcomes.len() ==> (#[trigger] outcomes[i]).status == Status::Failed
        }),
{
}

/// The winner is the fastest success of all, the earliest of them where several are as fast; there
/// is none only where nothing succeeded.
pub proof fn the_winner_is_the_fastest(search: StateView)
    requires
        search.sound(),
    ensures
        match search.winner() {
            Some(best) => is_fastest(search.nodes, best as int),
            None => forall|i: int|
                0 < i < search.nodes.len() ==> (#[trigger] search.nodes[i]).outcome.status
                    != Status::Success,
        },
{
    state::winner_is_fastest(search);
    assert forall|i: int| 0 < i < search.nodes.len() implies (
    #[trigger] search.nodes[i]).successful() == (search.nodes[i].outcome.status == Status::Success)
        && search.nodes[i].speedup().rank == pace(search.nodes[i].outcome) by {}
}

/// In a tree search the best so far is the success with the highest logarithm of its speedup, where
/// a speedup of zero counts as less than any other; there is none only where nothing succeeded.
pub proof fn the_best_has_the_highest_logarithm(search: StateView)
    requires
        search.sound(),
        search.strategy == Strategy::Mcts,
    ensures
        match search.current_best {
            None => forall|i: int|
                0 < i < search.nodes.len() ==> (#[trigger] search.nodes[i]).outcome.status
                    != Status::Success,
            Some(best) => {
                let top = search.nodes[best as int].outcome;
                &&& 0 < best < search.nodes.len()
                &&& top.status == Status::Success
                &&& forall|i: int|
                    0 < i < search.nodes.len() && (#[trigger] search.nodes[i]).outcome.status
                        == Status::Success && pace(search.nodes[i].outcome) != 0
                        && search.nodes[i].outcome.log.finite() ==> {
                        &&& pace(top) != 0
                        &&& search.nodes[i].outcome.log.rank <= top.log.rank
                        &&& i < best ==> search.nodes[i].outcome.log.rank < top.log.rank
                    }
            },
        },
{
    state::current_best_is_highest(search);
    assert forall|i: int| 0 < i < search.nodes.len() implies (
    #[trigger] search.nodes[i]).successful() == (search.nodes[i].outcome.status == Status::Success)
        && search.nodes[i].speedup().rank == pace(search.nodes[i].outcome) by {}
}

/// What a node adds to the totals above it: the logarithm of its speedup if it succeeded; minus two
/// if it ran all the same, and minus three if it did not.
pub proof fn rewards_grade_attempts(node: NodeView)
    ensures
        node.outcome.status == Status::Success ==> node.mcts_reward() == node.outcome.log,
        node.outcome.status != Status::Success && node.outcome.speedup is Some
            ==> node.mcts_reward().rank == number::rank_of_bits(0xc000_0000_0000_0000),
        node.outcome.status != Status::Success && node.outcome.speedup is None
            ==> node.mcts_reward().rank == number::rank_of_bits(0xc008_0000_0000_0000),
{
}

/// A search goes on exactly as long as it has recorded fewer batches than its limit, which is three
/// under the greedy strategy and ten in a tree search where none is set, and the last gain in speed
/// of a greedy search, once there is one, is not below the threshold, which is a tenth where none
/// is set.
pub proof fn searches_go_on_while_they_gain(search: StateView, gain: Real)
    ensures
        search.continues(gain) <==> {
            &&& match (search.config.max_iterations, search.strategy) {
                (Some(limit), _) => search.current_iteration < limit,
                (None, Strategy::Greedy) => search.current_iteration < 3,
                (None, Strategy::Mcts) => search.current_iteration < 10,
            }
            &&& search.strategy == Strategy::Mcts || search.speedup_history.len() < 2
                || match search.config.speedup_threshold {
                Some(threshold) => threshold.rank <= gain.rank,
                None => number::rank_of_bits(0x3fb9_9999_9999_999a) <= gain.rank,
            }
        },
{
}

/// A node is credited with exactly itself and the nodes that descend from it, each once and in the
/// order of their arrival.
pub proof fn credits_are_the_line(search: StateView, id: int)
    requires
        search.sound(),
        search.strategy == Strategy::Mcts,
        0 <= id < search.nodes.len(),
    ensures
        forall|lower: int|
            0 < lower < search.nodes.len() ==> (search.nodes[id].credits.contains(lower as usize)
                <==> #[trigger] tree::above(search.nodes, id, lower)),
        forall|i: int, j: int|
            0 <= i < j < search.nodes[id].credits.len() ==> (#[trigger] search.nodes[id].credits[i])
                < (#[trigger] search.nodes[id].credits[j]),
{
    assert(tree::node_formed(search.strategy, search.nodes, id));
    lemma_line(search.nodes, id, search.nodes.len() as int);
}

proof fn lemma_line(nodes: Seq<NodeView>, upper: int, count: int)
    requires
        1 <= count <= nodes.len() <= usize::MAX,
    ensures
        forall|i: int|
            0 <= i < tree::lineage(nodes, upper, count).len() ==> {
                let id = #[trigger] tree::lineage(nodes, upper, count)[i];
                0 < id < count && tree::above(nodes, upper, id as int)
            },
        forall|lower: int|
            0 < lower < count && #[trigger] tree::above(nodes, upper, lower) ==> tree::lineage(
                nodes,
                upper,
                count,
            ).contains(lower as usize),
        forall|i: int, j: int|
            0 <= i < j < tree::lineage(nodes, upper, count).len() ==> (#[trigger] tree::lineage(
                nodes,
                upper,
                count,
            )[i]) < (#[trigger] tree::lineage(nodes, upper, count)[j]),
    decreases count,
{
    if count > 1 {
        lemma_line(nodes, upper, count - 1);
        let before = tree::lineage(nodes, upper, count - 1);
        let all = tree::lineage(nodes, upper, count);
        assert forall|i: int| 0 <= i < all.len() implies {
            let id = #[trigger] all[i];
            0 < id < count && tree::above(nodes, upper, id as int)
        } by {
            if i < before.len() {
                assert(all[i] == before[i]);
            }
        }
        assert forall|lower: int|
            0 < lower < count && #[trigger] tree::above(nodes, upper, lower) implies all.contains(
            lower as usize,
        ) by {
            if lower < count - 1 {
                let at = choose|at: int| 0 <= at < before.len() && before[at] == lower as usize;
                assert(all[at] == lower as usize);
            } else {
                assert(all[all.len() - 1] == lower as usize);
            }
        }
        assert forall|i: int, j: int| 0 <= i < j < all.len() implies (#[trigger] all[i]) < (
        #[trigger] all[j]) by {
            assert(all[i] == before[i]);
            if j < before.len() {
                assert(all[j] == before[j]);
            }
        }
    }
}

/// Whether a number is left out or lies between the infinities.
pub open spec fn bounded(number: Option<Real>) -> bool {
    number is Some ==> -0x7ff0_0000_0000_0000 < number->Some_0.rank < 0x7ff0_0000_0000_0000
}

/// A set-up is valid exactly if none of the numbers that it gives is infinite or NaN.
pub proof fn valid_configs_are_finite(config: SearchConfig)
    ensures
        config.valid() <==> {
            &&& bounded(config.speedup_threshold)
            &&& bounded(config.exploration_constant)
            &&& bounded(config.pw_alpha)
            &&& bounded(config.pw_c_root)
            &&& bounded(config.pw_c_repair)
            &&& bounded(config.pw_c_optimize)
        },
{
}

/// The first batch is always recorded, and below no parent; any other only while the search goes
/// on, below the parent that is selected.
pub proof fn first_batches_have_no_parent(search: StateView, gain: Real, scores: ScoresView)
    ensures
        search.current_iteration == 0 ==> replay::takes(search, gain) && replay::prepared(
            search,
            scores,
        ) == (search, None::<NodeId>),
        search.current_iteration != 0 ==> (replay::takes(search, gain) <==> search.continues(gain))
            && replay::prepared(search, scores) == mcts::selected(search, scores),
{
}

} // verus!
