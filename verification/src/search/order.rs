//! The first of the best in a row.
use vstd::prelude::*;

verus! {

/// The first entry of `ids` that no other one is better than: a later entry replaces the choice
/// only if it is better.
pub open spec fn first_best(ids: Seq<usize>, better: spec_fn(usize, usize) -> bool) -> Option<usize>
    decreases ids.len(),
{
    if ids.len() == 0 {
        None
    } else {
        match first_best(ids.drop_last(), better) {
            None => Some(ids.last()),
            Some(best) => if better(ids.last(), best) {
                Some(ids.last())
            } else {
                Some(best)
            },
        }
    }
}

/// The relation "has a higher score than".
pub open spec fn higher(score: spec_fn(usize) -> int) -> spec_fn(usize, usize) -> bool {
    |left: usize, right: usize| score(left) > score(right)
}

/// Among scored entries the choice has the highest score, and it is the first that has it.
pub proof fn first_best_is_highest(ids: Seq<usize>, score: spec_fn(usize) -> int)
    ensures
        first_best(ids, higher(score)) is None <==> ids.len() == 0,
        first_best(ids, higher(score)) matches Some(best) ==> {
            &&& forall|i: int| 0 <= i < ids.len() ==> score(#[trigger] ids[i]) <= score(best)
            &&& exists|place: int|
                {
                    &&& 0 <= place < ids.len()
                    &&& #[trigger] ids[place] == best
                    &&& forall|i: int| 0 <= i < place ==> score(#[trigger] ids[i]) < score(best)
                }
        },
    decreases ids.len(),
{
    if ids.len() > 0 {
        let rest = ids.drop_last();
        first_best_is_highest(rest, score);
        let last = ids.len() - 1;
        assert(forall|i: int| 0 <= i < last ==> #[trigger] ids[i] == rest[i]);
        match first_best(rest, higher(score)) {
            None => {
                assert(ids[last] == ids.last());
            },
            Some(best) => {
                let place = choose|place: int|
                    {
                        &&& 0 <= place < rest.len()
                        &&& #[trigger] rest[place] == best
                        &&& forall|i: int| 0 <= i < place ==> score(#[trigger] rest[i]) < score(best)
                    };
                if score(ids.last()) > score(best) {
                    assert(ids[last] == ids.last());
                } else {
                    assert(ids[place] == best);
                }
            },
        }
    }
}

/// The choice from one more entry.
pub proof fn first_best_push(ids: Seq<usize>, id: usize, better: spec_fn(usize, usize) -> bool)
    ensures
        first_best(ids.push(id), better) == (match first_best(ids, better) {
            None => Some(id),
            Some(best) => if better(id, best) {
                Some(id)
            } else {
                Some(best)
            },
        }),
{
    assert(ids.push(id).drop_last() =~= ids);
}

/// The choice is one of the entries.
pub proof fn first_best_is_listed(ids: Seq<usize>, better: spec_fn(usize, usize) -> bool)
    ensures
        first_best(ids, better) is None <==> ids.len() == 0,
        first_best(ids, better) matches Some(best) ==> ids.contains(best),
    decreases ids.len(),
{
    if ids.len() > 0 {
        let rest = ids.drop_last();
        first_best_is_listed(rest, better);
        assert(ids[ids.len() - 1] == ids.last());
        assert(forall|id: usize| rest.contains(id) ==> ids.contains(id)) by {
            assert forall|id: usize| rest.contains(id) implies ids.contains(id) by {
                let i = choose|i: int| 0 <= i < rest.len() && rest[i] == id;
                assert(ids[i] == id);
            }
        }
    }
}

/// Two relations that agree on the entries choose alike.
pub proof fn first_best_agrees(
    ids: Seq<usize>,
    left: spec_fn(usize, usize) -> bool,
    right: spec_fn(usize, usize) -> bool,
)
    requires
        forall|i: int, j: int|
            0 <= i < ids.len() && 0 <= j < ids.len() ==> left(#[trigger] ids[i], #[trigger] ids[j])
                == right(ids[i], ids[j]),
    ensures
        first_best(ids, left) == first_best(ids, right),
    decreases ids.len(),
{
    if ids.len() > 0 {
        let rest = ids.drop_last();
        assert(forall|i: int| 0 <= i < rest.len() ==> #[trigger] ids[i] == rest[i]);
        first_best_agrees(rest, left, right);
        first_best_is_listed(rest, left);
        if let Some(best) = first_best(rest, left) {
            let place = choose|place: int| 0 <= place < rest.len() && rest[place] == best;
            assert(ids[place] == best);
            assert(ids[ids.len() - 1] == ids.last());
        }
    }
}

} // verus!
