//! Ranking by a key, the highest first, equals in their order.
use vstd::prelude::*;

verus! {

/// `ranks` with `index` put behind everything whose key is not lower than its own.
pub open spec fn inserted(ranks: Seq<usize>, keys: Seq<i128>, index: usize) -> Seq<usize>
    decreases ranks.len(),
{
    if ranks.len() == 0 {
        seq![index]
    } else if keys[ranks.last() as int] >= keys[index as int] {
        ranks.push(index)
    } else {
        inserted(ranks.drop_last(), keys, index).push(ranks.last())
    }
}

/// The places of the first `count` keys, the highest key first and equal keys in their order.
pub open spec fn ranked(keys: Seq<i128>, count: nat) -> Seq<usize>
    decreases count,
{
    if count == 0 {
        Seq::empty()
    } else {
        inserted(ranked(keys, (count - 1) as nat), keys, (count - 1) as usize)
    }
}

/// The entries of `list` in the order of `ranks`.
pub open spec fn arranged<T>(list: Seq<T>, ranks: Seq<usize>) -> Seq<T> {
    Seq::new(ranks.len(), |i: int| list[ranks[i] as int])
}

proof fn lemma_inserted(ranks: Seq<usize>, keys: Seq<i128>, index: usize, place: int)
    requires
        0 <= place <= ranks.len(),
        place > 0 ==> keys[ranks[place - 1] as int] >= keys[index as int],
        forall|i: int| place <= i < ranks.len() ==> keys[#[trigger] ranks[i] as int] < keys[index as int],
    ensures
        inserted(ranks, keys, index) == ranks.insert(place, index),
    decreases ranks.len(),
{
    if ranks.len() == 0 {
        assert(ranks.insert(place, index) =~= seq![index]);
    } else if place == ranks.len() {
        assert(ranks[place - 1] == ranks.last());
        assert(ranks.insert(place, index) =~= ranks.push(index));
    } else {
        assert(keys[ranks[ranks.len() - 1] as int] < keys[index as int]);
        lemma_inserted(ranks.drop_last(), keys, index, place);
        assert(ranks.drop_last().insert(place, index).push(ranks.last()) =~= ranks.insert(
            place,
            index,
        ));
    }
}

/// The places of the keys, the highest key first and equal keys in their order.
pub fn rank(keys: &Vec<i128>) -> (ranks: Vec<usize>)
    ensures
        ranks@ == ranked(keys@, keys@.len()),
        ranks@.len() == keys@.len(),
        forall|i: int| 0 <= i < ranks@.len() ==> (#[trigger] ranks@[i]) < keys@.len(),
{
    let mut ranks: Vec<usize> = Vec::new();
    let mut index: usize = 0;
    while index < keys.len()
        invariant
            index <= keys@.len(),
            ranks@.len() == index,
            ranks@ == ranked(keys@, index as nat),
            forall|i: int| 0 <= i < index ==> (#[trigger] ranks@[i]) < index,
        decreases keys@.len() - index,
    {
        let mut place: usize = ranks.len();
        while place > 0 && keys[ranks[place - 1]] < keys[index]
            invariant
                index < keys@.len(),
                place <= ranks@.len(),
                ranks@.len() == index,
                forall|i: int| 0 <= i < index ==> (#[trigger] ranks@[i]) < index,
                forall|i: int|
                    place <= i < ranks@.len() ==> keys@[#[trigger] ranks@[i] as int]
                        < keys@[index as int],
            decreases place,
        {
            place -= 1;
        }
        proof {
            lemma_inserted(ranks@, keys@, index, place as int);
        }
        ranks.insert(place, index);
        index += 1;
    }
    ranks
}

/// Equal keys stay in their order.
pub proof fn equal_keys_stay(keys: Seq<i128>, count: nat)
    requires
        count <= keys.len() <= usize::MAX,
        forall|i: int, j: int|
            0 <= i < keys.len() && 0 <= j < keys.len() ==> #[trigger] keys[i] == #[trigger] keys[j],
    ensures
        ranked(keys, count) == Seq::new(count, |i: int| i as usize),
    decreases count,
{
    let wanted = Seq::new(count, |i: int| i as usize);
    if count == 0 {
        assert(ranked(keys, 0) =~= wanted);
    } else {
        let less = (count - 1) as nat;
        equal_keys_stay(keys, less);
        let before = ranked(keys, less);
        if less > 0 {
            assert(keys[before.last() as int] == keys[less as int]);
        }
        assert(ranked(keys, count) =~= wanted);
    }
}

/// A ranking holds every place once, higher keys before lower ones, and of equal keys the earlier
/// before the later.
pub proof fn ranking_is_stable(keys: Seq<i128>, count: nat)
    requires
        count <= keys.len() <= usize::MAX,
    ensures
        ranked(keys, count).len() == count,
        forall|i: int| 0 <= i < count ==> (#[trigger] ranked(keys, count)[i]) < count,
        forall|i: int, j: int|
            0 <= i < j < count ==> {
                let left = #[trigger] ranked(keys, count)[i];
                let right = #[trigger] ranked(keys, count)[j];
                keys[left as int] > keys[right as int] || (keys[left as int] == keys[right as int]
                    && left < right)
            },
    decreases count,
{
    if count > 0 {
        let less = (count - 1) as nat;
        ranking_is_stable(keys, less);
        let before = ranked(keys, less);
        let place = lemma_place(before, keys, less as usize, before.len() as int);
        lemma_inserted(before, keys, less as usize, place);
        let after = ranked(keys, count);
        assert(after == before.insert(place, less as usize));
        assert forall|i: int| 0 <= i < count implies (#[trigger] after[i]) < count by {
            if i < place {
                assert(after[i] == before[i]);
            } else if i > place {
                assert(after[i] == before[i - 1]);
            }
        }
        assert forall|i: int, j: int| 0 <= i < j < count implies {
            let left = #[trigger] after[i];
            let right = #[trigger] after[j];
            keys[left as int] > keys[right as int] || (keys[left as int] == keys[right as int] && left
                < right)
        } by {
            let left = if i < place {
                before[i]
            } else {
                before[i - 1]
            };
            let right = if j < place {
                before[j]
            } else {
                before[j - 1]
            };
            if i == place {
                assert(keys[before[j - 1] as int] < keys[less as int]);
            } else if j == place {
                if i < place - 1 {
                    assert(before[i] == left && before[place - 1] == before[place - 1]);
                }
            } else {
                assert(after[i] == left && after[j] == right);
            }
        }
    }
}

/// Where `index` goes in `ranks`, at `end` or before it.
proof fn lemma_place(ranks: Seq<usize>, keys: Seq<i128>, index: usize, end: int) -> (place: int)
    requires
        0 <= end <= ranks.len(),
        forall|i: int| end <= i < ranks.len() ==> keys[#[trigger] ranks[i] as int] < keys[index as int],
    ensures
        0 <= place <= ranks.len(),
        place > 0 ==> keys[ranks[place - 1] as int] >= keys[index as int],
        forall|i: int|
            place <= i < ranks.len() ==> keys[#[trigger] ranks[i] as int] < keys[index as int],
    decreases end,
{
    if end == 0 || keys[ranks[end - 1] as int] >= keys[index as int] {
        end
    } else {
        lemma_place(ranks, keys, index, end - 1)
    }
}

proof fn lemma_kept(ranks: Seq<usize>, keys: Seq<i128>, index: usize, held: usize)
    requires
        held == index || ranks.contains(held),
    ensures
        inserted(ranks, keys, index).contains(held),
    decreases ranks.len(),
{
    let made = inserted(ranks, keys, index);
    if ranks.len() == 0 {
        assert(made[0] == index);
    } else if keys[ranks.last() as int] >= keys[index as int] {
        if held == index {
            assert(made[ranks.len() as int] == index);
        } else {
            let i = choose|i: int| 0 <= i < ranks.len() && ranks[i] == held;
            assert(made[i] == held);
        }
    } else {
        let less = inserted(ranks.drop_last(), keys, index);
        if held != index && held == ranks.last() {
            assert(made[less.len() as int] == held);
        } else {
            if held != index {
                let i = choose|i: int| 0 <= i < ranks.len() && ranks[i] == held;
                assert(ranks.drop_last()[i] == held);
            }
            lemma_kept(ranks.drop_last(), keys, index, held);
            let i = choose|i: int| 0 <= i < less.len() && less[i] == held;
            assert(made[i] == held);
        }
    }
}

/// The place of every key is among the ranked ones.
pub proof fn every_key_is_ranked(keys: Seq<i128>, count: nat, held: usize)
    requires
        held < count <= usize::MAX,
    ensures
        ranked(keys, count).contains(held),
    decreases count,
{
    if held < count - 1 {
        every_key_is_ranked(keys, (count - 1) as nat, held);
    }
    lemma_kept(ranked(keys, (count - 1) as nat), keys, (count - 1) as usize, held);
}

} // verus!
