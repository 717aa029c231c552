//! Values by the texts that they belong to, in the order of those texts.
use crate::sorted;
use crate::sorted::is_before;
use crate::text::same;
use vstd::prelude::*;

verus! {

/// A table.
pub struct Table<T> {
    pub list: Vec<(String, T)>,
}

/// The keys of a list.
pub open spec fn keys_of<T>(list: Seq<(String, T)>) -> Seq<Seq<char>> {
    Seq::new(list.len(), |i: int| list[i].0@)
}

/// Whether `key` stands at `index`.
pub open spec fn stands<T>(list: Seq<(String, T)>, key: Seq<char>, index: int) -> bool {
    0 <= index < list.len() && list[index].0@ == key
}

impl<T> View for Table<T> {
    type V = Map<Seq<char>, T>;

    open spec fn view(&self) -> Map<Seq<char>, T> {
        Map::new(
            |key: Seq<char>| exists|i: int| stands(self.list@, key, i),
            |key: Seq<char>| self.list@[choose|i: int| stands(self.list@, key, i)].1,
        )
    }
}

impl<T> Table<T> {
    /// The keys are in order, each once.
    pub open spec fn wf(self) -> bool {
        sorted::ordered(keys_of(self.list@))
    }

    /// The keys in their order.
    pub open spec fn keys(self) -> Seq<Seq<char>> {
        keys_of(self.list@)
    }

    proof fn lemma_same(self, i: int, j: int)
        requires
            self.wf(),
            0 <= i < self.list@.len(),
            0 <= j < self.list@.len(),
            self.list@[i].0@ == self.list@[j].0@,
        ensures
            i == j,
    {
        let keys = keys_of(self.list@);
        sorted::lemma_total(keys[i], keys[j], 0);
        assert(keys[i].take(0) =~= keys[j].take(0));
        if i < j {
            assert(sorted::precedes(keys[i], keys[j]));
        } else if j < i {
            assert(sorted::precedes(keys[j], keys[i]));
        }
    }

    /// What stands at `index` is what the table holds under its key.
    pub proof fn lemma_at(self, index: int)
        requires
            self.wf(),
            0 <= index < self.list@.len(),
        ensures
            self@.dom().contains(self.list@[index].0@),
            self@[self.list@[index].0@] == self.list@[index].1,
    {
        let key = self.list@[index].0@;
        assert(stands(self.list@, key, index));
        let found = choose|i: int| stands(self.list@, key, i);
        self.lemma_same(found, index);
    }

    /// An empty table.
    pub fn new() -> (table: Self)
        ensures
            table.wf(),
            table@ == Map::<Seq<char>, T>::empty(),
            table.keys() == Seq::<Seq<char>>::empty(),
    {
        let table = Table { list: Vec::new() };
        assert(table@ =~= Map::<Seq<char>, T>::empty());
        assert(table.keys() =~= Seq::<Seq<char>>::empty());
        table
    }

    /// The place of `key`.
    pub fn place(&self, key: &str) -> (found: Option<usize>)
        requires
            self.wf(),
        ensures
            match found {
                Some(index) => stands(self.list@, key@, index as int) && self@.dom().contains(key@)
                    && self@[key@] == self.list@[index as int].1,
                None => !self@.dom().contains(key@),
            },
    {
        let mut index: usize = 0;
        while index < self.list.len()
            invariant
                index <= self.list@.len(),
                self.wf(),
                forall|i: int| 0 <= i < index ==> !#[trigger] stands(self.list@, key@, i),
            decreases self.list@.len() - index,
        {
            if same(self.list[index].0.as_str(), key) {
                proof {
                    self.lemma_at(index as int);
                }
                return Some(index);
            }
            index += 1;
        }
        None
    }

    /// The value that belongs to `key`.
    pub fn get(&self, key: &str) -> (found: Option<&T>)
        requires
            self.wf(),
        ensures
            match found {
                Some(value) => self@.dom().contains(key@) && self@[key@] == *value,
                None => !self@.dom().contains(key@),
            },
    {
        match self.place(key) {
            Some(index) => Some(&self.list[index].1),
            None => None,
        }
    }

    /// Sets the value that belongs to `key`.
    pub fn insert(&mut self, key: &str, value: T)
        requires
            old(self).wf(),
        ensures
            final(self).wf(),
            final(self)@ == old(self)@.insert(key@, value),
            final(self).keys() == sorted::with_text(old(self).keys(), key@),
    {
        let ghost before = *self;
        let ghost keys = keys_of(self.list@);
        let mut place: usize = self.list.len();
        while place > 0 && !same(self.list[place - 1].0.as_str(), key) && !is_before(
            self.list[place - 1].0.as_str(),
            key,
        )
            invariant
                place <= self.list@.len(),
                *self == before,
                keys == keys_of(self.list@),
                forall|i: int|
                    place <= i < keys.len() ==> #[trigger] keys[i] != key@ && !sorted::precedes(
                        keys[i],
                        key@,
                    ),
            decreases place,
        {
            assert(keys[place - 1] == self.list@[place - 1].0@);
            place -= 1;
        }
        proof {
            sorted::lemma_place(keys, key@, place as int);
            sorted::lemma_with_text(keys, key@);
        }
        if place > 0 && same(self.list[place - 1].0.as_str(), key) {
            let name = key.to_owned();
            self.list.set(place - 1, (name, value));
            proof {
                assert(keys_of(self.list@) =~= keys);
                lemma_set(before, *self, place - 1, key@, value);
            }
        } else {
            let name = key.to_owned();
            self.list.insert(place, (name, value));
            proof {
                assert(keys_of(self.list@) =~= keys.insert(place as int, key@));
                lemma_inserted(before, *self, place as int, key@, value);
            }
        }
    }

    /// Takes out what belongs to `key`.
    pub fn remove(&mut self, key: &str) -> (removed: Option<T>)
        requires
            old(self).wf(),
        ensures
            final(self).wf(),
            final(self)@ == old(self)@.remove(key@),
            match removed {
                Some(value) => old(self)@.dom().contains(key@) && old(self)@[key@] == value,
                None => !old(self)@.dom().contains(key@),
            },
    {
        let ghost before = *self;
        match self.place(key) {
            Some(index) => {
                let (_, value) = self.list.remove(index);
                proof {
                    lemma_removed(before, *self, index as int, key@);
                }
                Some(value)
            },
            None => {
                assert(self@ =~= before@.remove(key@));
                None
            },
        }
    }

    /// Takes everything out.
    pub fn clear(&mut self)
        ensures
            final(self).wf(),
            final(self)@ == Map::<Seq<char>, T>::empty(),
    {
        self.list.clear();
        assert(self@ =~= Map::<Seq<char>, T>::empty());
    }
}

proof fn lemma_set<T>(
    before: Table<T>,
    after: Table<T>,
    place: int,
    key: Seq<char>,
    value: T,
)
    requires
        before.wf(),
        after.wf(),
        stands(before.list@, key, place),
        stands(after.list@, key, place),
        after.list@[place].1 == value,
        after.list@.len() == before.list@.len(),
        forall|i: int|
            0 <= i < before.list@.len() && i != place ==> #[trigger] after.list@[i] == before.list@[i],
    ensures
        after@ == before@.insert(key, value),
{
    assert forall|other: Seq<char>| #[trigger]
        after@.dom().contains(other) == before@.insert(key, value).dom().contains(other) by {
        if after@.dom().contains(other) {
            let i = choose|i: int| stands(after.list@, other, i);
            if i != place {
                assert(stands(before.list@, other, i));
            }
        }
        if before@.dom().contains(other) {
            let i = choose|i: int| stands(before.list@, other, i);
            assert(stands(after.list@, other, i));
        }
        if other == key {
            assert(stands(after.list@, other, place));
        }
    }
    assert forall|other: Seq<char>| #[trigger] after@.dom().contains(other) implies after@[other]
        == before@.insert(key, value)[other] by {
        let i = choose|i: int| stands(after.list@, other, i);
        after.lemma_at(i);
        if i == place {
        } else {
            before.lemma_at(i);
            if other == key {
                after.lemma_same(i, place);
            }
        }
    }
    assert(after@ =~= before@.insert(key, value));
}

proof fn lemma_inserted<T>(
    before: Table<T>,
    after: Table<T>,
    place: int,
    key: Seq<char>,
    value: T,
)
    requires
        before.wf(),
        after.wf(),
        0 <= place <= before.list@.len(),
        after.list@.len() == before.list@.len() + 1,
        stands(after.list@, key, place),
        after.list@[place].1 == value,
        forall|i: int| 0 <= i < place ==> #[trigger] after.list@[i] == before.list@[i],
        forall|i: int| place < i < after.list@.len() ==> #[trigger] after.list@[i] == before.list@[i - 1],
    ensures
        after@ == before@.insert(key, value),
{
    assert forall|other: Seq<char>| #[trigger]
        after@.dom().contains(other) == before@.insert(key, value).dom().contains(other) by {
        if after@.dom().contains(other) {
            let i = choose|i: int| stands(after.list@, other, i);
            if i < place {
                assert(stands(before.list@, other, i));
            } else if i > place {
                assert(stands(before.list@, other, i - 1));
            }
        }
        if before@.dom().contains(other) {
            let i = choose|i: int| stands(before.list@, other, i);
            if i < place {
                assert(stands(after.list@, other, i));
            } else {
                assert(after.list@[i + 1] == before.list@[i]);
                assert(stands(after.list@, other, i + 1));
            }
        }
        if other == key {
            assert(stands(after.list@, other, place));
        }
    }
    assert forall|other: Seq<char>| #[trigger] after@.dom().contains(other) implies after@[other]
        == before@.insert(key, value)[other] by {
        let i = choose|i: int| stands(after.list@, other, i);
        after.lemma_at(i);
        if i < place {
            before.lemma_at(i);
        } else if i > place {
            before.lemma_at(i - 1);
        }
        if other == key {
            after.lemma_same(i, place);
        }
    }
    assert(after@ =~= before@.insert(key, value));
}

proof fn lemma_removed<T>(before: Table<T>, after: Table<T>, place: int, key: Seq<char>)
    requires
        before.wf(),
        stands(before.list@, key, place),
        after.list@ == before.list@.remove(place),
    ensures
        after.wf(),
        after@ == before@.remove(key),
{
    let keys = keys_of(after.list@);
    let all = keys_of(before.list@);
    assert forall|i: int, j: int| 0 <= i < j < keys.len() implies sorted::precedes(
        #[trigger] keys[i],
        #[trigger] keys[j],
    ) by {
        let from = if i < place {
            i
        } else {
            i + 1
        };
        let to = if j < place {
            j
        } else {
            j + 1
        };
        assert(keys[i] == all[from] && keys[j] == all[to]);
    }
    assert forall|other: Seq<char>| #[trigger]
        after@.dom().contains(other) == before@.remove(key).dom().contains(other) by {
        if after@.dom().contains(other) {
            let i = choose|i: int| stands(after.list@, other, i);
            let from = if i < place {
                i
            } else {
                i + 1
            };
            assert(stands(before.list@, other, from));
            if other == key {
                before.lemma_same(from, place);
            }
        }
        if before@.remove(key).dom().contains(other) {
            let i = choose|i: int| stands(before.list@, other, i);
            if i < place {
                assert(stands(after.list@, other, i));
            } else {
                assert(stands(after.list@, other, i - 1));
            }
        }
    }
    assert forall|other: Seq<char>| #[trigger] after@.dom().contains(other) implies after@[other]
        == before@.remove(key)[other] by {
        let i = choose|i: int| stands(after.list@, other, i);
        after.lemma_at(i);
        before.lemma_at(
            if i < place {
                i
            } else {
                i + 1
            },
        );
    }
    assert(after@ =~= before@.remove(key));
}

} // verus!
