//! Texts in their order, each once.
use crate::pieces;
use crate::text::chars;
use vstd::prelude::*;

verus! {

/// Whether `left` comes before `right`, compared from the place `from` on.
pub open spec fn before(left: Seq<char>, right: Seq<char>, from: int) -> bool
    decreases right.len() - from,
{
    if from < 0 || from >= right.len() {
        false
    } else if from >= left.len() {
        true
    } else if left[from] == right[from] {
        before(left, right, from + 1)
    } else {
        left[from] < right[from]
    }
}

/// Whether `left` comes before `right` in the order of texts.
pub open spec fn precedes(left: Seq<char>, right: Seq<char>) -> bool {
    before(left, right, 0)
}

/// Whether `left` comes before `right` in the order of texts.
pub fn is_before(left: &str, right: &str) -> (found: bool)
    ensures
        found == precedes(left@, right@),
{
    let ours = chars(left);
    let theirs = chars(right);
    let mut index: usize = 0;
    while index < theirs.len()
        invariant
            index <= theirs@.len(),
            ours@ == left@,
            theirs@ == right@,
            precedes(left@, right@) == before(left@, right@, index as int),
        decreases theirs@.len() - index,
    {
        if index >= ours.len() {
            return true;
        }
        if ours[index] != theirs[index] {
            return ours[index] < theirs[index];
        }
        index += 1;
    }
    false
}

/// A list in order with a text put in its place, unless it is there.
pub open spec fn with_text(list: Seq<Seq<char>>, text: Seq<char>) -> Seq<Seq<char>>
    decreases list.len(),
{
    if list.len() == 0 {
        seq![text]
    } else if list.last() == text {
        list
    } else if precedes(list.last(), text) {
        list.push(text)
    } else {
        with_text(list.drop_last(), text).push(list.last())
    }
}

/// The first `end` texts in order, each once.
pub open spec fn in_order(list: Seq<Seq<char>>, end: int) -> Seq<Seq<char>>
    decreases end,
{
    if end <= 0 {
        Seq::empty()
    } else {
        with_text(in_order(list, end - 1), list[end - 1])
    }
}

/// Two texts differ, or one comes before the other.
pub proof fn lemma_total(left: Seq<char>, right: Seq<char>, from: int)
    requires
        0 <= from,
        from <= left.len(),
        from <= right.len(),
        left.take(from) == right.take(from),
    ensures
        left == right || before(left, right, from) || before(right, left, from),
        left == right ==> !before(left, right, from),
        before(left, right, from) ==> !before(right, left, from),
    decreases right.len() - from,
{
    if from < left.len() && from < right.len() {
        if left[from] == right[from] {
            assert(left.take(from + 1) =~= left.take(from).push(left[from]));
            assert(right.take(from + 1) =~= right.take(from).push(right[from]));
            lemma_total(left, right, from + 1);
        }
    } else if from == left.len() && from == right.len() {
        assert(left =~= left.take(from));
        assert(right =~= right.take(from));
    }
}

/// The order of texts is transitive.
pub proof fn lemma_transitive(one: Seq<char>, two: Seq<char>, three: Seq<char>, from: int)
    requires
        0 <= from,
        before(one, two, from),
        before(two, three, from),
    ensures
        before(one, three, from),
    decreases three.len() - from,
{
    if from < one.len() && from < two.len() && from < three.len() {
        if one[from] == two[from] && two[from] == three[from] {
            lemma_transitive(one, two, three, from + 1);
        }
    }
}

/// Whether a list is in order, each text once.
pub open spec fn ordered(list: Seq<Seq<char>>) -> bool {
    forall|i: int, j: int|
        0 <= i < j < list.len() ==> precedes(#[trigger] list[i], #[trigger] list[j])
}

/// Putting a text in its place keeps the order, and adds that text alone.
pub proof fn lemma_with_text(list: Seq<Seq<char>>, text: Seq<char>)
    requires
        ordered(list),
    ensures
        ordered(with_text(list, text)),
        forall|other: Seq<char>| #[trigger]
            with_text(list, text).contains(other) <==> (list.contains(other) || other == text),
        with_text(list, text).len() > 0,
    decreases list.len(),
{
    let made = with_text(list, text);
    if list.len() == 0 {
        assert(made[0] == text);
    } else if list.last() == text {
        assert(list[list.len() - 1] == text);
    } else if precedes(list.last(), text) {
        assert forall|i: int, j: int| 0 <= i < j < made.len() implies precedes(
            #[trigger] made[i],
            #[trigger] made[j],
        ) by {
            if j == list.len() {
                if i < list.len() - 1 {
                    assert(precedes(list[i], list[list.len() - 1]));
                    lemma_transitive(list[i], list.last(), text, 0);
                }
            } else {
                assert(made[i] == list[i] && made[j] == list[j]);
            }
        }
        assert forall|other: Seq<char>| #[trigger] made.contains(other) <==> (list.contains(other)
            || other == text) by {
            if list.contains(other) {
                let i = choose|i: int| 0 <= i < list.len() && list[i] == other;
                assert(made[i] == other);
            }
            if other == text {
                assert(made[list.len() as int] == other);
            }
            if made.contains(other) {
                let i = choose|i: int| 0 <= i < made.len() && made[i] == other;
                if i < list.len() {
                    assert(list[i] == other);
                }
            }
        }
    } else {
        let rest = list.drop_last();
        let inner = with_text(rest, text);
        assert forall|i: int, j: int| 0 <= i < j < rest.len() implies precedes(
            #[trigger] rest[i],
            #[trigger] rest[j],
        ) by {
            assert(rest[i] == list[i] && rest[j] == list[j]);
        }
        lemma_with_text(rest, text);
        assert(list.last().take(0) =~= text.take(0));
        lemma_total(list.last(), text, 0);
        assert(precedes(text, list.last()));
        assert forall|i: int, j: int| 0 <= i < j < made.len() implies precedes(
            #[trigger] made[i],
            #[trigger] made[j],
        ) by {
            if j == inner.len() {
                assert(made[i] == inner[i]);
                assert(inner.contains(inner[i]));
                if inner[i] != text {
                    let k = choose|k: int| 0 <= k < rest.len() && rest[k] == inner[i];
                    assert(precedes(list[k], list[list.len() - 1]));
                }
            } else {
                assert(made[i] == inner[i] && made[j] == inner[j]);
            }
        }
        assert forall|other: Seq<char>| #[trigger] made.contains(other) <==> (list.contains(other)
            || other == text) by {
            if made.contains(other) {
                let i = choose|i: int| 0 <= i < made.len() && made[i] == other;
                if i < inner.len() {
                    assert(inner.contains(other)) by {
                        assert(inner[i] == other);
                    }
                    if other != text {
                        let k = choose|k: int| 0 <= k < rest.len() && rest[k] == other;
                        assert(list[k] == other);
                    }
                } else {
                    assert(list[list.len() - 1] == other);
                }
            }
            if list.contains(other) || other == text {
                if other == list.last() {
                    assert(made[inner.len() as int] == other);
                } else {
                    if other != text {
                        let k = choose|k: int| 0 <= k < list.len() && list[k] == other;
                        assert(rest[k] == other);
                        assert(rest.contains(other));
                    }
                    assert(inner.contains(other));
                    let i = choose|i: int| 0 <= i < inner.len() && inner[i] == other;
                    assert(made[i] == other);
                }
            }
        }
    }
}

/// Putting texts in order keeps each of them once, and nothing else.
pub proof fn order_keeps_texts(list: Seq<Seq<char>>, end: int)
    requires
        0 <= end <= list.len(),
    ensures
        ordered(in_order(list, end)),
        forall|text: Seq<char>| #[trigger]
            in_order(list, end).contains(text) <==> list.take(end).contains(text),
    decreases end,
{
    if end > 0 {
        order_keeps_texts(list, end - 1);
        let before = in_order(list, end - 1);
        lemma_with_text(before, list[end - 1]);
        assert forall|text: Seq<char>| #[trigger]
            in_order(list, end).contains(text) <==> list.take(end).contains(text) by {
            if list.take(end).contains(text) {
                let these = list.take(end);
                let i = choose|i: int| 0 <= i < these.len() && these[i] == text;
                if i < end - 1 {
                    assert(list.take(end - 1)[i] == text);
                    assert(list.take(end - 1).contains(text));
                }
            }
            if in_order(list, end).contains(text) {
                if text == list[end - 1] {
                    assert(list.take(end)[end - 1] == text);
                } else {
                    assert(before.contains(text));
                    assert(list.take(end - 1).contains(text));
                    let fewer = list.take(end - 1);
                    let i = choose|i: int| 0 <= i < fewer.len() && fewer[i] == text;
                    assert(list.take(end)[i] == text);
                }
            }
        }
    }
}

/// Where a text is put.
pub proof fn lemma_place(list: Seq<Seq<char>>, text: Seq<char>, place: int)
    requires
        0 <= place <= list.len(),
        forall|i: int| place <= i < list.len() ==> #[trigger] list[i] != text && !precedes(list[i], text),
        place > 0 ==> list[place - 1] == text || precedes(list[place - 1], text),
    ensures
        with_text(list, text) == (if place > 0 && list[place - 1] == text {
            list
        } else {
            list.insert(place, text)
        }),
    decreases list.len(),
{
    if list.len() == 0 {
        assert(list.insert(place, text) =~= seq![text]);
    } else if place == list.len() {
        assert(list[place - 1] == list.last());
        assert(list.insert(place, text) =~= list.push(text));
    } else {
        assert(list[list.len() - 1] == list.last());
        let rest = list.drop_last();
        lemma_place(rest, text, place);
        if place > 0 && list[place - 1] == text {
            assert(rest.push(list.last()) =~= list);
        } else {
            assert(rest.insert(place, text).push(list.last()) =~= list.insert(place, text));
        }
    }
}

/// Puts a text in its place in a list in order, unless it is there.
pub fn insert(list: &mut Vec<String>, text: &str)
    ensures
        pieces::texts(final(list)@) == with_text(pieces::texts(old(list)@), text@),
{
    let ghost all = pieces::texts(list@);
    let mut place: usize = list.len();
    while place > 0 && !crate::text::same(list[place - 1].as_str(), text) && !is_before(
        list[place - 1].as_str(),
        text,
    )
        invariant
            place <= list@.len(),
            list@ == old(list)@,
            all == pieces::texts(list@),
            forall|i: int|
                place <= i < all.len() ==> #[trigger] all[i] != text@ && !precedes(all[i], text@),
        decreases place,
    {
        assert(all[place - 1] == list@[place - 1]@);
        place -= 1;
    }
    proof {
        lemma_place(all, text@, place as int);
    }
    if place > 0 && crate::text::same(list[place - 1].as_str(), text) {
        return ;
    }
    let owned = text.to_owned();
    list.insert(place, owned);
    assert(pieces::texts(list@) =~= all.insert(place as int, text@));
}

} // verus!
