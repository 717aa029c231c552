//! The files that a build leaves behind.
use crate::lines::Lines;
use crate::paths;
use crate::paths::{ending, file_name};
use crate::pieces;
use crate::text::{chars, same};
use vstd::prelude::*;

verus! {

/// Whether a file is a compiled library.
pub open spec fn library(path: Seq<char>) -> bool {
    paths::ending_of(paths::file_of(path)) == Some("so"@)
}

/// Whether a file is a compiled library.
pub fn is_library(path: &str) -> (found: bool)
    ensures
        found == library(path@),
{
    match ending(file_name(path).as_str()) {
        Some(ending) => same(ending.as_str(), "so"),
        None => false,
    }
}

/// Whether a file is kept as what a build left behind: a compiled library, or the build's plan.
pub open spec fn artifact(path: Seq<char>) -> bool {
    library(path) || paths::file_of(path) == "build.ninja"@
}

/// Whether a file is kept as what a build left behind.
pub fn is_artifact(path: &str) -> (found: bool)
    ensures
        found == artifact(path@),
{
    is_library(path) || same(file_name(path).as_str(), "build.ninja")
}

/// The compiled libraries among the first `end` files.
pub open spec fn libraries_in(files: Seq<Seq<char>>, end: int) -> Seq<Seq<char>>
    decreases end,
{
    if end <= 0 {
        Seq::empty()
    } else if library(files[end - 1]) {
        libraries_in(files, end - 1).push(files[end - 1])
    } else {
        libraries_in(files, end - 1)
    }
}

/// The compiled libraries among files, in the files' order.
pub fn libraries(files: &Vec<String>) -> (found: Vec<String>)
    ensures
        pieces::texts(found@) == libraries_in(pieces::texts(files@), files@.len() as int),
{
    let ghost all = pieces::texts(files@);
    let mut list = Lines::new();
    let mut index: usize = 0;
    while index < files.len()
        invariant
            index <= files@.len(),
            all == pieces::texts(files@),
            list@ == libraries_in(all, index as int),
        decreases files@.len() - index,
    {
        assert(all[index as int] == files@[index as int]@);
        if is_library(files[index].as_str()) {
            list.add_text(files[index].as_str());
        }
        index += 1;
    }
    list.list
}

/// The rank of a character in a path: what parts the names comes first.
pub open spec fn rank(character: char) -> int {
    if character == '/' {
        -1
    } else {
        character as int
    }
}

proof fn lemma_rank(left: char, right: char)
    ensures
        left != right ==> rank(left) < rank(right) || rank(right) < rank(left),
        left == '/' && right != '/' ==> rank(left) < rank(right),
        right == '/' && left != '/' ==> rank(right) < rank(left),
{
    if left != '/' && right != '/' {
        assert(left as int == right as int ==> left == right);
    }
}

/// Whether `left` comes before `right` in the order of paths, name by name, from `from` on.
pub open spec fn before(left: Seq<char>, right: Seq<char>, from: int) -> bool
    decreases right.len() - from,
{
    if from < 0 || from >= right.len() {
        false
    } else if from >= left.len() {
        true
    } else if left[from] == right[from] {
        before(left, right, from + 1)
    } else {
        rank(left[from]) < rank(right[from])
    }
}

fn is_before(left: &str, right: &str) -> (found: bool)
    ensures
        found == before(left@, right@, 0),
{
    let ours = chars(left);
    let theirs = chars(right);
    let mut index: usize = 0;
    while index < theirs.len()
        invariant
            ours@ == left@,
            theirs@ == right@,
            index <= theirs@.len(),
            index <= ours@.len(),
            before(left@, right@, 0) == before(left@, right@, index as int),
        decreases theirs@.len() - index,
    {
        if index >= ours.len() {
            return true;
        }
        if ours[index] != theirs[index] {
            proof {
                lemma_rank(ours@[index as int], theirs@[index as int]);
            }
            if ours[index] == '/' {
                return true;
            }
            if theirs[index] == '/' {
                return false;
            }
            return ours[index] < theirs[index];
        }
        index += 1;
    }
    false
}

/// A list in the order of paths with one more path, behind those that do not come after it.
pub open spec fn with_path(list: Seq<Seq<char>>, path: Seq<char>) -> Seq<Seq<char>>
    decreases list.len(),
{
    if list.len() == 0 || !before(path, list.last(), 0) {
        list.push(path)
    } else {
        with_path(list.drop_last(), path).push(list.last())
    }
}

/// What a build left behind, of the first `end` files, in the order of paths.
pub open spec fn artifacts_in(files: Seq<Seq<char>>, end: int) -> Seq<Seq<char>>
    decreases end,
{
    if end <= 0 {
        Seq::empty()
    } else if artifact(files[end - 1]) {
        with_path(artifacts_in(files, end - 1), files[end - 1])
    } else {
        artifacts_in(files, end - 1)
    }
}

proof fn lemma_place(list: Seq<Seq<char>>, path: Seq<char>, place: int)
    requires
        0 <= place <= list.len(),
        forall|i: int| place <= i < list.len() ==> before(path, #[trigger] list[i], 0),
        place > 0 ==> !before(path, list[place - 1], 0),
    ensures
        with_path(list, path) == list.insert(place, path),
    decreases list.len(),
{
    if place < list.len() {
        lemma_place(list.drop_last(), path, place);
        assert(with_path(list, path) =~= list.insert(place, path));
    } else {
        assert(list.insert(place, path) =~= list.push(path));
    }
}

fn insert(list: &mut Vec<String>, path: &str)
    ensures
        pieces::texts(final(list)@) == with_path(pieces::texts(old(list)@), path@),
{
    let ghost all = pieces::texts(list@);
    let mut place: usize = list.len();
    while place > 0 && is_before(path, list[place - 1].as_str())
        invariant
            place <= list@.len(),
            all == pieces::texts(list@),
            forall|i: int| place <= i < all.len() ==> before(path@, #[trigger] all[i], 0),
        decreases place,
    {
        assert(all[place - 1] == list@[place - 1]@);
        place -= 1;
    }
    proof {
        if place > 0 {
            assert(all[place - 1] == list@[place - 1]@);
        }
        lemma_place(all, path@, place as int);
    }
    list.insert(place, path.to_owned());
    assert(pieces::texts(list@) =~= all.insert(place as int, path@));
}

/// What a build left behind, of some files, in the order of paths.
pub fn artifacts(files: &Vec<String>) -> (found: Vec<String>)
    ensures
        pieces::texts(found@) == artifacts_in(pieces::texts(files@), files@.len() as int),
{
    let ghost all = pieces::texts(files@);
    let mut list: Vec<String> = Vec::new();
    assert(pieces::texts(list@) =~= Seq::<Seq<char>>::empty());
    let mut index: usize = 0;
    while index < files.len()
        invariant
            index <= files@.len(),
            all == pieces::texts(files@),
            pieces::texts(list@) == artifacts_in(all, index as int),
        decreases files@.len() - index,
    {
        assert(all[index as int] == files@[index as int]@);
        if is_artifact(files[index].as_str()) {
            insert(&mut list, files[index].as_str());
        }
        index += 1;
    }
    list
}

proof fn lemma_total(left: Seq<char>, right: Seq<char>, from: int)
    requires
        0 <= from <= left.len(),
        from <= right.len(),
    ensures
        !before(left, right, from) || !before(right, left, from),
    decreases right.len() - from,
{
    if from < left.len() && from < right.len() && left[from] == right[from] {
        lemma_total(left, right, from + 1);
    }
}

proof fn lemma_chain(one: Seq<char>, two: Seq<char>, three: Seq<char>, from: int)
    requires
        0 <= from,
        !before(two, one, from),
        !before(three, two, from),
    ensures
        !before(three, one, from),
    decreases one.len() - from,
{
    if from < one.len() && from < two.len() && from < three.len() {
        if one[from] == two[from] && two[from] == three[from] {
            lemma_chain(one, two, three, from + 1);
        } else {
            lemma_rank(one[from], two[from]);
            lemma_rank(two[from], three[from]);
        }
    }
}

/// Whether no path comes before one that stands in front of it.
pub open spec fn ordered(list: Seq<Seq<char>>) -> bool {
    forall|i: int, j: int|
        0 <= i < j < list.len() ==> !before(#[trigger] list[j], #[trigger] list[i], 0)
}

proof fn lemma_with_path(list: Seq<Seq<char>>, path: Seq<char>)
    requires
        ordered(list),
    ensures
        ordered(with_path(list, path)),
        with_path(list, path).to_multiset() == list.to_multiset().insert(path),
        forall|limit: Seq<char>|
            (forall|i: int| 0 <= i < list.len() ==> !before(limit, #[trigger] list[i], 0)) && !before(
                limit,
                path,
                0,
            ) ==> (forall|i: int|
                0 <= i < with_path(list, path).len() ==> !before(
                    limit,
                    #[trigger] with_path(list, path)[i],
                    0,
                )),
    decreases list.len(),
{
    broadcast use vstd::seq_lib::group_to_multiset_ensures;

    if list.len() == 0 || !before(path, list.last(), 0) {
        let after = list.push(path);
        assert forall|i: int, j: int| 0 <= i < j < after.len() implies !before(
            #[trigger] after[j],
            #[trigger] after[i],
            0,
        ) by {
            if j == list.len() {
                if i < list.len() - 1 {
                    assert(!before(list.last(), list[i], 0));
                    lemma_chain(list[i], list.last(), path, 0);
                }
            }
        }
    } else {
        let rest = list.drop_last();
        let last = list.last();
        lemma_with_path(rest, path);
        let before_last = with_path(rest, path);
        lemma_total(path, last, 0);
        assert forall|i: int| 0 <= i < rest.len() implies !before(last, #[trigger] rest[i], 0) by {
            assert(rest[i] == list[i]);
            assert(!before(list[list.len() - 1], list[i], 0));
        }
        let after = before_last.push(last);
        assert forall|i: int, j: int| 0 <= i < j < after.len() implies !before(
            #[trigger] after[j],
            #[trigger] after[i],
            0,
        ) by {
            assert(after[i] == before_last[i]);
        }
        assert(list =~= rest.push(last));
        assert(list.to_multiset() == rest.to_multiset().insert(last));
        assert(after.to_multiset() =~= list.to_multiset().insert(path));
        assert forall|limit: Seq<char>|
            (forall|i: int| 0 <= i < list.len() ==> !before(limit, #[trigger] list[i], 0)) && !before(
                limit,
                path,
                0,
            ) implies (forall|i: int|
            0 <= i < after.len() ==> !before(limit, #[trigger] after[i], 0)) by {
            assert forall|i: int| 0 <= i < rest.len() implies !before(limit, #[trigger] rest[i], 0) by {
                assert(rest[i] == list[i]);
            }
            assert(!before(limit, list[list.len() - 1], 0));
            assert forall|i: int| 0 <= i < after.len() implies !before(
                limit,
                #[trigger] after[i],
                0,
            ) by {
                if i < before_last.len() {
                    assert(after[i] == before_last[i]);
                }
            }
        }
    }
}

/// What a build left behind stands in the order of paths, and is every artifact among the files,
/// as often as it is there.
pub proof fn artifacts_are_sorted(files: Seq<Seq<char>>, end: int)
    requires
        0 <= end <= files.len(),
    ensures
        ordered(artifacts_in(files, end)),
        artifacts_in(files, end).to_multiset() == files.take(end).filter(
            |path: Seq<char>| artifact(path),
        ).to_multiset(),
    decreases end,
{
    broadcast use vstd::seq_lib::group_to_multiset_ensures;

    let chosen = |path: Seq<char>| artifact(path);
    if end > 0 {
        artifacts_are_sorted(files, end - 1);
        let path = files[end - 1];
        assert(files.take(end) =~= files.take(end - 1).push(path));
        assert(files.take(end).drop_last() =~= files.take(end - 1));
        reveal(Seq::filter);
        if artifact(path) {
            lemma_with_path(artifacts_in(files, end - 1), path);
            assert(files.take(end).filter(chosen) == files.take(end - 1).filter(chosen).push(path));
        } else {
            assert(files.take(end).filter(chosen) == files.take(end - 1).filter(chosen));
        }
    } else {
        assert(files.take(0).filter(chosen) =~= Seq::<Seq<char>>::empty()) by {
            reveal(Seq::filter);
        }
    }
}

} // verus!
