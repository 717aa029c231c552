//! The tasks: what is read from a task's file, and how a task is picked.
pub mod docstring;
pub mod laws;
pub mod literal;
pub mod source;
pub mod sources;
pub mod task;
pub mod tree;

use crate::json;
use crate::json::{Json, JsonView};
use crate::numeral;
use crate::numeral::{count, numeral};
use crate::pieces;
use crate::text::same;
use vstd::prelude::*;

verus! {

/// Whether a request is for the tasks that lie right below the root.
pub open spec fn is_flat(payload: JsonView) -> bool {
    payload.at("dataset"@).is_text("kernelbench_veomni"@)
}

/// The level of the tasks that a request is for.
pub open spec fn level_of(payload: JsonView) -> u64 {
    if is_flat(payload) {
        1
    } else {
        match payload.at("level"@).natural() {
            Some(level) => level,
            None => 1,
        }
    }
}

/// The directory of the tasks below the root: none where they lie right below it.
pub open spec fn directory_of(payload: JsonView) -> Option<Seq<char>> {
    if is_flat(payload) {
        None
    } else {
        Some("level"@ + numeral::decimal(level_of(payload) as nat))
    }
}

/// Where a request's tasks lie.
pub struct Place {
    pub root: String,
    /// The directory below the root.
    pub directory: Option<String>,
    pub level: u64,
    /// Whether a file that is no task fails the request.
    pub strict: bool,
}

/// Where the tasks of a request lie.
pub fn place(payload: &Json) -> (result: Result<Place, String>)
    ensures
        match result {
            Ok(place) => {
                &&& payload@.at("dataset_root"@).text() == Some(place.root@)
                &&& pieces::optional(place.directory) == directory_of(payload@)
                &&& place.level == level_of(payload@)
                &&& place.strict == is_flat(payload@)
            },
            Err(error) => payload@.at("dataset_root"@).text() is None && error@ == "dataset root"@,
        },
{
    let root = match payload.at("dataset_root").text() {
        None => {
            return Err("dataset root".to_owned());
        },
        Some(root) => root.to_owned(),
    };
    let strict = payload.at("dataset").is_text("kernelbench_veomni");
    let level: u64 = if strict {
        1
    } else {
        match payload.at("level").natural() {
            Some(level) => level,
            None => 1,
        }
    };
    let directory = if strict {
        None
    } else {
        Some("level".to_owned().concat(numeral(level as u128).as_str()))
    };
    Ok(Place { root, directory, level, strict })
}

/// What became of one of the files.
pub struct Attempt {
    pub file_name: Option<String>,
    pub stem: Option<String>,
    pub result: Result<Json, String>,
}

/// Whether a task, or the file that holds it, is called `requested`.
pub open spec fn is_called(attempt: Attempt, problem: JsonView, requested: Seq<char>) -> bool {
    problem.at("task_id"@).is_text(requested) || pieces::optional(attempt.file_name) == Some(
        requested,
    ) || pieces::optional(attempt.stem) == Some(requested)
}

/// The tasks called `requested` in the first `end` files; a file that is no task is passed over,
/// or fails a strict request.
pub open spec fn called(
    attempts: Seq<Attempt>,
    end: int,
    requested: Seq<char>,
    strict: bool,
) -> Result<Seq<JsonView>, Seq<char>>
    decreases end,
{
    if end <= 0 {
        Ok(Seq::empty())
    } else {
        match called(attempts, end - 1, requested, strict) {
            Err(error) => Err(error),
            Ok(before) => match json::outcome(attempts[end - 1].result) {
                Err(error) => if strict {
                    Err(error)
                } else {
                    Ok(before)
                },
                Ok(problem) => if is_called(attempts[end - 1], problem, requested) {
                    Ok(before.push(problem))
                } else {
                    Ok(before)
                },
            },
        }
    }
}

/// The task that a request is for: the only one with the requested name.
pub open spec fn picked(payload: JsonView, attempts: Seq<Attempt>) -> Result<JsonView, Seq<char>> {
    match payload.at("task"@).text() {
        None => Err("task selector"@),
        Some(requested) => match called(
            attempts,
            attempts.len() as int,
            requested,
            is_flat(payload),
        ) {
            Err(error) => Err(error),
            Ok(list) => if list.len() == 1 {
                Ok(list[0])
            } else {
                Err(
                    "task must match exactly one filename or task ID, matched "@
                        + numeral::decimal(list.len()),
                )
            },
        },
    }
}

fn named(name: &Option<String>, requested: &str) -> (found: bool)
    ensures
        found == (pieces::optional(*name) == Some(requested@)),
{
    match name {
        Some(name) => same(name.as_str(), requested),
        None => false,
    }
}

proof fn lemma_called_refused(
    attempts: Seq<Attempt>,
    index: int,
    end: int,
    requested: Seq<char>,
    strict: bool,
)
    requires
        0 <= index <= end,
        called(attempts, index, requested, strict) is Err,
    ensures
        called(attempts, end, requested, strict) == called(attempts, index, requested, strict),
    decreases end - index,
{
    if index < end {
        lemma_called_refused(attempts, index, end - 1, requested, strict);
    }
}

fn find_called<'a>(attempts: &'a Vec<Attempt>, requested: &str, strict: bool) -> (result: Result<
    Vec<&'a Json>,
    String,
>)
    ensures
        match result {
            Ok(list) => called(attempts@, attempts@.len() as int, requested@, strict) == Ok::<
                Seq<JsonView>,
                Seq<char>,
            >(Seq::new(list@.len(), |i: int| list@[i]@)),
            Err(error) => called(attempts@, attempts@.len() as int, requested@, strict) == Err::<
                Seq<JsonView>,
                Seq<char>,
            >(error@),
        },
{
    let mut list: Vec<&'a Json> = Vec::new();
    let mut index: usize = 0;
    assert(Seq::new(list@.len(), |i: int| list@[i]@) =~= Seq::<JsonView>::empty());
    while index < attempts.len()
        invariant
            index <= attempts@.len(),
            called(attempts@, index as int, requested@, strict) == Ok::<Seq<JsonView>, Seq<char>>(
                Seq::new(list@.len(), |i: int| list@[i]@),
            ),
        decreases attempts@.len() - index,
    {
        let ghost before = Seq::new(list@.len(), |i: int| list@[i]@);
        match &attempts[index].result {
            Err(error) => {
                if strict {
                    proof {
                        lemma_called_refused(
                            attempts@,
                            index + 1,
                            attempts@.len() as int,
                            requested@,
                            strict,
                        );
                    }
                    return Err(error.clone());
                }
            },
            Ok(problem) => {
                if problem.at("task_id").is_text(requested) || named(
                    &attempts[index].file_name,
                    requested,
                ) || named(&attempts[index].stem, requested) {
                    list.push(problem);
                    assert(Seq::new(list@.len(), |i: int| list@[i]@) =~= before.push(problem@));
                }
            },
        }
        index += 1;
    }
    Ok(list)
}

/// The task that a request is for, out of what became of the files in their order.
pub fn pick(payload: &Json, attempts: &Vec<Attempt>) -> (result: Result<Json, String>)
    ensures
        json::outcome(result) == picked(payload@, attempts@),
{
    let requested = match payload.at("task").text() {
        None => {
            return Err("task selector".to_owned());
        },
        Some(requested) => requested,
    };
    let strict = payload.at("dataset").is_text("kernelbench_veomni");
    match find_called(attempts, requested, strict) {
        Err(error) => Err(error),
        Ok(list) => if list.len() == 1 {
            Ok(list[0].clone())
        } else {
            Err(
                "task must match exactly one filename or task ID, matched ".to_owned().concat(
                    count(list.len()).as_str(),
                ),
            )
        },
    }
}

/// A task is picked only where it is the one task with the requested name: a second one with
/// that name fails the request.
pub proof fn picked_task_is_called(payload: JsonView, attempts: Seq<Attempt>)
    requires
        picked(payload, attempts) is Ok,
    ensures
        exists|i: int|
            {
                &&& 0 <= i < attempts.len()
                &&& json::outcome((#[trigger] attempts[i]).result) == picked(payload, attempts)
                &&& is_called(attempts[i], picked(payload, attempts)->Ok_0, payload.at("task"@).text()->Some_0)
                &&& forall|j: int|
                    0 <= j < attempts.len() && j != i && json::outcome(
                        (#[trigger] attempts[j]).result,
                    ) is Ok ==> !is_called(
                        attempts[j],
                        json::outcome(attempts[j].result)->Ok_0,
                        payload.at("task"@).text()->Some_0,
                    )
            },
{
    let requested = payload.at("task"@).text()->Some_0;
    let strict = is_flat(payload);
    let end = attempts.len() as int;
    let i = lemma_only(attempts, end, requested, strict);
    assert(json::outcome(attempts[i].result) == picked(payload, attempts));
}

proof fn lemma_none(attempts: Seq<Attempt>, end: int, requested: Seq<char>, strict: bool)
    requires
        0 <= end <= attempts.len(),
        called(attempts, end, requested, strict) is Ok,
        called(attempts, end, requested, strict)->Ok_0.len() == 0,
    ensures
        forall|j: int|
            0 <= j < end && json::outcome((#[trigger] attempts[j]).result) is Ok ==> !is_called(
                attempts[j],
                json::outcome(attempts[j].result)->Ok_0,
                requested,
            ),
    decreases end,
{
    if end > 0 {
        lemma_none(attempts, end - 1, requested, strict);
    }
}

proof fn lemma_only(attempts: Seq<Attempt>, end: int, requested: Seq<char>, strict: bool) -> (i: int)
    requires
        0 <= end <= attempts.len(),
        called(attempts, end, requested, strict) is Ok,
        called(attempts, end, requested, strict)->Ok_0.len() == 1,
    ensures
        0 <= i < end,
        json::outcome(attempts[i].result) is Ok,
        called(attempts, end, requested, strict)->Ok_0[0] == json::outcome(attempts[i].result)->Ok_0,
        is_called(attempts[i], json::outcome(attempts[i].result)->Ok_0, requested),
        forall|j: int|
            0 <= j < end && j != i && json::outcome((#[trigger] attempts[j]).result) is Ok ==> !is_called(
                attempts[j],
                json::outcome(attempts[j].result)->Ok_0,
                requested,
            ),
    decreases end,
{
    let before = called(attempts, end - 1, requested, strict)->Ok_0;
    if before.len() == 0 {
        lemma_none(attempts, end - 1, requested, strict);
        end - 1
    } else {
        lemma_only(attempts, end - 1, requested, strict)
    }
}

} // verus!
