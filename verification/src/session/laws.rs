//! What holds of every batch.
use crate::json::JsonView;
use crate::session::batch;
use crate::session::batch::{BatchView, EventView};
use crate::session::{ResultView, SpecView};
use vstd::prelude::*;

verus! {

/// Whether a session is at work.
pub open spec fn works(batch: BatchView, index: int) -> bool {
    exists|thread: Seq<char>| #[trigger]
        batch.active.dom().contains(thread) && batch.active[thread] == index
}

/// Whether a session gave a value or has an error.
pub open spec fn answered(result: ResultView) -> bool {
    result.value is Some || result.error is Some
}

/// Whether every session is at work, gave a value or has an error.
pub open spec fn settled(batch: BatchView) -> bool {
    forall|i: int|
        0 <= i < batch.results.len() ==> works(batch, i) || answered(#[trigger] batch.results[i])
}

/// Whatever happens, every thread at work belongs to a session, no session appears or is lost, and
/// every session that no longer works gave a value or has an error.
pub proof fn events_keep_settled(batch: BatchView, tasks: Seq<SpecView>, event: EventView)
    requires
        batch.sound(),
        settled(batch),
    ensures
        ({
            let after = batch::stepped(batch, tasks, event).0;
            &&& after.sound()
            &&& settled(after)
            &&& after.results.len() == batch.results.len()
        }),
{
    let after = batch::stepped(batch, tasks, event).0;
    assert forall|i: int| 0 <= i < after.results.len() implies works(after, i) || answered(
        #[trigger] after.results[i],
    ) by {
        assert(works(batch, i) || answered(batch.results[i]));
        if works(batch, i) {
            let thread = choose|thread: Seq<char>| #[trigger]
                batch.active.dom().contains(thread) && batch.active[thread] == i;
            match event {
                EventView::Turn(ended, _, _) => {
                    if ended != thread {
                        assert(after.active.dom().contains(thread));
                        assert(after.active[thread] == i);
                    }
                },
                _ => {
                    assert(after.active.dom().contains(thread));
                },
            }
        }
    }
}

/// What happens to a thread that is not at work changes nothing.
pub proof fn strangers_change_nothing(
    batch: BatchView,
    tasks: Seq<SpecView>,
    thread: Seq<char>,
    item: JsonView,
    message: Option<batch::MessageView>,
    completed: bool,
)
    requires
        !batch.active.dom().contains(thread),
    ensures
        batch::stepped(batch, tasks, EventView::Item(thread, item, message)).0 == batch,
        batch::stepped(batch, tasks, EventView::Turn(thread, completed, item)).0 == batch,
{
}

/// A turn that is over is over for good: its thread is no longer at work, and its session gave a
/// value or has an error.
pub proof fn turns_end(
    batch: BatchView,
    tasks: Seq<SpecView>,
    thread: Seq<char>,
    completed: bool,
    turn: JsonView,
)
    requires
        batch.sound(),
        batch.active.dom().contains(thread),
    ensures
        ({
            let after = batch::stepped(batch, tasks, EventView::Turn(thread, completed, turn)).0;
            &&& !after.active.dom().contains(thread)
            &&& answered(after.results[batch.active[thread] as int])
        }),
{
}

/// A session that is given its task on a thread of its own is at work, and all others stay as they
/// are.
pub proof fn starting_keeps_settled(before: BatchView, turn_id: Seq<char>)
    requires
        before.results.len() > 0,
        before.results.len() <= usize::MAX,
        !before.active.dom().contains(before.results.last().thread_id),
        forall|i: int|
            0 <= i < before.results.len() - 1 ==> works(before, i) || answered(
                #[trigger] before.results[i],
            ),
    ensures
        settled(
            BatchView {
                results: before.results.update(
                    before.results.len() - 1,
                    ResultView { turn_id, ..before.results.last() },
                ),
                active: before.active.insert(
                    before.results.last().thread_id,
                    (before.results.len() - 1) as usize,
                ),
                ..before
            },
        ),
{
    let last = before.results.len() - 1;
    let thread = before.results.last().thread_id;
    let after = BatchView {
        results: before.results.update(
            before.results.len() - 1,
            ResultView { turn_id, ..before.results.last() },
        ),
        active: before.active.insert(thread, (before.results.len() - 1) as usize),
        ..before
    };
    assert forall|i: int| 0 <= i < after.results.len() implies works(after, i) || answered(
        #[trigger] after.results[i],
    ) by {
        if i == last {
            assert(after.active.dom().contains(thread) && after.active[thread] == i);
        } else {
            assert(works(before, i) || answered(before.results[i]));
            if works(before, i) {
                let other = choose|other: Seq<char>| #[trigger]
                    before.active.dom().contains(other) && before.active[other] == i;
                assert(after.active.dom().contains(other) && after.active[other] == i);
            }
        }
    }
}

/// Running out of time ends every session at work with an error, and takes no value from any.
pub proof fn time_runs_out_for_all(
    before: BatchView,
    threads: Seq<Seq<char>>,
    interrupts: Seq<Option<Seq<char>>>,
    seconds: nat,
    end: int,
)
    requires
        before.sound(),
        0 <= end <= threads.len(),
        forall|k: int|
            0 <= k < threads.len() ==> before.active.dom().contains(#[trigger] threads[k]),
    ensures
        ({
            let after = batch::expired(before, threads, interrupts, seconds, end);
            &&& after.len() == before.results.len()
            &&& forall|i: int|
                0 <= i < after.len() ==> (#[trigger] after[i]).value == before.results[i].value
            &&& forall|i: int|
                0 <= i < after.len() && before.results[i].error is Some ==> (
                #[trigger] after[i]).error is Some
            &&& forall|k: int|
                0 <= k < end ==> after[before.active[#[trigger] threads[k]] as int].error is Some
        }),
    decreases end,
{
    if end > 0 {
        time_runs_out_for_all(before, threads, interrupts, seconds, end - 1);
        let earlier = batch::expired(before, threads, interrupts, seconds, end - 1);
        let after = batch::expired(before, threads, interrupts, seconds, end);
        let index = before.active[threads[end - 1]] as int;
        assert(before.active.dom().contains(threads[end - 1]));
        assert forall|k: int| 0 <= k < end implies after[before.active[#[trigger] threads[k]] as int].error is Some by {
            assert(before.active.dom().contains(threads[k]));
            if before.active[threads[k]] != index {
                assert(k < end - 1);
            }
        }
        assert forall|i: int| 0 <= i < after.len() implies (#[trigger] after[i]).value
            == before.results[i].value by {
            assert(earlier[i].value == before.results[i].value);
        }
        assert forall|i: int| 0 <= i < after.len() && before.results[i].error is Some implies (
        #[trigger] after[i]).error is Some by {
            assert(earlier[i].error is Some);
        }
    }
}

/// Once no session is at work, every one gave a value or has an error.
pub proof fn done_batches_are_answered(batch: BatchView)
    requires
        settled(batch),
        batch.active == Map::<Seq<char>, usize>::empty(),
    ensures
        forall|i: int| 0 <= i < batch.results.len() ==> answered(#[trigger] batch.results[i]),
{
    assert forall|i: int| 0 <= i < batch.results.len() implies answered(
        #[trigger] batch.results[i],
    ) by {
        assert(works(batch, i) || answered(batch.results[i]));
        assert(!works(batch, i));
    }
}

/// A batch that has not failed gave a value for every session that was no candidate's.
pub proof fn finished_roles_have_values(results: Seq<ResultView>, index: int)
    requires
        batch::finished(results, None, None) is Ok,
        forall|i: int| 0 <= i < results.len() ==> answered(#[trigger] results[i]),
        0 <= index < results.len(),
        results[index].role != "candidate"@,
    ensures
        results[index].value is Some,
{
    lemma_no_failure(results, 0, index);
    assert(answered(results[index]));
}

proof fn lemma_no_failure(results: Seq<ResultView>, from: int, index: int)
    requires
        0 <= from <= index < results.len(),
        batch::failure(results, from) is None,
    ensures
        !(results[index].role != "candidate"@ && results[index].error is Some
            && results[index].value is None),
    decreases index - from,
{
    if from < index {
        lemma_no_failure(results, from + 1, index);
    }
}

} // verus!
