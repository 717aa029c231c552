//! Which changes of the kept memory are allowed.
use crate::numeral;
use crate::numeral::signed_numeral;
use crate::pieces;
use vstd::prelude::*;

verus! {

/// The longest snapshot that is kept, in bytes.
pub const MAX_SNAPSHOT_BYTES: usize = 65536;

/// The key of an extraction.
pub open spec fn key_of(run_id: Seq<char>, batch: int) -> Seq<char> {
    run_id + ":"@ + numeral::signed(batch)
}

/// The key of an extraction.
pub fn job_key(run_id: &str, batch: i64) -> (key: String)
    ensures
        key@ == key_of(run_id@, batch as int),
{
    run_id.to_owned().concat(":").concat(signed_numeral(batch as i128).as_str())
}

/// The key of the extraction that begins; a run without a name, or a batch before the first, is
/// refused.
pub fn begin_search_extraction(run_id: &str, batch: i64) -> (result: Result<String, String>)
    ensures
        match result {
            Ok(key) => run_id@.len() > 0 && batch >= 0 && key@ == key_of(run_id@, batch as int),
            Err(error) => !(run_id@.len() > 0 && batch >= 0) && error@
                == "invalid search memory scope"@,
        },
{
    if run_id.is_empty() || batch < 0 {
        return Err("invalid search memory scope".to_owned());
    }
    Ok(job_key(run_id, batch))
}

/// Why a snapshot is refused before the kept ones are looked at, if it is.
pub open spec fn snapshot_refusal(snapshot: Seq<char>, previous_version: int) -> Option<Seq<char>> {
    if vstd::utf8::encode_utf8(snapshot).len() > MAX_SNAPSHOT_BYTES {
        Some("search memory snapshot is too large"@)
    } else if previous_version < 0 {
        Some("invalid search memory version"@)
    } else {
        None
    }
}

/// Why an update of `previous_version` is refused where `latest` is the latest, if it is.
pub open spec fn version_refusal(latest: int, previous_version: int) -> Option<Seq<char>> {
    if latest != previous_version {
        Some("stale search memory update"@)
    } else {
        None
    }
}

/// The version of an update after `latest`, where `closed` extractions were running and are closed
/// by it, or why it is refused.
pub open spec fn next_version(latest: int, closed: int) -> Result<int, Seq<char>> {
    if closed != 1 {
        Err("search memory extraction is not active"@)
    } else {
        Ok(latest + 1)
    }
}

/// The version of an update of `previous_version` after `latest`, where `closed` extractions were
/// running and are closed by it, or why it is refused.
pub open spec fn update(
    snapshot: Seq<char>,
    previous_version: int,
    latest: int,
    closed: int,
) -> Result<int, Seq<char>> {
    match snapshot_refusal(snapshot, previous_version) {
        Some(error) => Err(error),
        None => match version_refusal(latest, previous_version) {
            Some(error) => Err(error),
            None => next_version(latest, closed),
        },
    }
}

/// Refuses a snapshot that is too long, or that follows no version.
pub fn check_snapshot(snapshot: &str, previous_version: i64) -> (checked: Result<(), String>)
    ensures
        pieces::trouble(checked) == snapshot_refusal(snapshot@, previous_version as int),
{
    if snapshot.as_bytes().len() > MAX_SNAPSHOT_BYTES {
        return Err("search memory snapshot is too large".to_owned());
    }
    if previous_version < 0 {
        return Err("invalid search memory version".to_owned());
    }
    Ok(())
}

/// Refuses an update of another version than the latest.
pub fn check_version(latest: i64, previous_version: i64) -> (checked: Result<(), String>)
    ensures
        pieces::trouble(checked) == version_refusal(latest as int, previous_version as int),
{
    if latest != previous_version {
        return Err("stale search memory update".to_owned());
    }
    Ok(())
}

/// What became of an extraction.
pub enum Job {
    Running,
    Failed,
    Done,
}

/// What is kept: the extractions by their keys, and the snapshots of every run in the order of
/// their versions.
pub struct Kept {
    pub jobs: Map<Seq<char>, Job>,
    pub snapshots: Map<Seq<char>, Seq<Seq<char>>>,
}

/// The snapshots of a run.
pub open spec fn snapshots_of(kept: Kept, run_id: Seq<char>) -> Seq<Seq<char>> {
    if kept.snapshots.dom().contains(run_id) {
        kept.snapshots[run_id]
    } else {
        Seq::empty()
    }
}

/// The latest snapshot of a run.
pub open spec fn loaded(kept: Kept, run_id: Seq<char>) -> Option<Seq<char>> {
    let list = snapshots_of(kept, run_id);
    if list.len() == 0 {
        None
    } else {
        Some(list.last())
    }
}

/// How many extractions with a key are running.
pub open spec fn running(kept: Kept, key: Seq<char>) -> int {
    if kept.jobs.dom().contains(key) && kept.jobs[key] is Running {
        1
    } else {
        0
    }
}

/// What is kept once a running extraction has failed.
pub open spec fn failed(kept: Kept, run_id: Seq<char>, batch: int) -> Kept {
    if running(kept, key_of(run_id, batch)) == 1 {
        Kept { jobs: kept.jobs.insert(key_of(run_id, batch), Job::Failed), ..kept }
    } else {
        kept
    }
}

/// What is kept after an update, or why it is refused.
pub open spec fn committed(
    kept: Kept,
    run_id: Seq<char>,
    batch: int,
    previous_version: int,
    snapshot: Seq<char>,
) -> Result<Kept, Seq<char>> {
    let list = snapshots_of(kept, run_id);
    let key = key_of(run_id, batch);
    match update(snapshot, previous_version, list.len() as int, running(kept, key)) {
        Err(error) => Err(error),
        Ok(_) => Ok(
            Kept {
                jobs: kept.jobs.insert(key, Job::Done),
                snapshots: kept.snapshots.insert(run_id, list.push(snapshot)),
            },
        ),
    }
}

/// How many snapshots of the run are kept after an update, or why it is refused.
pub open spec fn count_after(
    kept: Kept,
    run_id: Seq<char>,
    batch: int,
    previous_version: int,
    snapshot: Seq<char>,
) -> Result<int, Seq<char>> {
    match committed(kept, run_id, batch, previous_version, snapshot) {
        Err(error) => Err(error),
        Ok(after) => Ok(snapshots_of(after, run_id).len() as int),
    }
}

/// The model of a version, or of why there is none.
pub open spec fn version_view(result: Result<i64, String>) -> Result<int, Seq<char>> {
    match result {
        Ok(version) => Ok(version as int),
        Err(error) => Err(error@),
    }
}

/// The version of an update of `previous_version` after `latest`, where `closed` extractions were
/// running and are closed by it. Where `latest` is how many snapshots of a run are kept, and
/// `closed` how many of its extractions for a batch are running, this is what becomes of the update.
pub fn commit_search_snapshot(
    snapshot: &str,
    previous_version: i64,
    latest: i64,
    closed: u64,
) -> (result: Result<i64, String>)
    requires
        latest < i64::MAX,
    ensures
        version_view(result) == update(
            snapshot@,
            previous_version as int,
            latest as int,
            closed as int,
        ),
        forall|kept: Kept, run_id: Seq<char>, batch: int|
            snapshots_of(kept, run_id).len() == latest && running(kept, key_of(run_id, batch))
                == closed ==> #[trigger] count_after(
                kept,
                run_id,
                batch,
                previous_version as int,
                snapshot@,
            ) == version_view(result),
{
    match check_snapshot(snapshot, previous_version) {
        Err(error) => {
            return Err(error);
        },
        Ok(()) => {},
    }
    match check_version(latest, previous_version) {
        Err(error) => {
            return Err(error);
        },
        Ok(()) => {},
    }
    if closed != 1 {
        return Err("search memory extraction is not active".to_owned());
    }
    Ok(latest + 1)
}

/// An update that is allowed follows the latest version, is what is loaded afterwards, and leaves
/// the snapshots of every other run as they are.
pub proof fn updates_are_scoped(
    kept: Kept,
    run_id: Seq<char>,
    batch: int,
    previous_version: int,
    snapshot: Seq<char>,
    other: Seq<char>,
)
    requires
        committed(kept, run_id, batch, previous_version, snapshot) is Ok,
    ensures
        ({
            let after = committed(kept, run_id, batch, previous_version, snapshot)->Ok_0;
            &&& snapshots_of(kept, run_id).len() == previous_version
            &&& snapshots_of(after, run_id) == snapshots_of(kept, run_id).push(snapshot)
            &&& loaded(after, run_id) == Some(snapshot)
            &&& other != run_id ==> loaded(after, other) == loaded(kept, other)
        }),
{
}

/// Of two updates that follow the same version only one is allowed: the second is refused,
/// whatever it holds.
pub proof fn updates_swap_once(
    kept: Kept,
    run_id: Seq<char>,
    batch: int,
    previous_version: int,
    snapshot: Seq<char>,
    later_batch: int,
    later: Seq<char>,
)
    requires
        committed(kept, run_id, batch, previous_version, snapshot) is Ok,
    ensures
        committed(
            committed(kept, run_id, batch, previous_version, snapshot)->Ok_0,
            run_id,
            later_batch,
            previous_version,
            later,
        ) is Err,
{
}

/// An extraction that has failed, or that has been committed, commits nothing more.
pub proof fn closed_extractions_commit_nothing(
    kept: Kept,
    run_id: Seq<char>,
    batch: int,
    previous_version: int,
    snapshot: Seq<char>,
    later_version: int,
    later: Seq<char>,
)
    ensures
        committed(failed(kept, run_id, batch), run_id, batch, later_version, later) is Err,
        match committed(kept, run_id, batch, previous_version, snapshot) {
            Ok(after) => committed(after, run_id, batch, later_version, later) is Err,
            Err(_) => true,
        },
{
}

} // verus!
