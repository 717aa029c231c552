//! Whether files are what they were.
use crate::json::{Json, JsonView};
use crate::outside;
use crate::outside::digest;
use crate::pieces;
use vstd::prelude::*;

verus! {

/// The file of a task that has to be read to check it: none where no digest was kept.
pub open spec fn task_path(problem: JsonView) -> Result<Option<Seq<char>>, Seq<char>> {
    match problem.get("file_sha256"@) {
        None => Ok(None),
        Some(_) => match problem.at("file_path"@).text() {
            Some(path) => Ok(Some(path)),
            None => Err("reference file"@),
        },
    }
}

/// The file of a task that has to be read to check it.
pub fn task_file(problem: &Json) -> (result: Result<Option<&str>, String>)
    ensures
        match result {
            Ok(Some(path)) => task_path(problem@) == Ok::<Option<Seq<char>>, Seq<char>>(
                Some(path@),
            ),
            Ok(None) => task_path(problem@) == Ok::<Option<Seq<char>>, Seq<char>>(None),
            Err(error) => task_path(problem@) == Err::<Option<Seq<char>>, Seq<char>>(error@),
        },
{
    match problem.get("file_sha256") {
        None => Ok(None),
        Some(_) => match problem.at("file_path").text() {
            Some(path) => Ok(Some(path)),
            None => Err("reference file".to_owned()),
        },
    }
}

/// Why a task whose file has the digest `now` is refused, if it is.
pub open spec fn task_refusal(problem: JsonView, now: Seq<char>) -> Option<Seq<char>> {
    match task_path(problem) {
        Err(reason) => Some(reason),
        Ok(None) => None,
        Ok(Some(_)) => if problem.at("file_sha256"@) == JsonView::Text(now) {
            None
        } else {
            Some("reference file changed after task preparation"@)
        },
    }
}

/// Refuses a task whose file has another digest than the one that was kept.
pub fn check_task_digest(problem: &Json, now: &str) -> (checked: Result<(), String>)
    ensures
        pieces::trouble(checked) == task_refusal(problem@, now@),
{
    match task_file(problem) {
        Err(error) => Err(error),
        Ok(None) => Ok(()),
        Ok(Some(_)) => if problem.at("file_sha256").is_text(now) {
            Ok(())
        } else {
            Err("reference file changed after task preparation".to_owned())
        },
    }
}

/// Refuses a task whose file was changed; `bytes` is what the file holds now.
pub fn validate_task(problem: &Json, bytes: &Vec<u8>) -> (checked: Result<(), String>)
    ensures
        pieces::trouble(checked) == task_refusal(problem@, outside::sha256(bytes@)),
{
    check_task_digest(problem, digest(bytes.as_slice()).as_str())
}

/// The digest of a text.
pub fn text_digest(text: &str) -> (digits: String)
    ensures
        digits@ == outside::sha256(vstd::utf8::encode_utf8(text@)),
{
    digest(text.as_bytes())
}

/// Why a candidate whose source has the digest `now` is refused, if it is: the source or the
/// reference is not the one that the payload names.
pub open spec fn candidate_refusal(payload: JsonView, now: Seq<char>) -> Option<Seq<char>> {
    if !(payload.at("source_sha256"@) == JsonView::Text(now)) {
        Some("candidate source identity mismatch"@)
    } else {
        None
    }
}

/// Why a reference is refused, if it is: it belongs to another task.
pub open spec fn reference_refusal(payload: JsonView) -> Option<Seq<char>> {
    if payload.at("reference"@).at("task_sha256"@).equals(payload.at("problem"@).at("sha256"@)) {
        None
    } else {
        Some("reference task identity mismatch"@)
    }
}

/// Refuses a candidate whose source has another digest than the payload names.
pub fn check_candidate(payload: &Json, now: &str) -> (checked: Result<(), String>)
    ensures
        pieces::trouble(checked) == candidate_refusal(payload@, now@),
{
    if payload.at("source_sha256").is_text(now) {
        Ok(())
    } else {
        Err("candidate source identity mismatch".to_owned())
    }
}

/// Refuses a reference that belongs to another task.
pub fn check_reference(payload: &Json) -> (checked: Result<(), String>)
    ensures
        pieces::trouble(checked) == reference_refusal(payload@),
{
    if payload.at("reference").at("task_sha256").equals(payload.at("problem").at("sha256")) {
        Ok(())
    } else {
        Err("reference task identity mismatch".to_owned())
    }
}

/// Why a source is refused after an evaluation, if it is: it was changed meanwhile.
pub open spec fn change_refusal(before: Seq<char>, after: Seq<char>) -> Option<Seq<char>> {
    if before == after {
        None
    } else {
        Some("candidate source changed during evaluation"@)
    }
}

/// Refuses a source that was changed during an evaluation.
pub fn check_unchanged(before: &str, after: &str) -> (checked: Result<(), String>)
    ensures
        pieces::trouble(checked) == change_refusal(before@, after@),
{
    if crate::text::same(before, after) {
        Ok(())
    } else {
        Err("candidate source changed during evaluation".to_owned())
    }
}

} // verus!
