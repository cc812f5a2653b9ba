use vstd::prelude::*;
use crate::digits::{all_digits, digits_val};
use crate::errors::CliError;
use crate::meta::{add_solved_spec, Meta};
use crate::models::{score_is_success, SubmissionDetail, SubmissionPost};
use crate::workspace::path_is_under;
use crate::digits::parse_usize;

verus! {

/// Resolves a submission path to the task it belongs to, by reverse lookup
/// through the workspace map. A path outside every known task directory is
/// rejected with `WorkspaceMismatch`, before any network work is done.
pub fn resolve_submission_target(meta: &Meta, path: &str) -> (r: Result<usize, CliError>)
    requires
        meta.wf(),
    ensures
        r is Ok ==> meta.task_dir().dir_map().contains_key(r->Ok_0) && path_is_under(
            path@,
            meta.task_dir().dir_map()[r->Ok_0]@,
        ),
        r is Err <==> (forall|id: usize|
            #[trigger] meta.task_dir().dir_map().contains_key(id) ==> !path_is_under(
                path@,
                meta.task_dir().dir_map()[id]@,
            )),
        r is Err ==> r->Err_0 == CliError::WorkspaceMismatch,
{
    match meta.get_task_id_from_workspace(path) {
        Some(id) => Ok(id),
        None => Err(CliError::WorkspaceMismatch),
    }
}

/// Applies one grading result to the snapshot: a full solve records the
/// task as solved (the caller then persists the snapshot); anything else
/// leaves the snapshot untouched, and only the failure detail is shown.
pub fn apply_submission_result(meta: &mut Meta, task_id: usize, result: &SubmissionPost) -> (solved:
    bool)
    requires
        old(meta).wf(),
    ensures
        final(meta).wf(),
        solved == score_is_success(result.score),
        solved ==> final(meta).task_dir().solved_seq() == add_solved_spec(
            old(meta).task_dir().solved_seq(),
            task_id,
        ),
        final(meta).task_dir().tasks_seq() == old(meta).task_dir().tasks_seq(),
        final(meta).task_dir().order_map() == old(meta).task_dir().order_map(),
        final(meta).task_dir().dir_map() == old(meta).task_dir().dir_map(),
        !solved ==> *final(meta) == *old(meta),
{
    if result.was_successful() {
        meta.add_solved_task_id(task_id);
        true
    } else {
        false
    }
}

/// The numeric value of a submission's timestamp text.
pub open spec fn timestamp_val(sub: SubmissionDetail) -> int {
    digits_val(sub.timestamp@)
}

/// True when a submission's timestamp text is a plain decimal number that
/// fits the machine.
pub open spec fn timestamp_parses(sub: SubmissionDetail) -> bool {
    sub.timestamp@.len() > 0 && all_digits(sub.timestamp@) && digits_val(sub.timestamp@)
        <= usize::MAX
}

/// The index of the most recent submission: the one with the greatest
/// timestamp, the last one among equals — the failure display picks it.
pub fn latest_submission(subs: &Vec<SubmissionDetail>) -> (r: Option<usize>)
    requires
        forall|i: int| 0 <= i < subs@.len() ==> timestamp_parses(#[trigger] subs@[i]),
    ensures
        r is Some <==> subs@.len() > 0,
        r is Some ==> 0 <= r->0 < subs@.len(),
        r is Some ==> forall|j: int|
            0 <= j < subs@.len() ==> timestamp_val(#[trigger] subs@[j]) <= timestamp_val(
                subs@[r->0 as int],
            ),
        r is Some ==> forall|j: int|
            r->0 < j < subs@.len() ==> timestamp_val(#[trigger] subs@[j]) < timestamp_val(
                subs@[r->0 as int],
            ),
{
    if subs.len() == 0 {
        return None;
    }
    let mut best: usize = 0;
    let mut best_ts: usize = match parse_usize(subs[0].timestamp.as_str()) {
        Some(v) => v,
        None => 0,
    };
    let mut i: usize = 1;
    while i < subs.len()
        invariant
            forall|k: int| 0 <= k < subs@.len() ==> timestamp_parses(#[trigger] subs@[k]),
            0 < subs@.len(),
            0 <= best < i <= subs@.len(),
            best_ts == timestamp_val(subs@[best as int]),
            forall|j: int|
                0 <= j < i ==> timestamp_val(#[trigger] subs@[j]) <= timestamp_val(
                    subs@[best as int],
                ),
            forall|j: int|
                best < j < i ==> timestamp_val(#[trigger] subs@[j]) < timestamp_val(
                    subs@[best as int],
                ),
        decreases subs@.len() - i,
    {
        let ts = match parse_usize(subs[i].timestamp.as_str()) {
            Some(v) => v,
            None => 0,
        };
        if ts >= best_ts {
            best = i;
            best_ts = ts;
        }
        i = i + 1;
    }
    Some(best)
}

} // verus!
