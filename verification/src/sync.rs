use vstd::prelude::*;
use crate::models::{SubmissionDetail, Task};
use crate::workspace::join_path;
use crate::workspace::join_path_str;

verus! {

/// The starter text written into an exercise file when the server supplies
/// no default content.
pub open spec fn placeholder_text() -> Seq<char> {
    "// Write your code here, and submit your solution once you're done!\n// Read the README for instructions\n"@
}

/// What a (re)written exercise file must hold: the server's current default
/// content, or the fixed placeholder when that is empty.
pub open spec fn exercise_body_of(task: Task) -> Seq<char> {
    if task.task_description.default_editor_input@.len() == 0 {
        placeholder_text()
    } else {
        task.task_description.default_editor_input@
    }
}

/// The planned work for one task in a sync pass: whether its directory must
/// be created, what to write into its exercise file and README, and whether
/// its submissions are to be fetched and archived.
pub struct TaskSyncPlan {
    pub create_dir: bool,
    pub files: Option<(String, String)>,
    pub fetch_submissions: bool,
}

/// Decides the write of one task's exercise file and README.
///
/// Files are written only when `force` is set or the exercise file does not
/// yet exist, so an unforced sync never alters an existing exercise file,
/// while a forced one always rewrites it with the server's current default
/// content. The README always carries the task's description text.
pub fn write_task_files_plan(task: &Task, force: bool, file_exists: bool) -> (r: Option<
    (String, String),
>)
    ensures
        r is Some <==> (force || !file_exists),
        !force && file_exists ==> r is None,
        r is Some ==> (r->0).0@ == exercise_body_of(*task),
        r is Some ==> (r->0).1@ == task.task_description.task@,
{
    if force || !file_exists {
        let content = if task.task_description.default_editor_input.as_str().is_empty() {
            String::from_str(
                "// Write your code here, and submit your solution once you're done!\n// Read the README for instructions\n",
            )
        } else {
            task.task_description.default_editor_input.clone()
        };
        Some((content, task.task_description.task.clone()))
    } else {
        None
    }
}

/// Plans one task's share of a sync pass from what is observed on disk.
///
/// The workspace directory is created exactly when it is missing; the files
/// are written as [`write_task_files_plan`] decides; submissions are
/// fetched — and a submissions directory possibly created — exactly when
/// the pass asks for them, so a pass without submissions never creates a
/// submissions directory.
pub fn plan_task_sync(
    task: &Task,
    force: bool,
    include_submissions: bool,
    dir_exists: bool,
    file_exists: bool,
) -> (r: TaskSyncPlan)
    ensures
        r.create_dir == !dir_exists,
        r.files is Some <==> (force || !file_exists),
        !force && file_exists ==> r.files is None,
        r.files is Some ==> (r.files->0).0@ == exercise_body_of(*task),
        r.files is Some ==> (r.files->0).1@ == task.task_description.task@,
        r.fetch_submissions == include_submissions,
{
    TaskSyncPlan {
        create_dir: !dir_exists,
        files: write_task_files_plan(task, force, file_exists),
        fetch_submissions: include_submissions,
    }
}

/// The path of one task directory's submissions subdirectory.
pub fn submissions_dir_path(task_dir: &str) -> (r: String)
    ensures
        r@ == join_path(task_dir@, "submissions"@),
{
    join_path_str(task_dir, "submissions")
}

/// The archive file name of one submission: timestamp, result kind and the
/// task's language.
pub open spec fn archive_name_of(sub: SubmissionDetail, lang: Seq<char>) -> Seq<char> {
    sub.timestamp@ + seq!['-'] + sub.result_type@ + seq!['.'] + lang
}

/// The name of the metadata sidecar beside one archived submission.
pub open spec fn metadata_name_of(sub: SubmissionDetail, lang: Seq<char>) -> Seq<char> {
    archive_name_of(sub, lang) + ".metadata.json"@
}

/// One planned archive write: the submission's content file and its
/// metadata sidecar, both named relative to the submissions directory.
pub struct ArchiveWrite {
    pub file_name: String,
    pub content: String,
    pub metadata_name: String,
    pub metadata: String,
}

/// Decides the archival of one fetched submission.
///
/// Archives are write-once: an archive that already exists on disk is never
/// written again; a missing one gets its content file and metadata sidecar,
/// named by timestamp and result kind.
pub fn archive_submission_plan(sub: &SubmissionDetail, lang: &str, already_archived: bool) -> (r:
    Option<ArchiveWrite>)
    ensures
        r is Some <==> !already_archived,
        r is Some ==> (r->0).file_name@ == archive_name_of(*sub, lang@),
        r is Some ==> (r->0).content@ == sub.content@,
        r is Some ==> (r->0).metadata_name@ == metadata_name_of(*sub, lang@),
        r is Some ==> (r->0).metadata@ == sub.metadata@,
{
    if already_archived {
        return None;
    }
    let mut file_name = sub.timestamp.clone();
    file_name.append("-");
    file_name.append(sub.result_type.as_str());
    file_name.append(".");
    file_name.append(lang);
    proof {
        reveal_strlit("-");
        reveal_strlit(".");
        assert("-"@ =~= seq!['-']);
        assert("."@ =~= seq!['.']);
        assert(file_name@ =~= archive_name_of(*sub, lang@));
    }
    let mut metadata_name = file_name.clone();
    metadata_name.append(".metadata.json");
    Some(
        ArchiveWrite {
            file_name,
            content: sub.content.clone(),
            metadata_name,
            metadata: sub.metadata.clone(),
        },
    )
}

/// The outcome of one sync pass: how many tasks were attempted, how many
/// synced, and the ids of those that failed. Per-task failures are
/// collected here instead of aborting the pass.
pub struct SyncReport {
    pub total: usize,
    pub synced: usize,
    pub failed_ids: Vec<usize>,
}

impl SyncReport {
    /// A consistent report: every attempted task is counted exactly once,
    /// as synced or as failed.
    pub open spec fn wf(self) -> bool {
        self.synced + self.failed_ids@.len() == self.total
    }

    /// An empty report, before any task was attempted.
    pub fn new() -> (r: SyncReport)
        ensures
            r.wf(),
            r.total == 0,
            r.synced == 0,
            r.failed_ids@ == Seq::<usize>::empty(),
    {
        SyncReport { total: 0, synced: 0, failed_ids: Vec::new() }
    }

    /// Records one task that synced.
    pub fn record_synced(&mut self)
        requires
            old(self).wf(),
            old(self).total < usize::MAX,
        ensures
            final(self).wf(),
            final(self).total == old(self).total + 1,
            final(self).synced == old(self).synced + 1,
            final(self).failed_ids@ == old(self).failed_ids@,
    {
        self.total = self.total + 1;
        self.synced = self.synced + 1;
    }

    /// Records one task that failed; its id joins the report.
    pub fn record_failed(&mut self, task_id: usize)
        requires
            old(self).wf(),
            old(self).total < usize::MAX,
        ensures
            final(self).wf(),
            final(self).total == old(self).total + 1,
            final(self).synced == old(self).synced,
            final(self).failed_ids@ == old(self).failed_ids@.push(task_id),
    {
        self.total = self.total + 1;
        self.failed_ids.push(task_id);
    }

    /// Whether the pass succeeded as a whole: it did when at least a
    /// majority of the attempted tasks synced.
    pub fn is_success(&self) -> (r: bool)
        requires
            self.wf(),
        ensures
            r == (2 * self.synced >= self.total),
    {
        self.synced >= self.total - self.synced
    }
}

} // verus!
