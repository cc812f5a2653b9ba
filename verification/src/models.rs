use vstd::prelude::*;

verus! {

/// One remote exercise, as delivered by the task catalog endpoint.
///
/// `taskid` is unique and stable across fetches; `order_by` is the
/// server-supplied rank that drives ordering and next-task selection.
#[derive(Clone, Debug, Default, PartialEq, Eq)]
pub struct Task {
    pub taskid: usize,
    pub task_description: TaskDescription,
    pub lang: String,
    pub tags: Vec<Tag>,
    pub order_by: usize,
    pub prerequisites: Vec<String>,
    pub unlockable_assets: Option<Vec<String>>,
}

/// The long-form description of one task.
#[derive(Clone, Debug, Default, PartialEq, Eq)]
pub struct TaskDescription {
    pub task: String,
    pub title: String,
    pub shortname: String,
    pub default_editor_input: String,
}

/// A label attached to a task, optionally worth points.
#[derive(Clone, Debug, Default, PartialEq, Eq)]
pub struct Tag {
    pub name: String,
    pub points: Option<usize>,
}

/// Compiler output attached to a graded submission.
#[derive(Clone, Debug, Default, PartialEq, Eq)]
pub struct Compiler {
    pub stdout: String,
    pub exit_code: isize,
}

impl Compiler {
    /// The compiler output as text.
    pub fn message(&self) -> (r: String)
        ensures
            r@ == self.stdout@,
    {
        self.stdout.clone()
    }
}

/// The normalized wrapper around compiler output in a grading result.
#[derive(Clone, Debug, Default, PartialEq, Eq)]
pub struct Simplified {
    pub compiler: Compiler,
}

/// A score counts as a full solve from one hundred hundredths upward.
///
/// Scores are carried as hundredths of the server's unit score, so the
/// boundary sits exactly at a score of one.
pub open spec fn score_is_success(score: u32) -> bool {
    score >= 100
}

/// The grading result returned right after posting a submission.
///
/// `score` is the server's score in hundredths of its unit value.
#[derive(Clone, Debug, Default, PartialEq, Eq)]
pub struct SubmissionPost {
    pub user: String,
    pub course: String,
    pub taskid: usize,
    pub content: String,
    pub result_type: String,
    pub simplified: Simplified,
    pub score: u32,
}

impl SubmissionPost {
    /// True exactly when the score counts as a full solve.
    pub fn was_successful(&self) -> (r: bool)
        ensures
            r == score_is_success(self.score),
    {
        self.score >= 100
    }
}

/// One entry of a task's submission list.
///
/// `score` is carried in hundredths, as in [`SubmissionPost`].
#[derive(Clone, Debug, Default, PartialEq, Eq)]
pub struct SubmissionGet {
    pub id: usize,
    pub course: String,
    pub taskid: usize,
    pub timestamp: usize,
    pub content: String,
    pub result_type: String,
    pub simplified: Simplified,
    pub score: u32,
}

impl SubmissionGet {
    /// True exactly when the score counts as a full solve.
    pub fn was_successful(&self) -> (r: bool)
        ensures
            r == score_is_success(self.score),
    {
        self.score >= 100
    }

    /// The normalized grading detail of this submission.
    pub fn simplified(&self) -> (r: Simplified)
        ensures
            r == self.simplified,
    {
        Simplified { compiler: self.compiler_msg() }
    }

    /// The compiler output of this submission.
    pub fn compiler_msg(&self) -> (r: Compiler)
        ensures
            r == self.simplified.compiler,
    {
        Compiler {
            stdout: self.simplified.compiler.stdout.clone(),
            exit_code: self.simplified.compiler.exit_code,
        }
    }
}

/// One fully fetched submission, normalized at the network boundary into
/// plain fields before it reaches the core.
///
/// `timestamp` keeps the server's textual form (it names the archive file);
/// `metadata` is the full record, serialized, for the archive sidecar. The
/// three trailing fields carry the test-case detail shown after a failed
/// submission, empty when the server sent none.
#[derive(Clone, Debug, Default, PartialEq, Eq)]
pub struct SubmissionDetail {
    pub timestamp: String,
    pub result_type: String,
    pub content: String,
    pub metadata: String,
    pub test_message: String,
    pub expected_stdout: String,
    pub actual_stdout: String,
}

} // verus!
