use sbcli::errors::CliError;
use sbcli::meta::Meta;
use sbcli::models::{SubmissionDetail, SubmissionPost, Task};
use sbcli::submit::{apply_submission_result, latest_submission, resolve_submission_target};

fn catalog() -> Vec<Task> {
    let mut a = Task::default();
    a.taskid = 5;
    a.order_by = 1;
    a.lang = "c".to_string();
    a.task_description.shortname = "Intro".to_string();
    let mut b = Task::default();
    b.taskid = 9;
    b.order_by = 2;
    b.lang = "c".to_string();
    b.task_description.shortname = "Loops".to_string();
    vec![a, b]
}

#[test]
fn submit_path_outside_workspace_is_a_mismatch() {
    let meta = Meta::restore("/ws".to_string(), catalog(), vec![]);
    let r = resolve_submission_target(&meta, "/home/elsewhere/5.c");
    assert_eq!(r, Err(CliError::WorkspaceMismatch));
    assert_eq!(
        CliError::WorkspaceMismatch.message(),
        "The path does not belong to any known task directory."
    );
}

#[test]
fn submit_path_inside_workspace_resolves_to_its_task() {
    let meta = Meta::restore("/ws".to_string(), catalog(), vec![]);
    assert_eq!(resolve_submission_target(&meta, "/ws/0001_intro/5.c"), Ok(5));
    assert_eq!(resolve_submission_target(&meta, "/ws/0002_loops/9.c"), Ok(9));
}

#[test]
fn successful_submission_records_the_solve() {
    let mut meta = Meta::restore("/ws".to_string(), catalog(), vec![]);
    let result = SubmissionPost {
        taskid: 5,
        score: 100,
        ..Default::default()
    };
    assert!(apply_submission_result(&mut meta, 5, &result));
    assert_eq!(meta.solved_task_ids(), &vec![5]);
    assert_eq!(meta.next_task_id, 9);
}

#[test]
fn failed_submission_changes_nothing() {
    let mut meta = Meta::restore("/ws".to_string(), catalog(), vec![]);
    let result = SubmissionPost {
        taskid: 5,
        score: 60,
        ..Default::default()
    };
    assert!(!apply_submission_result(&mut meta, 5, &result));
    assert!(meta.solved_task_ids().is_empty());
    assert_eq!(meta.next_task_id, 5);
}

#[test]
fn score_boundary_sits_at_one() {
    let exact = SubmissionPost {
        score: 100,
        ..Default::default()
    };
    assert!(exact.was_successful());
    let below = SubmissionPost {
        score: 99,
        ..Default::default()
    };
    assert!(!below.was_successful());
}

fn detail(ts: &str) -> SubmissionDetail {
    SubmissionDetail {
        timestamp: ts.to_string(),
        ..Default::default()
    }
}

#[test]
fn latest_submission_picks_greatest_timestamp() {
    let subs = vec![detail("100"), detail("300"), detail("200")];
    assert_eq!(latest_submission(&subs), Some(1));
    assert_eq!(latest_submission(&vec![]), None);
}

#[test]
fn latest_submission_picks_last_among_equals() {
    let subs = vec![detail("100"), detail("300"), detail("300")];
    assert_eq!(latest_submission(&subs), Some(2));
}
