use sbcli::models::{SubmissionDetail, Task};
use sbcli::sync::{
    archive_submission_plan, plan_task_sync, submissions_dir_path, write_task_files_plan,
    SyncReport,
};

fn task_with_content(content: &str) -> Task {
    let mut t = Task::default();
    t.taskid = 3;
    t.order_by = 2;
    t.lang = "c".to_string();
    t.task_description.shortname = "Sums".to_string();
    t.task_description.task = "Add two numbers.".to_string();
    t.task_description.default_editor_input = content.to_string();
    t
}

const PLACEHOLDER: &str = "// Write your code here, and submit your solution once you're done!\n// Read the README for instructions\n";

#[test]
fn unforced_sync_never_touches_existing_exercise_file() {
    let t = task_with_content("int main() {}\n");
    assert!(write_task_files_plan(&t, false, true).is_none());
    // A second unforced pass sees the file existing again: still no write.
    assert!(write_task_files_plan(&t, false, true).is_none());
}

#[test]
fn forced_sync_always_writes_server_default() {
    let t = task_with_content("int main() {}\n");
    let (content, readme) = write_task_files_plan(&t, true, true).unwrap();
    assert_eq!(content, "int main() {}\n");
    assert_eq!(readme, "Add two numbers.");
    let (content, _) = write_task_files_plan(&t, true, false).unwrap();
    assert_eq!(content, "int main() {}\n");
}

#[test]
fn missing_exercise_file_is_written() {
    let t = task_with_content("int main() {}\n");
    let (content, _) = write_task_files_plan(&t, false, false).unwrap();
    assert_eq!(content, "int main() {}\n");
}

#[test]
fn empty_server_content_becomes_placeholder() {
    let t = task_with_content("");
    let (content, _) = write_task_files_plan(&t, true, true).unwrap();
    assert_eq!(content, PLACEHOLDER);
}

#[test]
fn excluded_submissions_are_never_fetched() {
    let t = task_with_content("x");
    let plan = plan_task_sync(&t, false, false, false, false);
    assert!(!plan.fetch_submissions);
    assert!(plan.create_dir);
    let plan = plan_task_sync(&t, true, false, true, true);
    assert!(!plan.fetch_submissions);
    assert!(!plan.create_dir);
}

#[test]
fn included_submissions_are_fetched() {
    let t = task_with_content("x");
    let plan = plan_task_sync(&t, false, true, true, true);
    assert!(plan.fetch_submissions);
}

#[test]
fn submissions_directory_name() {
    assert_eq!(submissions_dir_path("/ws/0002_sums"), "/ws/0002_sums/submissions");
}

#[test]
fn archive_names_and_write_once() {
    let sub = SubmissionDetail {
        timestamp: "1700000000".to_string(),
        result_type: "WRONG_ANSWER".to_string(),
        content: "int main() { return 1; }".to_string(),
        metadata: "{}".to_string(),
        ..Default::default()
    };
    let w = archive_submission_plan(&sub, "c", false).unwrap();
    assert_eq!(w.file_name, "1700000000-WRONG_ANSWER.c");
    assert_eq!(w.metadata_name, "1700000000-WRONG_ANSWER.c.metadata.json");
    assert_eq!(w.content, "int main() { return 1; }");
    assert_eq!(w.metadata, "{}");

    assert!(archive_submission_plan(&sub, "c", true).is_none());
}

#[test]
fn sync_report_majority_rule() {
    let mut report = SyncReport::new();
    report.record_synced();
    report.record_synced();
    report.record_failed(7);
    assert_eq!(report.total, 3);
    assert_eq!(report.synced, 2);
    assert_eq!(report.failed_ids, vec![7]);
    assert!(report.is_success());

    let mut report = SyncReport::new();
    report.record_synced();
    report.record_failed(1);
    report.record_failed(2);
    assert!(!report.is_success());

    let report = SyncReport::new();
    assert!(report.is_success());
}
