use sbcli::models::Task;
use sbcli::workspace::{join_path_str, make_task_path, str_is_under};

fn sample_task() -> Task {
    let mut t = Task::default();
    t.taskid = 42;
    t.order_by = 7;
    t.lang = "c".to_string();
    t.task_description.shortname = "Hello World".to_string();
    t
}

#[test]
fn mapping_is_deterministic() {
    let t = sample_task();
    let first = make_task_path(&t, "/ws");
    let second = make_task_path(&t, "/ws");
    assert_eq!(first, second);
}

#[test]
fn mapping_slugs_and_pads() {
    let t = sample_task();
    let (dir, file) = make_task_path(&t, "/ws");
    assert_eq!(dir, "/ws/0007_hello_world");
    assert_eq!(file, "/ws/0007_hello_world/42.c");
}

#[test]
fn mapping_accepts_empty_shortname() {
    let mut t = sample_task();
    t.task_description.shortname = String::new();
    let (dir, _) = make_task_path(&t, "/ws");
    assert_eq!(dir, "/ws/0007_");
}

#[test]
fn distinct_ranks_map_to_distinct_directories() {
    let mut a = sample_task();
    let mut b = sample_task();
    b.taskid = 43;
    b.order_by = 8;
    let (dir_a, _) = make_task_path(&a, "/ws");
    let (dir_b, _) = make_task_path(&b, "/ws");
    assert_ne!(dir_a, dir_b);

    // Ranks of different digit widths cannot collide either.
    a.order_by = 1000;
    b.order_by = 10000;
    b.task_description.shortname = "abc".to_string();
    a.task_description.shortname = "0abc".to_string();
    let (dir_a, _) = make_task_path(&a, "/ws");
    let (dir_b, _) = make_task_path(&b, "/ws");
    assert_ne!(dir_a, dir_b);
}

#[test]
fn join_path_inserts_one_slash() {
    assert_eq!(join_path_str("a", "b"), "a/b");
    assert_eq!(join_path_str("", "b"), "/b");
}

#[test]
fn path_containment() {
    assert!(str_is_under("/ws/0001_intro/5.c", "/ws/0001_intro"));
    assert!(str_is_under("/ws/0001_intro", "/ws/0001_intro"));
    assert!(!str_is_under("/ws/0001_introx/5.c", "/ws/0001_intro"));
    assert!(!str_is_under("/ws/0001_intr", "/ws/0001_intro"));
    assert!(!str_is_under("/other", "/ws"));
}
