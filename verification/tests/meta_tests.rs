use sbcli::meta::{ensure_tasks_init, init_meta, start_task, update_meta_progress, Meta};
use sbcli::models::Task;

fn task(id: usize, rank: usize) -> Task {
    Task {
        taskid: id,
        order_by: rank,
        ..Default::default()
    }
}

#[test]
fn test_get_next_task() {
    let tasks = vec![
        Task {
            taskid: 1,
            order_by: 1,
            ..Default::default()
        },
        Task {
            taskid: 2,
            order_by: 2,
            ..Default::default()
        },
        Task {
            taskid: 3,
            order_by: 3,
            ..Default::default()
        },
        Task {
            taskid: 4,
            order_by: 4,
            ..Default::default()
        },
        Task {
            taskid: 5,
            order_by: 5,
            ..Default::default()
        },
        Task {
            taskid: 6,
            order_by: 6,
            ..Default::default()
        },
        Task {
            taskid: 7,
            order_by: 7,
            ..Default::default()
        },
    ];

    let mut meta = Meta::new(tasks);

    assert_eq!(meta.total_tasks, 7);
    assert!(meta.solved_task_ids().is_empty());

    meta.set_solved_tasks_ids(vec![1, 2, 3]);
    assert_eq!(meta.next_task_id, 4);

    meta.set_solved_tasks_ids(vec![1, 2, 3, 4, 6]);
    assert!(meta.next_task_id == 7 || meta.solved_tasks == 6);
}

#[test]
fn next_task_examples_ranks_one_to_seven() {
    let tasks: Vec<Task> = (1..=7).map(|i| task(i, i)).collect();
    let mut meta = Meta::restore("/ws".to_string(), tasks, vec![1, 2, 3]);
    assert_eq!(meta.next_task_id, 4);

    meta.set_solved_tasks_ids(vec![1, 2, 3, 4, 6]);
    assert_eq!(meta.next_task_id, 7);

    meta.set_solved_tasks_ids(vec![1, 2, 3, 4, 5, 6, 7]);
    assert_eq!(meta.next_task_id, 0);
}

#[test]
fn next_task_with_nothing_solved_is_lowest_rank() {
    let tasks = vec![task(10, 3), task(20, 1), task(30, 2)];
    let meta = Meta::restore("/ws".to_string(), tasks, vec![]);
    assert_eq!(meta.next_task_id, 20);
}

#[test]
fn next_task_of_empty_catalog_is_sentinel() {
    let meta = Meta::restore("/ws".to_string(), vec![], vec![]);
    assert_eq!(meta.next_task_id, 0);
}

#[test]
fn add_solved_is_idempotent() {
    let tasks: Vec<Task> = (1..=4).map(|i| task(i, i)).collect();
    let mut meta = Meta::restore("/ws".to_string(), tasks, vec![1]);
    meta.add_solved_task_id(2);
    let ids_once = meta.solved_task_ids().clone();
    let next_once = meta.next_task_id;
    let solved_once = meta.solved_tasks;

    meta.add_solved_task_id(2);
    assert_eq!(meta.solved_task_ids(), &ids_once);
    assert_eq!(meta.next_task_id, next_once);
    assert_eq!(meta.solved_tasks, solved_once);
    assert_eq!(next_once, 3);
}

#[test]
fn set_solved_updates_counters() {
    let tasks: Vec<Task> = (1..=5).map(|i| task(i, i)).collect();
    let mut meta = Meta::restore("/ws".to_string(), tasks, vec![]);
    assert_eq!(meta.solved_tasks, 0);
    update_meta_progress(&mut meta, vec![1, 2]);
    assert_eq!(meta.solved_tasks, 2);
    assert_eq!(meta.next_task_id, 3);
}

#[test]
fn init_meta_only_fills_empty_snapshot() {
    let empty = Meta::restore("/ws".to_string(), vec![], vec![]);
    let built = init_meta(&empty, vec![task(1, 1)]);
    assert!(built.is_some());
    assert_eq!(built.unwrap().total_tasks, 1);

    let full = Meta::restore("/ws".to_string(), vec![task(1, 1)], vec![]);
    assert!(init_meta(&full, vec![task(2, 2)]).is_none());
}

#[test]
fn ensure_tasks_init_requires_a_catalog() {
    let empty = Meta::restore("/ws".to_string(), vec![], vec![]);
    assert!(!ensure_tasks_init(&empty));
    let full = Meta::restore("/ws".to_string(), vec![task(1, 1)], vec![]);
    assert!(ensure_tasks_init(&full));
}

#[test]
fn get_task_path_finds_known_ids_only() {
    let mut t = task(5, 1);
    t.task_description.shortname = "Intro".to_string();
    t.lang = "c".to_string();
    let meta = Meta::restore("/ws".to_string(), vec![t], vec![]);
    assert_eq!(meta.get_task_path(5), Some("/ws/0001_intro".to_string()));
    assert_eq!(meta.get_task_path(6), None);
}

#[test]
fn start_task_uses_next_task_when_no_id_given() {
    let mut a = task(5, 1);
    a.task_description.shortname = "Intro".to_string();
    let mut b = task(9, 2);
    b.task_description.shortname = "Loops".to_string();
    let meta = Meta::restore("/ws".to_string(), vec![a, b], vec![]);
    assert_eq!(meta.next_task_id, 5);
    assert_eq!(start_task(&meta, None), Some("/ws/0001_intro".to_string()));
    assert_eq!(start_task(&meta, Some(9)), Some("/ws/0002_loops".to_string()));
    assert_eq!(start_task(&meta, Some(999)), None);
}

#[test]
fn workspace_reverse_lookup() {
    let mut a = task(5, 1);
    a.task_description.shortname = "Intro".to_string();
    a.lang = "c".to_string();
    let meta = Meta::restore("/ws".to_string(), vec![a], vec![]);
    assert_eq!(
        meta.get_task_id_from_workspace("/ws/0001_intro/5.c"),
        Some(5)
    );
    assert_eq!(
        meta.find_workspace_directory("/ws/0001_intro/5.c"),
        Some("/ws/0001_intro".to_string())
    );
    assert_eq!(meta.get_task_id_from_workspace("/elsewhere/5.c"), None);
    assert_eq!(meta.find_workspace_directory("/ws/0001_intro_more/5.c"), None);
}
