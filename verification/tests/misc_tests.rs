use sbcli::config::Config;
use sbcli::digits::{parse_usize, rank_string, usize_to_string};
use sbcli::listing::{list_tasks, solved_percent};
use sbcli::meta::Meta;
use sbcli::models::{Compiler, SubmissionGet, Task};

#[test]
fn rank_prefix_is_zero_padded_to_four() {
    assert_eq!(rank_string(0), "0000");
    assert_eq!(rank_string(7), "0007");
    assert_eq!(rank_string(42), "0042");
    assert_eq!(rank_string(999), "0999");
    assert_eq!(rank_string(1000), "1000");
    assert_eq!(rank_string(12345), "12345");
}

#[test]
fn decimal_rendering() {
    assert_eq!(usize_to_string(0), "0");
    assert_eq!(usize_to_string(90210), "90210");
}

#[test]
fn decimal_parsing() {
    assert_eq!(parse_usize("0"), Some(0));
    assert_eq!(parse_usize("00123"), Some(123));
    assert_eq!(parse_usize(""), None);
    assert_eq!(parse_usize("12a"), None);
    assert_eq!(parse_usize("-5"), None);
    assert_eq!(parse_usize("999999999999999999999999999999"), None);
}

#[test]
fn token_validity_window() {
    let mut cfg = Config::default();
    assert!(!cfg.token_valid_at_time(1_000_000));
    cfg.last_login_time = Some(1_000_000);
    assert!(cfg.token_valid_at_time(1_000_000));
    assert!(cfg.token_valid_at_time(1_000_000 + 43_199));
    assert!(!cfg.token_valid_at_time(1_000_000 + 43_200));
    assert!(!cfg.token_valid_at_time(999_999));
}

#[test]
fn configuration_check_needs_all_three_fields() {
    let mut cfg = Config::default();
    assert!(!sbcli::config::is_configured(&cfg));
    cfg.user = "alice".to_string();
    cfg.course = "ckurs".to_string();
    assert!(!sbcli::config::is_configured(&cfg));
    cfg.host = "https://example.test".to_string();
    assert!(sbcli::config::is_configured(&cfg));
}

#[test]
fn solved_share_rounds_half_up() {
    assert_eq!(solved_percent(1, 3), 33);
    assert_eq!(solved_percent(1, 2), 50);
    assert_eq!(solved_percent(5, 7), 71);
    assert_eq!(solved_percent(7, 7), 100);
    assert_eq!(solved_percent(0, 7), 0);
    assert_eq!(solved_percent(1, 8), 13);
}

fn task(id: usize, rank: usize) -> Task {
    Task {
        taskid: id,
        order_by: rank,
        ..Default::default()
    }
}

#[test]
fn task_list_is_rank_ordered_with_solved_flags() {
    let tasks = vec![task(10, 3), task(20, 1), task(30, 2)];
    let meta = Meta::restore("/ws".to_string(), tasks, vec![30]);
    let listed = list_tasks(&meta);
    let ids: Vec<usize> = listed
        .iter()
        .map(|&(i, _)| meta.tasks()[i].taskid)
        .collect();
    assert_eq!(ids, vec![20, 30, 10]);
    let flags: Vec<bool> = listed.iter().map(|&(_, s)| s).collect();
    assert_eq!(flags, vec![false, true, false]);
}

#[test]
fn submission_accessors_expose_the_compiler_output() {
    let mut sub = SubmissionGet::default();
    sub.simplified.compiler = Compiler {
        stdout: "warning: unused".to_string(),
        exit_code: 0,
    };
    sub.score = 100;
    assert!(sub.was_successful());
    assert_eq!(sub.compiler_msg().stdout, "warning: unused");
    assert_eq!(sub.simplified().compiler.exit_code, 0);
    assert_eq!(sub.compiler_msg().message(), "warning: unused");
}
