use rusty::cli::{exits_after_reset, normalize_argv, reset_requested, Command};

fn args(a: &[&str]) -> Vec<String> {
    a.iter().map(|s| s.to_string()).collect()
}

#[test]
fn single_dash_reset_becomes_double_dash() {
    assert_eq!(normalize_argv(args(&["rusty", "-reset", "add", "x"])), args(&["rusty", "--reset", "add", "x"]));
}

#[test]
fn program_name_and_other_arguments_are_kept() {
    assert_eq!(normalize_argv(args(&["-reset", "-r", "--reset", "-resets"])), args(&["-reset", "-r", "--reset", "-resets"]));
    assert!(normalize_argv(Vec::new()).is_empty());
}

#[test]
fn normalizing_twice_is_normalizing_once() {
    let once = normalize_argv(args(&["rusty", "-reset", "add", "-reset"]));
    assert_eq!(normalize_argv(once.clone()), once);
}

#[test]
fn reset_flag_or_subcommand_requests_a_reset() {
    assert!(reset_requested(true, &None));
    assert!(reset_requested(false, &Some(Command::Reset)));
    assert!(!reset_requested(false, &Some(Command::Add("x".to_string()))));
    assert!(!reset_requested(false, &None));
}

#[test]
fn add_and_delete_go_on_after_a_reset() {
    assert!(exits_after_reset(false, &Some(Command::Reset)));
    assert!(exits_after_reset(true, &None));
    assert!(!exits_after_reset(false, &None));
    assert!(!exits_after_reset(true, &Some(Command::Add("x".to_string()))));
    assert!(!exits_after_reset(true, &Some(Command::Delete(3))));
}
