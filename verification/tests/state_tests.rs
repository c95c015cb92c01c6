use rusty::clock::today_string;
use rusty::state::{AppState, CliError, LineOutcome, SessionStart, Task};

fn task(id: u64, title: &str, done: bool, prioritized: bool) -> Task {
    Task { id, title: title.to_string(), done, prioritized }
}

fn state(date: &str, tasks: Vec<Task>) -> AppState {
    AppState { date: date.to_string(), tasks }
}

fn ids(s: &AppState) -> Vec<u64> {
    s.tasks.iter().map(|t| t.id).collect()
}

fn titles(s: &AppState) -> Vec<String> {
    s.tasks.iter().map(|t| t.title.clone()).collect()
}

#[test]
fn today_string_has_date_shape() {
    let d = today_string().unwrap();
    let chars: Vec<char> = d.chars().collect();
    let n = chars.len();
    assert!(n >= 10);
    assert_eq!(chars[n - 3], '-');
    assert_eq!(chars[n - 6], '-');
    assert!(chars[n - 1].is_ascii_digit() && chars[n - 2].is_ascii_digit());
    assert!(chars[n - 4].is_ascii_digit() && chars[n - 5].is_ascii_digit());
    let month: u32 = d[n - 5..n - 3].parse().unwrap();
    let day: u32 = d[n - 2..].parse().unwrap();
    assert!((1..=12).contains(&month));
    assert!((1..=31).contains(&day));
}

#[test]
fn empty_today_is_empty_and_dated_today() {
    let s = AppState::empty_today().unwrap();
    assert!(s.tasks.is_empty());
    assert_eq!(s.date.len(), 10);
}

#[test]
fn empty_for_keeps_the_date() {
    let s = AppState::empty_for("2024-05-01".to_string());
    assert_eq!(s.date, "2024-05-01");
    assert!(s.tasks.is_empty());
}

#[test]
fn renumber_ids_follows_list_order() {
    let mut s = state("2024-05-01", vec![task(7, "a", true, false), task(3, "b", false, true), task(7, "c", false, false)]);
    s.renumber_ids();
    assert_eq!(ids(&s), vec![1, 2, 3]);
    assert_eq!(titles(&s), vec!["a", "b", "c"]);
    assert!(s.tasks[0].done && s.tasks[1].prioritized);
}

#[test]
fn renumber_ids_twice_is_once() {
    let mut s = state("d", vec![task(9, "a", false, false), task(2, "b", false, false)]);
    s.renumber_ids();
    let once = ids(&s);
    s.renumber_ids();
    assert_eq!(ids(&s), once);
}

#[test]
fn next_id_is_one_past_the_greatest() {
    let s = state("d", vec![task(4, "a", false, false), task(9, "b", false, false), task(2, "c", false, false)]);
    assert_eq!(s.max_id(), 9);
    assert_eq!(s.next_id(), 10);
    assert_eq!(AppState::empty_for("d".to_string()).next_id(), 1);
}

#[test]
fn next_id_after_renumber_is_row_count_plus_one() {
    let mut s = state("d", vec![task(40, "a", false, false), task(2, "b", false, false)]);
    s.renumber_ids();
    assert_eq!(s.next_id(), 3);
}

#[test]
fn next_id_is_fresh() {
    let s = state("d", vec![task(4, "a", false, false), task(9, "b", false, false)]);
    let id = s.next_id();
    assert!(s.tasks.iter().all(|t| t.id != id));
}

#[test]
fn session_start_without_file_is_fresh_and_saved() {
    let (start, save) = AppState::read_session_start(None, "2024-05-02".to_string());
    assert!(save);
    match start {
        SessionStart::Fresh(s) => {
            assert_eq!(s.date, "2024-05-02");
            assert!(s.tasks.is_empty());
        }
        _ => panic!("expected a fresh start"),
    }
}

#[test]
fn session_start_of_an_earlier_day_needs_rollover_and_is_not_saved() {
    let old = state("2024-05-01", vec![task(5, "a", false, false)]);
    let (start, save) = AppState::read_session_start(Some(old), "2024-05-02".to_string());
    assert!(!save);
    match start {
        SessionStart::NeedsRollover(s) => {
            assert_eq!(s.date, "2024-05-01");
            assert_eq!(ids(&s), vec![5]);
        }
        _ => panic!("expected a rollover"),
    }
}

#[test]
fn session_start_of_today_is_renumbered_and_saved() {
    let cur = state("2024-05-02", vec![task(5, "a", false, false), task(1, "b", true, false)]);
    let (start, save) = AppState::read_session_start(Some(cur), "2024-05-02".to_string());
    assert!(save);
    match start {
        SessionStart::Today(s) => {
            assert_eq!(ids(&s), vec![1, 2]);
            assert_eq!(titles(&s), vec!["a", "b"]);
        }
        _ => panic!("expected today's list"),
    }
}

#[test]
fn load_for_cli_starts_fresh_on_a_new_day() {
    let old = state("2024-05-01", vec![task(1, "a", false, false)]);
    let s = AppState::load_for_cli(Some(old), "2024-05-02".to_string());
    assert_eq!(s.date, "2024-05-02");
    assert!(s.tasks.is_empty());
}

#[test]
fn load_for_cli_keeps_and_renumbers_today() {
    let cur = state("2024-05-02", vec![task(8, "a", false, false), task(8, "b", false, false)]);
    let s = AppState::load_for_cli(Some(cur), "2024-05-02".to_string());
    assert_eq!(ids(&s), vec![1, 2]);
    let none = AppState::load_for_cli(None, "2024-05-02".to_string());
    assert_eq!(none.date, "2024-05-02");
    assert!(none.tasks.is_empty());
}

#[test]
fn read_mimic_leaves_the_state_as_saved() {
    let old = state("2024-05-01", vec![task(8, "a", false, false)]);
    let s = AppState::read_mimic(Some(old), "2024-05-02".to_string());
    assert_eq!(s.date, "2024-05-01");
    assert_eq!(ids(&s), vec![8]);
    let none = AppState::read_mimic(None, "2024-05-02".to_string());
    assert_eq!(none.date, "2024-05-02");
    assert!(none.tasks.is_empty());
}

#[test]
fn persist_to_disk_skips_previews() {
    let s = AppState::empty_for("d".to_string());
    assert!(s.persist_to_disk(false));
    assert!(!s.persist_to_disk(true));
}

#[test]
fn add_task_appends_trimmed_under_next_id() {
    let mut s = state("d", vec![task(1, "a", false, false), task(2, "b", true, false)]);
    assert_eq!(s.add_task("  buy milk \t"), Ok(3));
    assert_eq!(ids(&s), vec![1, 2, 3]);
    assert_eq!(s.tasks[2].title, "buy milk");
    assert!(!s.tasks[2].done && !s.tasks[2].prioritized);
}

#[test]
fn add_task_refuses_a_blank_title() {
    let mut s = state("d", vec![task(1, "a", false, false)]);
    assert_eq!(s.add_task(" \u{3000}\n "), Err(CliError::EmptyTitle));
    assert_eq!(ids(&s), vec![1]);
}

#[test]
fn delete_task_removes_the_id() {
    let mut s = state("d", vec![task(1, "a", false, false), task(2, "b", false, false), task(3, "c", false, false)]);
    assert_eq!(s.delete_task(2), Ok(()));
    assert_eq!(ids(&s), vec![1, 3]);
    assert_eq!(titles(&s), vec!["a", "c"]);
}

#[test]
fn delete_task_removes_every_task_with_the_id() {
    let mut s = state("d", vec![task(4, "a", false, false), task(2, "b", false, false), task(4, "c", false, false)]);
    assert_eq!(s.delete_task(4), Ok(()));
    assert_eq!(titles(&s), vec!["b"]);
}

#[test]
fn delete_task_refuses_an_unknown_id() {
    let mut s = state("d", vec![task(1, "a", false, false)]);
    assert_eq!(s.delete_task(9), Err(CliError::NoSuchTask(9)));
    assert_eq!(ids(&s), vec![1]);
}

#[test]
fn delete_undoes_add() {
    let mut s = state("d", vec![task(1, "a", false, false), task(5, "b", true, true)]);
    let id = s.add_task("c").unwrap();
    assert_eq!(s.delete_task(id), Ok(()));
    assert_eq!(ids(&s), vec![1, 5]);
    assert_eq!(titles(&s), vec!["a", "b"]);
    assert!(s.tasks[1].done && s.tasks[1].prioritized);
}

#[test]
fn take_task_line_skips_blank_lines() {
    let mut s = AppState::empty_for("d".to_string());
    assert_eq!(s.take_task_line("   \n"), LineOutcome::Blank);
    assert!(s.tasks.is_empty());
}

#[test]
fn take_task_line_stops_on_done_or_finish_in_any_case() {
    let mut s = AppState::empty_for("d".to_string());
    assert_eq!(s.take_task_line("done\n"), LineOutcome::Finished);
    assert_eq!(s.take_task_line("  DoNe "), LineOutcome::Finished);
    assert_eq!(s.take_task_line("FINISH"), LineOutcome::Finished);
    assert!(s.tasks.is_empty());
}

#[test]
fn take_task_line_adds_other_lines() {
    let mut s = AppState::empty_for("d".to_string());
    assert_eq!(s.take_task_line("  write report\n"), LineOutcome::Added(1));
    assert_eq!(s.take_task_line("done it"), LineOutcome::Added(2));
    assert_eq!(titles(&s), vec!["write report", "done it"]);
}

#[test]
fn insert_task_places_and_renumbers() {
    let mut s = state("d", vec![task(1, "a", false, false), task(2, "b", false, false)]);
    s.insert_task(1, "x".to_string());
    assert_eq!(titles(&s), vec!["a", "x", "b"]);
    assert_eq!(ids(&s), vec![1, 2, 3]);
}

#[test]
fn remove_task_renumbers() {
    let mut s = state("d", vec![task(1, "a", false, false), task(2, "b", false, false), task(3, "c", false, false)]);
    s.remove_task(0);
    assert_eq!(titles(&s), vec!["b", "c"]);
    assert_eq!(ids(&s), vec![1, 2]);
}

#[test]
fn pin_task_moves_to_top_as_only_pinned() {
    let mut s = state("d", vec![task(1, "a", false, true), task(2, "b", true, false), task(3, "c", false, false)]);
    s.pin_task(2);
    assert_eq!(titles(&s), vec!["c", "a", "b"]);
    assert_eq!(ids(&s), vec![1, 2, 3]);
    let pins: Vec<bool> = s.tasks.iter().map(|t| t.prioritized).collect();
    assert_eq!(pins, vec![true, false, false]);
    assert!(s.tasks[2].done);
}

#[test]
fn pin_task_of_the_first_row_keeps_order() {
    let mut s = state("d", vec![task(1, "a", false, false), task(2, "b", false, true)]);
    s.pin_task(0);
    assert_eq!(titles(&s), vec!["a", "b"]);
    assert!(s.tasks[0].prioritized && !s.tasks[1].prioritized);
}

#[test]
fn toggle_twice_gives_back_the_task() {
    let mut s = state("d", vec![task(1, "a", false, false)]);
    s.toggle_done(0);
    assert!(s.tasks[0].done);
    s.toggle_done(0);
    assert!(!s.tasks[0].done);
}

#[test]
fn after_rollover_renumbers_the_carried_tasks_under_today() {
    let carried = vec![task(0, "b", false, false), task(0, "c", false, false)];
    let s = AppState::after_rollover("2024-05-02".to_string(), carried);
    assert_eq!(s.date, "2024-05-02");
    assert_eq!(ids(&s), vec![1, 2]);
    assert_eq!(titles(&s), vec!["b", "c"]);
    let none = AppState::after_rollover("2024-05-02".to_string(), Vec::new());
    assert!(none.tasks.is_empty());
}
