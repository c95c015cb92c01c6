use rusty::ui::{done_mark, header_tag, list_title};
use rusty::state::{AppState, Task};
use rusty::ui::{footer_height, task_row_look, Key, RowLook, UiAction, UiMode, UiState};

fn task(id: u64, title: &str) -> Task {
    Task { id, title: title.to_string(), done: false, prioritized: false }
}

fn three() -> AppState {
    AppState { date: "d".to_string(), tasks: vec![task(1, "a"), task(2, "b"), task(3, "c")] }
}

fn titles(s: &AppState) -> Vec<String> {
    s.tasks.iter().map(|t| t.title.clone()).collect()
}

fn press(ui: &mut UiState, s: &mut AppState, keys: &[Key]) -> Vec<UiAction> {
    keys.iter().map(|k| ui.handle_key(s, *k)).collect()
}

#[test]
fn opens_on_the_first_row() {
    let s = three();
    let ui = UiState::new(&s);
    assert_eq!(ui.selected, Some(0));
    assert!(matches!(ui.mode, UiMode::List));
    let empty = AppState::empty_for("d".to_string());
    assert_eq!(UiState::new(&empty).selected, None);
}

#[test]
fn moving_stays_on_the_list() {
    let mut s = three();
    let mut ui = UiState::new(&s);
    press(&mut ui, &mut s, &[Key::Down, Key::Char('j'), Key::Down, Key::Down]);
    assert_eq!(ui.selected, Some(2));
    press(&mut ui, &mut s, &[Key::Up, Key::Char('k'), Key::Up]);
    assert_eq!(ui.selected, Some(0));
}

#[test]
fn add_types_a_task_after_the_selection() {
    let mut s = three();
    let mut ui = UiState::new(&s);
    let acts = press(&mut ui, &mut s, &[Key::Char('a'), Key::Char(' '), Key::Char('x'), Key::Char('q'), Key::Backspace, Key::Char('y'), Key::Enter]);
    assert_eq!(acts[..6], [UiAction::Stay; 6]);
    assert_eq!(acts[6], UiAction::Persist);
    assert_eq!(titles(&s), vec!["a", "xy", "b", "c"]);
    let ids: Vec<u64> = s.tasks.iter().map(|t| t.id).collect();
    assert_eq!(ids, vec![1, 2, 3, 4]);
    assert_eq!(ui.selected, Some(1));
    assert!(matches!(ui.mode, UiMode::List));
}

#[test]
fn add_on_an_empty_list_goes_first() {
    let mut s = AppState::empty_for("d".to_string());
    let mut ui = UiState::new(&s);
    press(&mut ui, &mut s, &[Key::Char('A'), Key::Char('z'), Key::Enter]);
    assert_eq!(titles(&s), vec!["z"]);
    assert_eq!(ui.selected, Some(0));
}

#[test]
fn blank_or_cancelled_add_changes_nothing() {
    let mut s = three();
    let mut ui = UiState::new(&s);
    let acts = press(&mut ui, &mut s, &[Key::Char('a'), Key::Char(' '), Key::Enter, Key::Char('a'), Key::Char('x'), Key::Esc]);
    assert!(acts.iter().all(|a| *a == UiAction::Stay));
    assert_eq!(titles(&s), vec!["a", "b", "c"]);
    assert!(matches!(ui.mode, UiMode::List));
}

#[test]
fn delete_keeps_the_cursor_on_the_list() {
    let mut s = three();
    let mut ui = UiState::new(&s);
    press(&mut ui, &mut s, &[Key::Down, Key::Down]);
    assert_eq!(ui.handle_key(&mut s, Key::Char('d')), UiAction::Persist);
    assert_eq!(titles(&s), vec!["a", "b"]);
    assert_eq!(ui.selected, Some(1));
    press(&mut ui, &mut s, &[Key::Char('D'), Key::Char('d')]);
    assert!(s.tasks.is_empty());
    assert_eq!(ui.selected, None);
    assert_eq!(ui.handle_key(&mut s, Key::Char('d')), UiAction::Stay);
}

#[test]
fn pin_moves_the_selection_to_the_top() {
    let mut s = three();
    let mut ui = UiState::new(&s);
    press(&mut ui, &mut s, &[Key::Down, Key::Char('p')]);
    assert_eq!(titles(&s), vec!["b", "a", "c"]);
    assert!(s.tasks[0].prioritized);
    assert_eq!(ui.selected, Some(0));
}

#[test]
fn space_and_enter_toggle_done() {
    let mut s = three();
    let mut ui = UiState::new(&s);
    assert_eq!(ui.handle_key(&mut s, Key::Char(' ')), UiAction::Persist);
    assert!(s.tasks[0].done);
    ui.handle_key(&mut s, Key::Enter);
    assert!(!s.tasks[0].done);
}

#[test]
fn q_persists_and_quits() {
    let mut s = three();
    let mut ui = UiState::new(&s);
    assert_eq!(ui.handle_key(&mut s, Key::Char('Q')), UiAction::PersistAndQuit);
    assert_eq!(ui.handle_key(&mut s, Key::Other), UiAction::Stay);
}

#[test]
fn row_looks() {
    let mut t = task(1, "a");
    assert_eq!(task_row_look(&t), RowLook::Open);
    t.prioritized = true;
    assert_eq!(task_row_look(&t), RowLook::Pinned);
    t.done = true;
    assert_eq!(task_row_look(&t), RowLook::Done);
}

#[test]
fn footer_heights() {
    assert_eq!(footer_height(&UiMode::List, false), 1);
    assert_eq!(footer_height(&UiMode::List, true), 2);
    assert_eq!(footer_height(&UiMode::AddTask { insert_at: 0, buffer: String::new() }, false), 2);
}

#[test]
fn list_screen_texts() {
    assert_eq!(list_title(true), " tasks · a adds first ");
    assert_eq!(list_title(false), " tasks ");
    let mut t = task(1, "a");
    assert_eq!(done_mark(&t), "[ ]");
    t.done = true;
    assert_eq!(done_mark(&t), "[x]");
    assert_eq!(header_tag(true), Some("  [mimic]"));
    assert_eq!(header_tag(false), None);
}

#[test]
fn ids_stay_row_numbers_and_one_pin_after_any_keys() {
    let mut s = three();
    let mut ui = UiState::new(&s);
    let keys = [
        Key::Down, Key::Char('p'), Key::Down, Key::Down, Key::Char('p'), Key::Char('a'), Key::Char('n'),
        Key::Enter, Key::Down, Key::Char('d'), Key::Char(' '), Key::Up, Key::Char('P'), Key::Char('d'),
        Key::Char('a'), Key::Char('z'), Key::Enter, Key::Enter,
    ];
    for k in keys {
        ui.handle_key(&mut s, k);
        for (i, t) in s.tasks.iter().enumerate() {
            assert_eq!(t.id, i as u64 + 1);
        }
        assert!(s.tasks.iter().filter(|t| t.prioritized).count() <= 1);
        assert_eq!(s.date, "d");
    }
}
