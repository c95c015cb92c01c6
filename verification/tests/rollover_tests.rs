use rusty::rollover::{check_mark, footer_note, title_bar};
use rusty::rollover::{bar_text, RolloverOutcome, RolloverState, RolloverStats};
use rusty::state::{AppState, Task};
use rusty::ui::Key;

fn task(title: &str, done: bool) -> Task {
    Task { id: 1, title: title.to_string(), done, prioritized: false }
}

fn yesterday() -> AppState {
    AppState {
        date: "2024-05-01".to_string(),
        tasks: vec![task("a", true), task("b", false), task("c", false), task("d", true), task("e", true)],
    }
}

#[test]
fn stats_count_and_round_down() {
    let st = RolloverStats::of(&yesterday());
    assert_eq!(st, RolloverStats { total: 5, done: 3, open: 2, pct: 60 });
    let s = AppState { date: "d".to_string(), tasks: vec![task("a", true), task("b", false), task("c", false)] };
    assert_eq!(RolloverStats::of(&s).pct, 33);
    let empty = AppState::empty_for("d".to_string());
    assert_eq!(RolloverStats::of(&empty), RolloverStats { total: 0, done: 0, open: 0, pct: 0 });
}

#[test]
fn bar_is_clamped_and_filled() {
    assert_eq!(bar_text(50, 4), format!("╭{}{}╯", "█".repeat(5), "░".repeat(5)));
    assert_eq!(bar_text(100, 200).chars().count(), 62);
    assert_eq!(bar_text(0, 20), format!("╭{}╯", "░".repeat(20)));
    assert_eq!(bar_text(33, 30), format!("╭{}{}╯", "█".repeat(9), "░".repeat(21)));
}

#[test]
fn offers_the_open_titles_unchecked() {
    let r = RolloverState::new(&yesterday());
    assert_eq!(r.titles, vec!["b", "c"]);
    assert_eq!(r.checked, vec![false, false]);
    assert_eq!(r.cursor, Some(0));
}

#[test]
fn y_carries_the_checked_titles() {
    let mut r = RolloverState::new(&yesterday());
    assert!(matches!(r.handle_key(Key::Down), RolloverOutcome::Continue));
    assert!(matches!(r.handle_key(Key::Char(' ')), RolloverOutcome::Continue));
    assert_eq!(r.checked, vec![false, true]);
    match r.handle_key(Key::Char('Y')) {
        RolloverOutcome::Finish(v) => {
            assert_eq!(v.len(), 1);
            assert_eq!(v[0].title, "c");
            assert_eq!(v[0].id, 0);
            assert!(!v[0].done && !v[0].prioritized);
        }
        RolloverOutcome::Continue => panic!("expected the screen to close"),
    }
}

#[test]
fn n_or_escape_carries_nothing() {
    for k in [Key::Char('n'), Key::Char('N'), Key::Esc] {
        let mut r = RolloverState::new(&yesterday());
        r.handle_key(Key::Char(' '));
        match r.handle_key(k) {
            RolloverOutcome::Finish(v) => assert!(v.is_empty()),
            RolloverOutcome::Continue => panic!("expected the screen to close"),
        }
    }
}

#[test]
fn cursor_stays_on_the_titles() {
    let mut r = RolloverState::new(&yesterday());
    for k in [Key::Down, Key::Char('j'), Key::Down] {
        r.handle_key(k);
    }
    assert_eq!(r.cursor, Some(1));
    for k in [Key::Up, Key::Char('k'), Key::Up] {
        r.handle_key(k);
    }
    assert_eq!(r.cursor, Some(0));
}

#[test]
fn nothing_open_offers_nothing() {
    let s = AppState { date: "d".to_string(), tasks: vec![task("a", true)] };
    let mut r = RolloverState::new(&s);
    assert!(r.titles.is_empty());
    assert_eq!(r.cursor, None);
    r.handle_key(Key::Char(' '));
    match r.handle_key(Key::Char('y')) {
        RolloverOutcome::Finish(v) => assert!(v.is_empty()),
        RolloverOutcome::Continue => panic!("expected the screen to close"),
    }
}

#[test]
fn carry_over_screen_texts() {
    assert_eq!(check_mark(true), "[×]");
    assert_eq!(check_mark(false), "[ ]");
    assert_eq!(title_bar("2024-05-01", false), " yesterday · 2024-05-01 ");
    assert_eq!(title_bar("2024-05-01", true), " preview · saved 2024-05-01 ");
    assert_eq!(footer_note(true), "dry-run · disk unchanged");
    assert_eq!(footer_note(false), "rusty forge");
}

#[test]
fn more_percent_never_fills_fewer_cells() {
    for width in [0usize, 10, 37, 60, 100] {
        let mut last = 0;
        for pct in 0u16..=100 {
            let bar = bar_text(pct, width);
            assert_eq!(bar.chars().count(), width.clamp(10, 60) + 2);
            let full = bar.chars().filter(|c| *c == '█').count();
            assert!(full >= last);
            last = full;
        }
    }
}
