//! The list screen: which key does what to the day's list and to the cursor,
//! as a step from (list, screen state, key) to (list, screen state, action).
//! Drawing, reading keys and writing the file are left to the caller, which
//! performs the returned action.

use vstd::prelude::*;
use vstd::string::*;
use crate::state::{AppState, Task, AppStateView, TaskView, id_available, inserted, pinned, renumbered, toggled};
use crate::text::{trim, trimmed};

verus! {

/// A key press, as the screens read it.
#[derive(Debug, Clone, Copy, PartialEq, Eq)]
pub enum Key {
    Char(char),
    Enter,
    Esc,
    Backspace,
    Up,
    Down,
    Other,
}

/// What the list screen is doing: browsing, or typing a new task that goes in
/// at `insert_at`.
#[derive(Debug)]
pub enum UiMode {
    List,
    AddTask { insert_at: usize, buffer: String },
}

/// The list screen's mode, as a mathematical value.
pub enum ModeView {
    List,
    AddTask { insert_at: usize, buffer: Seq<char> },
}

impl View for UiMode {
    type V = ModeView;

    open spec fn view(&self) -> ModeView {
        match self {
            UiMode::List => ModeView::List,
            UiMode::AddTask { insert_at, buffer } => ModeView::AddTask {
                insert_at: *insert_at,
                buffer: buffer@,
            },
        }
    }
}

/// The list screen: its mode and the highlighted row.
#[derive(Debug)]
pub struct UiState {
    pub mode: UiMode,
    pub selected: Option<usize>,
}

/// What the caller does after a key: nothing, write the list (unless in a
/// preview), or write it and leave the screen.
#[derive(Debug, Clone, Copy, PartialEq, Eq)]
pub enum UiAction {
    Stay,
    Persist,
    PersistAndQuit,
}

/// The result of one key on the list screen.
pub struct Step {
    pub tasks: Seq<TaskView>,
    pub mode: ModeView,
    pub selected: Option<usize>,
    pub action: UiAction,
}

/// The highlighted row, if any, is a row of a list of `n` tasks.
pub open spec fn selection_in_range(selected: Option<usize>, n: nat) -> bool {
    selected matches Some(i) ==> i < n
}

/// `key` is the character `a` or the character `b`.
pub open spec fn is_one_of(key: Key, a: char, b: char) -> bool {
    key == Key::Char(a) || key == Key::Char(b)
}

/// Nothing changes.
pub open spec fn unchanged(s: Seq<TaskView>, mode: ModeView, selected: Option<usize>) -> Step {
    Step { tasks: s, mode, selected, action: UiAction::Stay }
}

/// The highlighted row, when it is a row of `s`.
pub open spec fn selected_row(s: Seq<TaskView>, selected: Option<usize>) -> Option<usize> {
    match selected {
        Some(i) => if i < s.len() {
            Some(i)
        } else {
            None
        },
        None => None,
    }
}

/// One key while browsing the list.
pub open spec fn list_step(s: Seq<TaskView>, selected: Option<usize>, key: Key) -> Step {
    let n = s.len();
    if is_one_of(key, 'q', 'Q') {
        Step { tasks: s, mode: ModeView::List, selected, action: UiAction::PersistAndQuit }
    } else if is_one_of(key, 'a', 'A') {
        let after = match selected {
            Some(i) => i + 1,
            None => 0,
        };
        let at = if after <= n {
            after as usize
        } else {
            n as usize
        };
        unchanged(s, ModeView::AddTask { insert_at: at, buffer: Seq::empty() }, selected)
    } else if is_one_of(key, 'd', 'D') {
        match selected_row(s, selected) {
            Some(i) => {
                let rest = renumbered(s.remove(i as int));
                let sel = if rest.len() == 0 {
                    None
                } else if i < rest.len() {
                    Some(i)
                } else {
                    Some((rest.len() - 1) as usize)
                };
                Step { tasks: rest, mode: ModeView::List, selected: sel, action: UiAction::Persist }
            },
            None => unchanged(s, ModeView::List, selected),
        }
    } else if is_one_of(key, 'p', 'P') {
        match selected_row(s, selected) {
            Some(i) => Step {
                tasks: pinned(s, i as int),
                mode: ModeView::List,
                selected: Some(0),
                action: UiAction::Persist,
            },
            None => unchanged(s, ModeView::List, selected),
        }
    } else if key == Key::Char(' ') || key == Key::Enter {
        match selected_row(s, selected) {
            Some(i) => Step {
                tasks: toggled(s, i as int),
                mode: ModeView::List,
                selected,
                action: UiAction::Persist,
            },
            None => unchanged(s, ModeView::List, selected),
        }
    } else if key == Key::Down || key == Key::Char('j') {
        if n == 0 {
            unchanged(s, ModeView::List, selected)
        } else {
            let i = match selected {
                Some(i) => i as int,
                None => 0,
            };
            let next = if i + 1 <= n - 1 {
                i + 1
            } else {
                n - 1
            };
            unchanged(s, ModeView::List, Some(next as usize))
        }
    } else if key == Key::Up || key == Key::Char('k') {
        if n == 0 {
            unchanged(s, ModeView::List, selected)
        } else {
            let i = match selected {
                Some(i) => i as int,
                None => 0,
            };
            unchanged(s, ModeView::List, Some(if i > 0 { (i - 1) as usize } else { 0 }))
        }
    } else {
        unchanged(s, ModeView::List, selected)
    }
}

/// One key while typing a new task.
pub open spec fn add_step(
    s: Seq<TaskView>,
    selected: Option<usize>,
    insert_at: usize,
    buffer: Seq<char>,
    key: Key,
) -> Step {
    let typing = ModeView::AddTask { insert_at, buffer };
    match key {
        Key::Esc => unchanged(s, ModeView::List, selected),
        Key::Enter => {
            let title = trimmed(buffer);
            if title.len() > 0 {
                let pos = if insert_at <= s.len() {
                    insert_at
                } else {
                    s.len() as usize
                };
                Step {
                    tasks: inserted(s, pos as int, title),
                    mode: ModeView::List,
                    selected: Some(pos),
                    action: UiAction::Persist,
                }
            } else {
                unchanged(s, ModeView::List, selected)
            }
        },
        Key::Backspace => unchanged(
            s,
            ModeView::AddTask {
                insert_at,
                buffer: if buffer.len() > 0 {
                    buffer.drop_last()
                } else {
                    buffer
                },
            },
            selected,
        ),
        Key::Char(c) => unchanged(
            s,
            ModeView::AddTask { insert_at, buffer: buffer.push(c) },
            selected,
        ),
        _ => unchanged(s, typing, selected),
    }
}

/// One key on the list screen.
pub open spec fn ui_step(s: Seq<TaskView>, mode: ModeView, selected: Option<usize>, key: Key) -> Step {
    match mode {
        ModeView::List => list_step(s, selected, key),
        ModeView::AddTask { insert_at, buffer } => add_step(s, selected, insert_at, buffer, key),
    }
}

/// The key adds a task: enter while typing a title that is not blank.
pub open spec fn key_adds_task(mode: ModeView, key: Key) -> bool {
    mode matches ModeView::AddTask { buffer, .. } && key == Key::Enter && trimmed(buffer).len() > 0
}

impl UiState {
    /// Invariant against the list: the highlighted row is a row of it.
    pub open spec fn wf(&self, tasks: Seq<TaskView>) -> bool {
        selection_in_range(self.selected, tasks.len())
    }

    /// The screen as it opens: browsing, with the first row highlighted when
    /// there is one.
    pub fn new(state: &AppState) -> (r: UiState)
        ensures
            r.mode@ == ModeView::List,
            r.selected == (if state@.tasks.len() > 0 {
                Some(0usize)
            } else {
                None
            }),
            r.wf(state@.tasks),
    {
        let selected = if state.tasks.len() > 0 {
            Some(0)
        } else {
            None
        };
        UiState { mode: UiMode::List, selected }
    }

    /// Applies one key press to the list and to the screen, and says what the
    /// caller is to do next.
    pub fn handle_key(&mut self, state: &mut AppState, key: Key) -> (action: UiAction)
        requires
            old(self).wf(old(state)@.tasks),
            key_adds_task(old(self).mode@, key) ==> id_available(old(state)@.tasks),
        ensures
            ({
                let st = ui_step(old(state)@.tasks, old(self).mode@, old(self).selected, key);
                &&& final(state)@ == (AppStateView { date: old(state)@.date, tasks: st.tasks })
                &&& final(self).mode@ == st.mode
                &&& final(self).selected == st.selected
                &&& action == st.action
            }),
            final(self).wf(final(state)@.tasks),
    {
        let mut mode = UiMode::List;
        std::mem::swap(&mut mode, &mut self.mode);
        match mode {
            UiMode::List => self.list_key(state, key),
            UiMode::AddTask { insert_at, buffer } => self.add_key(state, insert_at, buffer, key),
        }
    }

    fn list_key(&mut self, state: &mut AppState, key: Key) -> (action: UiAction)
        requires
            old(self).mode@ == ModeView::List,
            selection_in_range(old(self).selected, old(state)@.tasks.len()),
        ensures
            ({
                let st = list_step(old(state)@.tasks, old(self).selected, key);
                &&& final(state)@ == (AppStateView { date: old(state)@.date, tasks: st.tasks })
                &&& final(self).mode@ == st.mode
                &&& final(self).selected == st.selected
                &&& action == st.action
            }),
            final(self).wf(final(state)@.tasks),
    {
        let n = state.tasks.len();
        let sel = match self.selected {
            Some(i) => if i < n {
                Some(i)
            } else {
                None
            },
            None => None,
        };
        match key {
            Key::Char('q') | Key::Char('Q') => UiAction::PersistAndQuit,
            Key::Char('a') | Key::Char('A') => {
                let after = match self.selected {
                    Some(i) => i + 1,
                    None => 0,
                };
                let insert_at = if after <= n {
                    after
                } else {
                    n
                };
                self.mode = UiMode::AddTask { insert_at, buffer: String::new() };
                UiAction::Stay
            },
            Key::Char('d') | Key::Char('D') => match sel {
                Some(i) => {
                    state.remove_task(i);
                    let len = state.tasks.len();
                    if len == 0 {
                        self.selected = None;
                    } else if i < len {
                        self.selected = Some(i);
                    } else {
                        self.selected = Some(len - 1);
                    }
                    UiAction::Persist
                },
                None => UiAction::Stay,
            },
            Key::Char('p') | Key::Char('P') => match sel {
                Some(i) => {
                    state.pin_task(i);
                    self.selected = Some(0);
                    UiAction::Persist
                },
                None => UiAction::Stay,
            },
            Key::Char(' ') | Key::Enter => match sel {
                Some(i) => {
                    state.toggle_done(i);
                    UiAction::Persist
                },
                None => UiAction::Stay,
            },
            Key::Down | Key::Char('j') => {
                if n > 0 {
                    let i = match self.selected {
                        Some(i) => i,
                        None => 0,
                    };
                    self.selected = Some(if i + 1 <= n - 1 { i + 1 } else { n - 1 });
                }
                UiAction::Stay
            },
            Key::Up | Key::Char('k') => {
                if n > 0 {
                    let i = match self.selected {
                        Some(i) => i,
                        None => 0,
                    };
                    self.selected = Some(if i > 0 { i - 1 } else { 0 });
                }
                UiAction::Stay
            },
            _ => UiAction::Stay,
        }
    }

    fn add_key(&mut self, state: &mut AppState, insert_at: usize, buffer: String, key: Key) -> (action: UiAction)
        requires
            old(self).mode@ == ModeView::List,
            selection_in_range(old(self).selected, old(state)@.tasks.len()),
            key == Key::Enter && trimmed(buffer@).len() > 0 ==> id_available(old(state)@.tasks),
        ensures
            ({
                let st = add_step(old(state)@.tasks, old(self).selected, insert_at, buffer@, key);
                &&& final(state)@ == (AppStateView { date: old(state)@.date, tasks: st.tasks })
                &&& final(self).mode@ == st.mode
                &&& final(self).selected == st.selected
                &&& action == st.action
            }),
            final(self).wf(final(state)@.tasks),
    {
        match key {
            Key::Esc => UiAction::Stay,
            Key::Enter => {
                let title = trim(buffer.as_str());
                if !title.is_empty() {
                    let n = state.tasks.len();
                    let pos = if insert_at <= n {
                        insert_at
                    } else {
                        n
                    };
                    state.insert_task(pos, String::from_str(title));
                    self.selected = Some(pos);
                    UiAction::Persist
                } else {
                    UiAction::Stay
                }
            },
            Key::Backspace => {
                let mut buffer = buffer;
                buffer.pop();
                self.mode = UiMode::AddTask { insert_at, buffer };
                UiAction::Stay
            },
            Key::Char(c) => {
                let mut buffer = buffer;
                buffer.push(c);
                self.mode = UiMode::AddTask { insert_at, buffer };
                UiAction::Stay
            },
            _ => {
                self.mode = UiMode::AddTask { insert_at, buffer };
                UiAction::Stay
            },
        }
    }
}

/// How a row of the list is drawn.
#[derive(Debug, Clone, Copy, PartialEq, Eq)]
pub enum RowLook {
    /// Pinned and still open: bold, in the accent colour.
    Pinned,
    /// Done: dimmed and crossed out.
    Done,
    /// Open and not pinned.
    Open,
}

/// How `task`'s row is drawn: a pinned task loses its emphasis once done.
pub fn task_row_look(task: &Task) -> (r: RowLook)
    ensures
        r == (if task.prioritized && !task.done {
            RowLook::Pinned
        } else if task.done {
            RowLook::Done
        } else {
            RowLook::Open
        }),
{
    if task.prioritized && !task.done {
        RowLook::Pinned
    } else if task.done {
        RowLook::Done
    } else {
        RowLook::Open
    }
}

/// Height of the list screen's footer: two lines while typing a task or in a
/// preview, one otherwise.
pub fn footer_height(mode: &UiMode, mimic: bool) -> (h: u16)
    ensures
        h == (if mode@ is AddTask || mimic {
            2u16
        } else {
            1u16
        }),
{
    match mode {
        UiMode::AddTask { .. } => 2,
        UiMode::List => if mimic {
            2
        } else {
            1
        },
    }
}

/// The list's title: a hint to add the first task while the list is empty.
pub fn list_title(empty: bool) -> (r: &'static str)
    ensures
        r@ == (if empty {
            " tasks \u{b7} a adds first "@
        } else {
            " tasks "@
        }),
{
    if empty {
        " tasks \u{b7} a adds first "
    } else {
        " tasks "
    }
}

/// The done mark in front of a row.
pub fn done_mark(task: &Task) -> (r: &'static str)
    ensures
        r@ == (if task.done {
            "[x]"@
        } else {
            "[ ]"@
        }),
{
    if task.done {
        "[x]"
    } else {
        "[ ]"
    }
}

/// The tag after the screen's name: shown in a preview only.
pub fn header_tag(mimic: bool) -> (r: Option<&'static str>)
    ensures
        mimic ==> (r matches Some(t) && t@ == "  [mimic]"@),
        !mimic ==> r is None,
{
    if mimic {
        Some("  [mimic]")
    } else {
        None
    }
}

} // verus!
