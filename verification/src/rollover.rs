//! The carry-over screen shown when the saved list belongs to an earlier day:
//! the day's completion figures, the bar that draws them, and the choice of
//! which open tasks go on to today.

use vstd::prelude::*;
use vstd::string::*;
use crate::state::{AppState, Task, TaskView, new_task};
use crate::ui::Key;

verus! {

/// Number of done tasks in `s`.
pub open spec fn done_count(s: Seq<TaskView>) -> nat
    decreases s.len(),
{
    if s.len() == 0 {
        0
    } else {
        done_count(s.drop_last()) + if s.last().done {
            1nat
        } else {
            0nat
        }
    }
}

/// Titles of the open (not done) tasks of `s`, in list order.
pub open spec fn open_titles(s: Seq<TaskView>) -> Seq<Seq<char>>
    decreases s.len(),
{
    if s.len() == 0 {
        Seq::empty()
    } else if s.last().done {
        open_titles(s.drop_last())
    } else {
        open_titles(s.drop_last()).push(s.last().title)
    }
}

/// The tasks that go on to today: one new open task (id 0, to be renumbered)
/// for each checked title, in order.
pub open spec fn carried(titles: Seq<Seq<char>>, checked: Seq<bool>) -> Seq<TaskView>
    decreases titles.len(),
{
    if titles.len() == 0 || checked.len() == 0 {
        Seq::empty()
    } else if checked.last() {
        carried(titles.drop_last(), checked.drop_last()).push(new_task(0, titles.last()))
    } else {
        carried(titles.drop_last(), checked.drop_last())
    }
}

/// Completion of the day in whole percent, rounded down.
pub open spec fn percent(done: nat, total: nat) -> nat {
    if total > 0 {
        (done * 100) / total
    } else {
        0
    }
}

/// The figures at the top of the carry-over screen.
#[derive(Debug, Clone, Copy, PartialEq, Eq)]
pub struct RolloverStats {
    pub total: usize,
    pub done: usize,
    pub open: usize,
    pub pct: u16,
}

impl RolloverStats {
    /// Total, done and open tasks of the earlier day, and the percentage done.
    pub fn of(yesterday: &AppState) -> (r: RolloverStats)
        requires
            done_count(yesterday@.tasks) * 100 <= u64::MAX,
        ensures
            r.total == yesterday@.tasks.len(),
            r.done == done_count(yesterday@.tasks),
            r.open == r.total - r.done,
            r.pct == percent(r.done as nat, r.total as nat),
            r.pct <= 100,
    {
        let n = yesterday.tasks.len();
        let mut done: usize = 0;
        let mut i: usize = 0;
        assert(yesterday@.tasks.take(0) =~= Seq::<TaskView>::empty());
        while i < n
            invariant
                n == yesterday@.tasks.len(),
                i <= n,
                done == done_count(yesterday@.tasks.take(i as int)),
                done <= i,
            decreases n - i,
        {
            assert(yesterday@.tasks.take(i + 1).drop_last() =~= yesterday@.tasks.take(i as int));
            if yesterday.tasks[i].done {
                done = done + 1;
            }
            i = i + 1;
        }
        assert(yesterday@.tasks.take(n as int) =~= yesterday@.tasks);
        let open = n - done;
        let pct: u16 = if n > 0 {
            let p = (done as u64 * 100) / n as u64;
            assert(p <= 100) by (nonlinear_arith)
                requires
                    p == (done * 100) / (n as int),
                    done <= n,
                    n > 0,
            {
                assert(done * 100 <= n * 100);
            }
            p as u16
        } else {
            0
        };
        RolloverStats { total: n, done, open, pct }
    }
}

/// Width of the completion bar for a screen `width` cells wide: between 10 and
/// 60 cells.
pub open spec fn bar_width(width: usize) -> nat {
    if width < 10 {
        10
    } else if width > 60 {
        60
    } else {
        width as nat
    }
}

/// Filled cells of a bar `w` cells wide at `pct` percent, never more than `w`.
pub open spec fn bar_fill(pct: u16, w: nat) -> nat {
    let f = (pct * w) / 100;
    if f < w {
        f as nat
    } else {
        w
    }
}

/// The completion bar: a left cap, `fill` full cells, then empty cells up to
/// `w`, then a right cap.
pub open spec fn bar_string(w: nat, fill: nat) -> Seq<char> {
    seq!['\u{256d}'] + Seq::new(w, |i: int| if i < fill { '\u{2588}' } else { '\u{2591}' })
        + seq!['\u{256f}']
}

/// The completion bar for `pct` percent on a screen `width` cells wide.
pub fn bar_text(pct: u16, width: usize) -> (r: String)
    ensures
        r@ == bar_string(bar_width(width), bar_fill(pct, bar_width(width))),
{
    let w: usize = if width < 10 {
        10
    } else if width > 60 {
        60
    } else {
        width
    };
    assert((pct as usize) * w <= 65535 * 60) by (nonlinear_arith)
        requires
            pct <= 65535,
            w <= 60,
    ;
    let f = (pct as usize * w) / 100;
    let fill = if f < w {
        f
    } else {
        w
    };
    let mut s = String::new();
    s.push('\u{256d}');
    let mut i: usize = 0;
    while i < w
        invariant
            i <= w,
            w == bar_width(width),
            fill == bar_fill(pct, w as nat),
            s@ == seq!['\u{256d}'] + Seq::new(i as nat, |k: int| if k < fill { '\u{2588}' } else { '\u{2591}' }),
        decreases w - i,
    {
        let ghost before = s@;
        if i < fill {
            s.push('\u{2588}');
        } else {
            s.push('\u{2591}');
        }
        assert(s@ =~= seq!['\u{256d}'] + Seq::new((i + 1) as nat, |k: int| if k < fill { '\u{2588}' } else { '\u{2591}' }));
        i = i + 1;
    }
    s.push('\u{256f}');
    s
}

/// The carry-over screen: the open titles of the earlier day, which of them
/// are checked, and the highlighted row.
#[derive(Debug)]
pub struct RolloverState {
    pub titles: Vec<String>,
    pub checked: Vec<bool>,
    pub cursor: Option<usize>,
}

/// What a key on the carry-over screen led to.
#[derive(Debug)]
pub enum RolloverOutcome {
    /// The screen stays.
    Continue,
    /// The screen closes; these tasks go on to today.
    Finish(Vec<Task>),
}

impl RolloverState {
    /// Titles, as mathematical values.
    pub open spec fn titles_view(&self) -> Seq<Seq<char>> {
        self.titles@.map_values(|t: String| t@)
    }

    /// Invariant: one check mark per title, and the highlighted row is a row.
    pub open spec fn wf(&self) -> bool {
        &&& self.checked@.len() == self.titles@.len()
        &&& self.cursor matches Some(i) ==> i < self.titles@.len()
    }

    /// The screen for the list `yesterday`: its open titles, none checked, the
    /// first highlighted when there is one.
    pub fn new(yesterday: &AppState) -> (r: RolloverState)
        ensures
            r.wf(),
            r.titles_view() == open_titles(yesterday@.tasks),
            forall|i: int| 0 <= i < r.checked@.len() ==> !r.checked@[i],
            r.cursor == (if r.titles@.len() > 0 {
                Some(0usize)
            } else {
                None
            }),
    {
        let n = yesterday.tasks.len();
        let mut titles: Vec<String> = Vec::new();
        let mut checked: Vec<bool> = Vec::new();
        let mut i: usize = 0;
        assert(yesterday@.tasks.take(0) =~= Seq::<TaskView>::empty());
        assert(titles@.map_values(|t: String| t@) =~= Seq::<Seq<char>>::empty());
        while i < n
            invariant
                n == yesterday@.tasks.len(),
                i <= n,
                titles@.map_values(|t: String| t@) == open_titles(yesterday@.tasks.take(i as int)),
                checked@.len() == titles@.len(),
                forall|k: int| 0 <= k < checked@.len() ==> !checked@[k],
            decreases n - i,
        {
            assert(yesterday@.tasks.take(i + 1).drop_last() =~= yesterday@.tasks.take(i as int));
            if !yesterday.tasks[i].done {
                let ghost before = titles@.map_values(|t: String| t@);
                titles.push(yesterday.tasks[i].title.clone());
                checked.push(false);
                assert(titles@.map_values(|t: String| t@) =~= before.push(yesterday@.tasks[i as int].title));
            }
            i = i + 1;
        }
        assert(yesterday@.tasks.take(n as int) =~= yesterday@.tasks);
        let cursor = if titles.len() > 0 {
            Some(0)
        } else {
            None
        };
        RolloverState { titles, checked, cursor }
    }

    /// The checked titles as new open tasks, in order.
    fn checked_tasks(&self) -> (r: Vec<Task>)
        requires
            self.wf(),
        ensures
            r@.map_values(|t: Task| t@) == carried(self.titles_view(), self.checked@),
    {
        let n = self.titles.len();
        let mut out: Vec<Task> = Vec::new();
        let mut i: usize = 0;
        assert(out@.map_values(|t: Task| t@) =~= Seq::<TaskView>::empty());
        while i < n
            invariant
                n == self.titles@.len(),
                self.wf(),
                i <= n,
                out@.map_values(|t: Task| t@) == carried(
                    self.titles_view().take(i as int),
                    self.checked@.take(i as int),
                ),
            decreases n - i,
        {
            assert(self.titles_view().take(i + 1).drop_last() =~= self.titles_view().take(i as int));
            assert(self.checked@.take(i + 1).drop_last() =~= self.checked@.take(i as int));
            if self.checked[i] {
                let ghost before = out@.map_values(|t: Task| t@);
                out.push(Task { id: 0, title: self.titles[i].clone(), done: false, prioritized: false });
                assert(out@.map_values(|t: Task| t@) =~= before.push(new_task(0, self.titles_view()[i as int])));
            }
            i = i + 1;
        }
        assert(self.titles_view().take(n as int) =~= self.titles_view());
        assert(self.checked@.take(n as int) =~= self.checked@);
        out
    }

    /// One key on the carry-over screen: `y` carries the checked titles over,
    /// `n` or escape carries nothing, space checks or unchecks the highlighted
    /// title, down/`j` and up/`k` move the highlight.
    pub fn handle_key(&mut self, key: Key) -> (r: RolloverOutcome)
        requires
            old(self).wf(),
        ensures
            final(self).wf(),
            final(self).titles == old(self).titles,
            key == Key::Char('y') || key == Key::Char('Y') ==> (r matches RolloverOutcome::Finish(v)
                && v@.map_values(|t: Task| t@) == carried(old(self).titles_view(), old(self).checked@)),
            key == Key::Char('n') || key == Key::Char('N') || key == Key::Esc ==> (r matches RolloverOutcome::Finish(v)
                && v@.len() == 0),
            key == Key::Char(' ') ==> r is Continue && final(self).cursor == old(self).cursor
                && final(self).checked@ == (match old(self).cursor {
                Some(i) => old(self).checked@.update(i as int, !old(self).checked@[i as int]),
                None => old(self).checked@,
            }),
            key == Key::Down || key == Key::Char('j') ==> r is Continue && final(self).checked
                == old(self).checked && final(self).cursor == (if old(self).titles@.len() == 0 {
                old(self).cursor
            } else {
                let i = match old(self).cursor {
                    Some(i) => i as int,
                    None => 0,
                };
                Some(if i + 1 < old(self).titles@.len() { (i + 1) as usize } else { (old(self).titles@.len() - 1) as usize })
            }),
            key == Key::Up || key == Key::Char('k') ==> r is Continue && final(self).checked
                == old(self).checked && final(self).cursor == (if old(self).titles@.len() == 0 {
                old(self).cursor
            } else {
                let i = match old(self).cursor {
                    Some(i) => i as int,
                    None => 0,
                };
                Some(if i > 0 { (i - 1) as usize } else { 0usize })
            }),
            !(key == Key::Char('y') || key == Key::Char('Y') || key == Key::Char('n') || key
                == Key::Char('N') || key == Key::Esc || key == Key::Char(' ') || key == Key::Down
                || key == Key::Char('j') || key == Key::Up || key == Key::Char('k')) ==> r is Continue
                && final(self).checked == old(self).checked && final(self).cursor == old(self).cursor,
    {
        let n = self.titles.len();
        match key {
            Key::Char('y') | Key::Char('Y') => RolloverOutcome::Finish(self.checked_tasks()),
            Key::Char('n') | Key::Char('N') | Key::Esc => RolloverOutcome::Finish(Vec::new()),
            Key::Char(' ') => {
                if let Some(i) = self.cursor {
                    if i < self.checked.len() {
                        let c = self.checked[i];
                        self.checked.set(i, !c);
                    }
                }
                RolloverOutcome::Continue
            },
            Key::Down | Key::Char('j') => {
                if n > 0 {
                    let i = match self.cursor {
                        Some(i) => i,
                        None => 0,
                    };
                    self.cursor = Some(if i + 1 < n { i + 1 } else { n - 1 });
                }
                RolloverOutcome::Continue
            },
            Key::Up | Key::Char('k') => {
                if n > 0 {
                    let i = match self.cursor {
                        Some(i) => i,
                        None => 0,
                    };
                    self.cursor = Some(if i > 0 { i - 1 } else { 0 });
                }
                RolloverOutcome::Continue
            },
            _ => RolloverOutcome::Continue,
        }
    }
}

/// The check mark in front of an offered title.
pub fn check_mark(checked: bool) -> (r: &'static str)
    ensures
        r@ == (if checked {
            "[\u{d7}]"@
        } else {
            "[ ]"@
        }),
{
    if checked {
        "[\u{d7}]"
    } else {
        "[ ]"
    }
}

/// The screen's title: the saved date, named as a preview or as yesterday.
pub fn title_bar(date: &str, mimic: bool) -> (r: String)
    ensures
        r@ == (if mimic {
            " preview \u{b7} saved "@
        } else {
            " yesterday \u{b7} "@
        }) + date@ + " "@,
{
    let mut r = if mimic {
        String::from_str(" preview \u{b7} saved ")
    } else {
        String::from_str(" yesterday \u{b7} ")
    };
    r.append(date);
    r.append(" ");
    r
}

/// The note at the end of the footer.
pub fn footer_note(mimic: bool) -> (r: &'static str)
    ensures
        r@ == (if mimic {
            "dry-run \u{b7} disk unchanged"@
        } else {
            "rusty forge"@
        }),
{
    if mimic {
        "dry-run \u{b7} disk unchanged"
    } else {
        "rusty forge"
    }
}

} // verus!
