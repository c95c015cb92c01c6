//! The task list of one day: its model, the day rules (fresh start, carry-over,
//! reset) and every edit that the command line, the first-run prompt and the
//! list screen make to it.

use vstd::prelude::*;
use vstd::string::*;
use crate::clock::{today_string, is_date_string};
use crate::text::{trim, trimmed, folds_to, folds_to_word};

verus! {

/// One task of the day.
#[derive(Debug)]
pub struct Task {
    pub id: u64,
    pub title: String,
    pub done: bool,
    /// Set when the task was pinned to the top (shown bold).
    pub prioritized: bool,
}

/// What a task is, as a mathematical value.
pub struct TaskView {
    pub id: u64,
    pub title: Seq<char>,
    pub done: bool,
    pub prioritized: bool,
}

impl View for Task {
    type V = TaskView;

    open spec fn view(&self) -> TaskView {
        TaskView { id: self.id, title: self.title@, done: self.done, prioritized: self.prioritized }
    }
}

/// The saved state: the day it belongs to and its tasks, in list order.
#[derive(Debug)]
pub struct AppState {
    pub date: String,
    pub tasks: Vec<Task>,
}

/// What a saved state is, as a mathematical value.
pub struct AppStateView {
    pub date: Seq<char>,
    pub tasks: Seq<TaskView>,
}

impl View for AppState {
    type V = AppStateView;

    open spec fn view(&self) -> AppStateView {
        AppStateView { date: self.date@, tasks: self.tasks@.map_values(|t: Task| t@) }
    }
}

/// How an interactive session starts: with a new file, with today's list, or
/// with a list saved under any other date, which has to be carried over first.
pub enum SessionStart {
    Fresh(AppState),
    Today(AppState),
    NeedsRollover(AppState),
}

impl SessionStart {
    /// The state that the session starts from.
    pub open spec fn state(self) -> AppState {
        match self {
            SessionStart::Fresh(s) => s,
            SessionStart::Today(s) => s,
            SessionStart::NeedsRollover(s) => s,
        }
    }
}

/// A new task as the command line and the prompts create it: open, not pinned.
pub open spec fn new_task(id: u64, title: Seq<char>) -> TaskView {
    TaskView { id, title, done: false, prioritized: false }
}

/// The greatest id in `s`, or 0 when `s` is empty.
pub open spec fn max_id(s: Seq<TaskView>) -> nat
    decreases s.len(),
{
    if s.len() == 0 {
        0
    } else {
        let m = max_id(s.drop_last());
        if s.last().id > m {
            s.last().id as nat
        } else {
            m
        }
    }
}

/// A fresh id can be issued: one more than the greatest id fits in a `u64`.
pub open spec fn id_available(s: Seq<TaskView>) -> bool {
    max_id(s) < u64::MAX
}

/// The id that the next new task gets.
pub open spec fn next_id_of(s: Seq<TaskView>) -> u64 {
    (max_id(s) + 1) as u64
}

/// `s` with ids `1..=n` in list order, everything else kept.
pub open spec fn renumbered(s: Seq<TaskView>) -> Seq<TaskView> {
    Seq::new(
        s.len(),
        |i: int|
            TaskView {
                id: (i + 1) as u64,
                title: s[i].title,
                done: s[i].done,
                prioritized: s[i].prioritized,
            },
    )
}

/// The empty list of the day `date`.
pub open spec fn empty_day(date: Seq<char>) -> AppStateView {
    AppStateView { date, tasks: Seq::empty() }
}

pub proof fn lemma_max_id_bounds(s: Seq<TaskView>)
    ensures
        forall|i: int| 0 <= i < s.len() ==> (#[trigger] s[i]).id <= max_id(s),
        max_id(s) <= u64::MAX,
        s.len() > 0 ==> exists|i: int| 0 <= i < s.len() && (#[trigger] s[i]).id == max_id(s),
    decreases s.len(),
{
    if s.len() > 0 {
        lemma_max_id_bounds(s.drop_last());
        assert forall|i: int| 0 <= i < s.len() implies (#[trigger] s[i]).id <= max_id(s) by {
            if i < s.len() - 1 {
                assert(s[i] == s.drop_last()[i]);
            }
        }
        if s.last().id > max_id(s.drop_last()) {
            assert(s[s.len() - 1].id == max_id(s));
        } else if s.len() == 1 {
            assert(s[0].id == max_id(s));
        } else {
            let j = choose|j: int|
                0 <= j < s.drop_last().len() && (#[trigger] s.drop_last()[j]).id == max_id(
                    s.drop_last(),
                );
            assert(s[j] == s.drop_last()[j]);
        }
    }
}

impl AppState {
    /// The empty list of the day `date`.
    pub fn empty_for(date: String) -> (r: AppState)
        ensures
            r@ == empty_day(date@),
    {
        let r = AppState { date, tasks: Vec::new() };
        assert(r@.tasks =~= Seq::<TaskView>::empty());
        r
    }

    /// The empty list of today; `None` when today's date cannot be read (the
    /// system clock reads before 1970).
    pub fn empty_today() -> (r: Option<AppState>)
        ensures
            r matches Some(s) ==> s@.tasks.len() == 0 && is_date_string(s@.date),
    {
        match today_string() {
            Some(today) => Some(Self::empty_for(today)),
            None => None,
        }
    }

    /// Today's list after the carry-over screen: the carried tasks, in order,
    /// under the date `today`, renumbered.
    pub fn after_rollover(today: String, carried: Vec<Task>) -> (r: AppState)
        ensures
            r@ == (AppStateView { date: today@, tasks: renumbered(carried@.map_values(|t: Task| t@)) }),
    {
        let mut state = AppState { date: today, tasks: carried };
        state.renumber_ids();
        state
    }

    /// Assigns ids `1..=n` in current list order (they match the row numbers in
    /// the UI and the command line).
    pub fn renumber_ids(&mut self)
        ensures
            final(self)@ == (AppStateView { date: old(self)@.date, tasks: renumbered(old(self)@.tasks) }),
    {
        let ghost before = self@.tasks;
        let n = self.tasks.len();
        let mut i: usize = 0;
        while i < n
            invariant
                n == self.tasks@.len(),
                n == before.len(),
                i <= n,
                self.date@ == old(self)@.date,
                before == old(self)@.tasks,
                forall|k: int| 0 <= k < i ==> (#[trigger] self.tasks@[k])@ == renumbered(before)[k],
                forall|k: int| i <= k < n ==> (#[trigger] self.tasks@[k])@ == before[k],
            decreases n - i,
        {
            self.tasks[i].id = (i + 1) as u64;
            i = i + 1;
        }
        assert(self@.tasks =~= renumbered(before));
    }

    /// The greatest id in the list, or 0 when the list is empty.
    pub fn max_id(&self) -> (r: u64)
        ensures
            r == max_id(self@.tasks),
    {
        let n = self.tasks.len();
        let mut m: u64 = 0;
        let mut i: usize = 0;
        assert(self@.tasks.take(0) =~= Seq::<TaskView>::empty());
        while i < n
            invariant
                n == self@.tasks.len(),
                i <= n,
                m == max_id(self@.tasks.take(i as int)),
            decreases n - i,
        {
            assert(self@.tasks.take(i + 1).drop_last() =~= self@.tasks.take(i as int));
            if self.tasks[i].id > m {
                m = self.tasks[i].id;
            }
            i = i + 1;
        }
        assert(self@.tasks.take(n as int) =~= self@.tasks);
        m
    }

    /// The id for a new task: one more than the greatest id in the list.
    pub fn next_id(&self) -> (r: u64)
        requires
            id_available(self@.tasks),
        ensures
            r == next_id_of(self@.tasks),
    {
        self.max_id() + 1
    }
}


/// Why a command-line edit was refused.
#[derive(Debug, PartialEq, Eq)]
pub enum CliError {
    /// `add` with a title that is empty once trimmed.
    EmptyTitle,
    /// `delete` of an id that no task has.
    NoSuchTask(u64),
}

/// What one line typed at the first-run prompt did.
#[derive(Debug, PartialEq, Eq)]
pub enum LineOutcome {
    /// A blank line: nothing happens, the prompt asks again.
    Blank,
    /// `done` or `finish` in any ASCII case: the prompt ends.
    Finished,
    /// A task with this id was appended.
    Added(u64),
}

/// `s` with a new open task `title` appended under the next id.
pub open spec fn appended(s: Seq<TaskView>, title: Seq<char>) -> Seq<TaskView> {
    s.push(new_task(next_id_of(s), title))
}

/// `s` without the tasks whose id is `id`, the others in their order.
pub open spec fn without_id(s: Seq<TaskView>, id: u64) -> Seq<TaskView>
    decreases s.len(),
{
    if s.len() == 0 {
        s
    } else if s.last().id == id {
        without_id(s.drop_last(), id)
    } else {
        without_id(s.drop_last(), id).push(s.last())
    }
}

/// No task of `s` has the id `id`.
pub open spec fn id_absent(s: Seq<TaskView>, id: u64) -> bool {
    forall|k: int| 0 <= k < s.len() ==> (#[trigger] s[k]).id != id
}

/// The words that end the first-run prompt.
pub open spec fn is_finish_word(t: Seq<char>) -> bool {
    folds_to(t, seq!['d', 'o', 'n', 'e']) || folds_to(t, seq!['f', 'i', 'n', 'i', 's', 'h'])
}

/// A line typed at the first-run prompt that adds a task.
pub open spec fn line_adds_task(line: Seq<char>) -> bool {
    trimmed(line).len() > 0 && !is_finish_word(trimmed(line))
}

/// `s` with the new task `title` put at position `p`, then renumbered.
pub open spec fn inserted(s: Seq<TaskView>, p: int, title: Seq<char>) -> Seq<TaskView> {
    renumbered(s.insert(p, new_task(next_id_of(s), title)))
}

/// `s` with task `i` moved to the front (unchanged when `i` is 0).
pub open spec fn moved_to_front(s: Seq<TaskView>, i: int) -> Seq<TaskView> {
    seq![s[i]] + s.remove(i)
}

/// `s` with only its first task pinned.
pub open spec fn pin_first(s: Seq<TaskView>) -> Seq<TaskView> {
    Seq::new(
        s.len(),
        |k: int|
            TaskView { id: s[k].id, title: s[k].title, done: s[k].done, prioritized: k == 0 },
    )
}

/// `s` after pinning task `i`: it goes first and is the only pinned task, and
/// the list is renumbered.
pub open spec fn pinned(s: Seq<TaskView>, i: int) -> Seq<TaskView> {
    renumbered(pin_first(moved_to_front(s, i)))
}

/// `s` with the done mark of task `i` flipped.
pub open spec fn toggled(s: Seq<TaskView>, i: int) -> Seq<TaskView> {
    s.update(
        i,
        TaskView { id: s[i].id, title: s[i].title, done: !s[i].done, prioritized: s[i].prioritized },
    )
}

impl AppState {
    /// How an interactive session starts, given the saved state (`None` when
    /// there is no state file) and today's date. The flag says whether the
    /// returned state is to be written back to the file.
    pub fn read_session_start(on_disk: Option<AppState>, today: String) -> (r: (SessionStart, bool))
        ensures
            (match on_disk {
                None => r.0 is Fresh && r.0.state()@ == empty_day(today@) && r.1,
                Some(s) => if s@.date == today@ {
                    &&& r.0 is Today
                    &&& r.0.state()@ == (AppStateView { date: s@.date, tasks: renumbered(s@.tasks) })
                    &&& r.1
                } else {
                    r.0 is NeedsRollover && r.0.state()@ == s@ && !r.1
                },
            }),
    {
        match on_disk {
            None => (SessionStart::Fresh(Self::empty_for(today)), true),
            Some(mut state) => {
                if !(state.date == today) {
                    (SessionStart::NeedsRollover(state), false)
                } else {
                    state.renumber_ids();
                    (SessionStart::Today(state), true)
                }
            },
        }
    }

    /// The state that `add` and `delete` work on: the saved state of today,
    /// renumbered, or an empty list of today when there is none or it belongs to
    /// another day (no carry-over screen). It is written back in every case.
    pub fn load_for_cli(on_disk: Option<AppState>, today: String) -> (r: AppState)
        ensures
            r@.date == today@,
            (match on_disk {
                None => r@ == empty_day(today@),
                Some(s) => if s@.date == today@ {
                    r@.tasks == renumbered(s@.tasks)
                } else {
                    r@ == empty_day(today@)
                },
            }),
    {
        match on_disk {
            None => Self::empty_for(today),
            Some(state) => {
                let mut state = if !(state.date == today) {
                    Self::empty_for(today)
                } else {
                    state
                };
                state.renumber_ids();
                assert(renumbered(Seq::<TaskView>::empty()) =~= Seq::<TaskView>::empty());
                state
            },
        }
    }

    /// The state for a preview that leaves the disk alone: the saved state as
    /// it is, or an empty list of today when there is no state file.
    pub fn read_mimic(on_disk: Option<AppState>, today: String) -> (r: AppState)
        ensures
            (match on_disk {
                None => r@ == empty_day(today@),
                Some(s) => r@ == s@,
            }),
    {
        match on_disk {
            None => Self::empty_for(today),
            Some(state) => state,
        }
    }

    /// Whether persisting writes the state to disk: never in a preview
    /// (`mimic`), always otherwise.
    pub fn persist_to_disk(&self, mimic: bool) -> (writes: bool)
        ensures
            writes == !mimic,
    {
        !mimic
    }

    fn push_new(&mut self, id: u64, title: &str)
        ensures
            final(self)@ == (AppStateView {
                date: old(self)@.date,
                tasks: old(self)@.tasks.push(new_task(id, title@)),
            }),
    {
        self.tasks.push(Task { id, title: String::from_str(title), done: false, prioritized: false });
        assert(self@.tasks =~= old(self)@.tasks.push(new_task(id, title@)));
    }

    /// `rusty add TITLE`: appends an open task with the trimmed title under the
    /// next id and returns that id; refuses a title that is empty once trimmed.
    pub fn add_task(&mut self, title: &str) -> (r: Result<u64, CliError>)
        requires
            trimmed(title@).len() > 0 ==> id_available(old(self)@.tasks),
        ensures
            trimmed(title@).len() == 0 ==> r == Err::<u64, CliError>(CliError::EmptyTitle)
                && final(self)@ == old(self)@,
            trimmed(title@).len() > 0 ==> r == Ok::<u64, CliError>(next_id_of(old(self)@.tasks))
                && final(self)@ == (AppStateView {
                date: old(self)@.date,
                tasks: appended(old(self)@.tasks, trimmed(title@)),
            }),
    {
        let t = trim(title);
        if t.is_empty() {
            return Err(CliError::EmptyTitle);
        }
        let id = self.next_id();
        self.push_new(id, t);
        Ok(id)
    }

    /// `rusty delete ID`: removes every task with the id; refuses an id that no
    /// task has, leaving the list as it was.
    pub fn delete_task(&mut self, id: u64) -> (r: Result<(), CliError>)
        ensures
            final(self)@.date == old(self)@.date,
            final(self)@.tasks == without_id(old(self)@.tasks, id),
            r is Err <==> id_absent(old(self)@.tasks, id),
            r is Err ==> r == Err::<(), CliError>(CliError::NoSuchTask(id)) && final(self)@ == old(self)@,
    {
        let mut rest: Vec<Task> = Vec::new();
        std::mem::swap(&mut rest, &mut self.tasks);
        let ghost orig = old(self)@.tasks;
        let ghost n = orig.len();
        let mut kept: Vec<Task> = Vec::new();
        let mut found = false;
        assert(rest@.map_values(|t: Task| t@) =~= orig.skip(0));
        assert(orig.take(0) =~= Seq::<TaskView>::empty());
        while rest.len() > 0
            invariant
                self.date == old(self).date,
                n == orig.len(),
                rest@.len() <= n,
                rest@.map_values(|t: Task| t@) =~= orig.skip(n - rest@.len()),
                kept@.map_values(|t: Task| t@) == without_id(orig.take(n - rest@.len()), id),
                found <==> !id_absent(orig.take(n - rest@.len()), id),
                !found ==> kept@.map_values(|t: Task| t@) == orig.take(n - rest@.len()),
            decreases rest@.len(),
        {
            let ghost i = n - rest@.len();
            let ghost r0 = rest@;
            assert(r0.map_values(|t: Task| t@)[0] == orig.skip(i)[0]);
            let t = rest.remove(0);
            assert(t@ == orig[i]);
            assert forall|k: int| 0 <= k < rest@.len() implies (#[trigger] rest@[k])@ == orig[i + 1 + k] by {
                assert(rest@[k] == r0[k + 1]);
                assert(r0.map_values(|t: Task| t@)[k + 1] == orig.skip(i)[k + 1]);
            }
            assert(rest@.map_values(|t: Task| t@) =~= orig.skip(i + 1));
            assert(orig.take(i + 1).drop_last() =~= orig.take(i));
            assert(orig.take(i + 1).last() == orig[i]);
            if t.id == id {
                found = true;
                assert(orig.take(i + 1)[i] == orig[i]);
            } else {
                let ghost before = kept@.map_values(|t: Task| t@);
                kept.push(t);
                assert(kept@.map_values(|t: Task| t@) =~= before.push(orig[i]));
                assert(!found ==> before.push(orig[i]) =~= orig.take(i + 1));
                assert(found ==> exists|k: int| 0 <= k < i && (#[trigger] orig.take(i)[k]).id == id);
                assert(found ==> !id_absent(orig.take(i + 1), id)) by {
                    if found {
                        let k = choose|k: int| 0 <= k < i && (#[trigger] orig.take(i)[k]).id == id;
                        assert(orig.take(i + 1)[k] == orig.take(i)[k]);
                    }
                }
                assert(!found ==> id_absent(orig.take(i + 1), id)) by {
                    if !found {
                        assert forall|k: int| 0 <= k < i + 1 implies (#[trigger] orig.take(i + 1)[k]).id != id by {
                            if k < i {
                                assert(orig.take(i + 1)[k] == orig.take(i)[k]);
                            }
                        }
                    }
                }
            }
        }
        assert(orig.take(n as int) =~= orig);
        self.tasks = kept;
        if !found {
            Err(CliError::NoSuchTask(id))
        } else {
            Ok(())
        }
    }

    /// One line typed at the first-run prompt: a blank line is skipped, `done`
    /// or `finish` (any ASCII case, surrounding whitespace ignored) ends the
    /// prompt, anything else is appended, trimmed, as an open task under the
    /// next id.
    pub fn take_task_line(&mut self, line: &str) -> (r: LineOutcome)
        requires
            line_adds_task(line@) ==> id_available(old(self)@.tasks),
        ensures
            trimmed(line@).len() == 0 ==> r == LineOutcome::Blank && final(self)@ == old(self)@,
            trimmed(line@).len() > 0 && is_finish_word(trimmed(line@)) ==> r == LineOutcome::Finished
                && final(self)@ == old(self)@,
            line_adds_task(line@) ==> r == LineOutcome::Added(next_id_of(old(self)@.tasks))
                && final(self)@ == (AppStateView {
                date: old(self)@.date,
                tasks: appended(old(self)@.tasks, trimmed(line@)),
            }),
    {
        let t = trim(line);
        if t.is_empty() {
            return LineOutcome::Blank;
        }
        let done_word = vec!['d', 'o', 'n', 'e'];
        let finish_word = vec!['f', 'i', 'n', 'i', 's', 'h'];
        if folds_to_word(t, &done_word) || folds_to_word(t, &finish_word) {
            assert(done_word@ =~= seq!['d', 'o', 'n', 'e']);
            assert(finish_word@ =~= seq!['f', 'i', 'n', 'i', 's', 'h']);
            return LineOutcome::Finished;
        }
        assert(done_word@ =~= seq!['d', 'o', 'n', 'e']);
        assert(finish_word@ =~= seq!['f', 'i', 'n', 'i', 's', 'h']);
        let id = self.next_id();
        self.push_new(id, t);
        LineOutcome::Added(id)
    }
}


impl AppState {
    /// Puts a new open task `title` at position `pos` and renumbers the list
    /// (the list screen's `a`).
    pub fn insert_task(&mut self, pos: usize, title: String)
        requires
            pos <= old(self)@.tasks.len(),
            id_available(old(self)@.tasks),
        ensures
            final(self)@ == (AppStateView {
                date: old(self)@.date,
                tasks: inserted(old(self)@.tasks, pos as int, title@),
            }),
    {
        let id = self.next_id();
        let ghost t = title@;
        self.tasks.insert(pos, Task { id, title, done: false, prioritized: false });
        assert(self@.tasks =~= old(self)@.tasks.insert(pos as int, new_task(id, t)));
        self.renumber_ids();
    }

    /// Removes task `i` and renumbers the list (the list screen's `d`).
    pub fn remove_task(&mut self, i: usize)
        requires
            i < old(self)@.tasks.len(),
        ensures
            final(self)@ == (AppStateView {
                date: old(self)@.date,
                tasks: renumbered(old(self)@.tasks.remove(i as int)),
            }),
    {
        self.tasks.remove(i);
        assert(self@.tasks =~= old(self)@.tasks.remove(i as int));
        self.renumber_ids();
    }

    /// Moves task `i` to the top, makes it the only pinned task and renumbers
    /// the list (the list screen's `p`).
    pub fn pin_task(&mut self, i: usize)
        requires
            i < old(self)@.tasks.len(),
        ensures
            final(self)@ == (AppStateView {
                date: old(self)@.date,
                tasks: pinned(old(self)@.tasks, i as int),
            }),
    {
        let ghost s0 = old(self)@.tasks;
        if i > 0 {
            let task = self.tasks.remove(i);
            self.tasks.insert(0, task);
        }
        let ghost moved = self@.tasks;
        assert(moved =~= moved_to_front(s0, i as int));
        let n = self.tasks.len();
        let mut k: usize = 0;
        while k < n
            invariant
                n == self.tasks@.len(),
                n == moved.len(),
                k <= n,
                self.date@ == old(self)@.date,
                forall|j: int| 0 <= j < k ==> (#[trigger] self.tasks@[j])@ == (TaskView {
                    id: moved[j].id,
                    title: moved[j].title,
                    done: moved[j].done,
                    prioritized: false,
                }),
                forall|j: int| k <= j < n ==> (#[trigger] self.tasks@[j])@ == moved[j],
            decreases n - k,
        {
            self.tasks[k].prioritized = false;
            k = k + 1;
        }
        self.tasks[0].prioritized = true;
        assert(self@.tasks =~= pin_first(moved));
        self.renumber_ids();
    }

    /// Flips the done mark of task `i` (the list screen's space or enter).
    pub fn toggle_done(&mut self, i: usize)
        requires
            i < old(self)@.tasks.len(),
        ensures
            final(self)@ == (AppStateView {
                date: old(self)@.date,
                tasks: toggled(old(self)@.tasks, i as int),
            }),
    {
        let d = self.tasks[i].done;
        self.tasks[i].done = !d;
        assert(self@.tasks =~= toggled(old(self)@.tasks, i as int));
    }
}

} // verus!
