//! What holds of the list across its operations.

use vstd::prelude::*;
use crate::state::{
    TaskView, max_id, id_available, id_absent, renumbered, appended, without_id,
    toggled, pinned, inserted, next_id_of, new_task, moved_to_front, pin_first, lemma_max_id_bounds,
};
use crate::rollover::{carried, bar_fill, bar_string, bar_width, open_titles, done_count};
use vstd::arithmetic::div_mod::lemma_div_is_ordered;
use vstd::arithmetic::mul::lemma_mul_inequality;
use crate::cli::{normalized, single_dash_reset, double_dash_reset};
use crate::text::{trimmed, leading_ws, trailing_ws, is_white_space};
use crate::clock::{is_local_date_of, date_day_number, day_of_instant};
use crate::ui::{ui_step, ModeView, Key, UiAction};

verus! {

/// A new id is not the id of any task already in the list.
pub proof fn lemma_next_id_is_fresh(s: Seq<TaskView>)
    requires
        id_available(s),
    ensures
        id_absent(s, next_id_of(s)),
{
    lemma_max_id_bounds(s);
}

/// After renumbering, each task's id is its row number (counting from 1), so
/// the next new task gets the id one past the last row.
pub proof fn lemma_renumbered_ids_are_rows(s: Seq<TaskView>)
    requires
        s.len() < u64::MAX,
    ensures
        forall|i: int| 0 <= i < s.len() ==> (#[trigger] renumbered(s)[i]).id == i + 1,
        max_id(renumbered(s)) == s.len(),
        next_id_of(renumbered(s)) == s.len() + 1,
    decreases s.len(),
{
    if s.len() > 0 {
        lemma_renumbered_ids_are_rows(s.drop_last());
        assert(renumbered(s).drop_last() =~= renumbered(s.drop_last()));
    }
}

/// Renumbering twice is renumbering once.
pub proof fn lemma_renumber_idempotent(s: Seq<TaskView>)
    ensures
        renumbered(renumbered(s)) == renumbered(s),
{
    assert(renumbered(renumbered(s)) =~= renumbered(s));
}

/// Deleting an id that no task has leaves the list as it is.
pub proof fn lemma_delete_absent_id(s: Seq<TaskView>, id: u64)
    requires
        id_absent(s, id),
    ensures
        without_id(s, id) == s,
    decreases s.len(),
{
    if s.len() > 0 {
        assert(id_absent(s.drop_last(), id)) by {
            assert forall|k: int| 0 <= k < s.drop_last().len() implies (#[trigger] s.drop_last()[k]).id != id by {
                assert(s.drop_last()[k] == s[k]);
            }
        }
        lemma_delete_absent_id(s.drop_last(), id);
        assert(s.last() == s[s.len() - 1]);
        assert(s.drop_last().push(s.last()) =~= s);
    }
}

/// After a delete no task has the deleted id, and no task is added.
pub proof fn lemma_delete_removes_id(s: Seq<TaskView>, id: u64)
    ensures
        id_absent(without_id(s, id), id),
        without_id(s, id).len() <= s.len(),
    decreases s.len(),
{
    if s.len() > 0 {
        lemma_delete_removes_id(s.drop_last(), id);
        let w = without_id(s.drop_last(), id);
        if s.last().id != id {
            assert forall|k: int| 0 <= k < w.push(s.last()).len() implies (#[trigger] w.push(s.last())[k]).id != id by {
                if k < w.len() {
                    assert(w.push(s.last())[k] == w[k]);
                }
            }
        }
    }
}

/// Deleting the id that an add returned takes the list back to what it was
/// before the add.
pub proof fn lemma_delete_undoes_add(s: Seq<TaskView>, title: Seq<char>)
    requires
        id_available(s),
    ensures
        without_id(appended(s, title), next_id_of(s)) == s,
{
    let a = appended(s, title);
    assert(a.drop_last() =~= s);
    lemma_next_id_is_fresh(s);
    lemma_delete_absent_id(s, next_id_of(s));
}

/// Adding from the list screen puts one task, with the typed title, open and
/// not pinned, at the chosen row; the rows before and after it keep their
/// tasks in order, and ids are row numbers again.
pub proof fn lemma_insert_shape(s: Seq<TaskView>, p: int, title: Seq<char>)
    requires
        0 <= p <= s.len(),
    ensures
        inserted(s, p, title).len() == s.len() + 1,
        inserted(s, p, title)[p].title == title,
        !inserted(s, p, title)[p].done && !inserted(s, p, title)[p].prioritized,
        forall|k: int|
            0 <= k < p ==> (#[trigger] inserted(s, p, title)[k]).title == s[k].title
                && inserted(s, p, title)[k].done == s[k].done
                && inserted(s, p, title)[k].prioritized == s[k].prioritized,
        forall|k: int|
            p < k <= s.len() ==> (#[trigger] inserted(s, p, title)[k]).title == s[k - 1].title
                && inserted(s, p, title)[k].done == s[k - 1].done
                && inserted(s, p, title)[k].prioritized == s[k - 1].prioritized,
        forall|k: int| 0 <= k <= s.len() ==> (#[trigger] inserted(s, p, title)[k]).id == (k + 1) as u64,
{
}

/// Toggling a task twice gives back the list.
pub proof fn lemma_toggle_twice(s: Seq<TaskView>, i: int)
    requires
        0 <= i < s.len(),
    ensures
        toggled(toggled(s, i), i) == s,
{
    assert(toggled(toggled(s, i), i) =~= s);
}

/// Pinning task `i` keeps the number of tasks, puts task `i` first as the only
/// pinned task, and keeps the other tasks in their order.
pub proof fn lemma_pin_shape(s: Seq<TaskView>, i: int)
    requires
        0 <= i < s.len(),
    ensures
        pinned(s, i).len() == s.len(),
        pinned(s, i)[0].title == s[i].title,
        pinned(s, i)[0].done == s[i].done,
        pinned(s, i)[0].prioritized,
        forall|k: int| 1 <= k < s.len() ==> !(#[trigger] pinned(s, i)[k]).prioritized,
        forall|k: int|
            1 <= k < s.len() ==> (#[trigger] pinned(s, i)[k]).title == s.remove(i)[k - 1].title
                && pinned(s, i)[k].done == s.remove(i)[k - 1].done,
{
    let m = moved_to_front(s, i);
    assert(m.len() == s.len());
    assert(m[0] == s[i]);
    assert forall|k: int| 1 <= k < s.len() implies (#[trigger] m[k]) == s.remove(i)[k - 1] by {}
    assert(pin_first(m).len() == s.len());
}

/// The tasks carried over from an earlier day are open, not pinned, and get
/// their ids when the new list is renumbered; there are never more of them
/// than titles offered.
pub proof fn lemma_carried_are_open(titles: Seq<Seq<char>>, checked: Seq<bool>)
    ensures
        carried(titles, checked).len() <= titles.len(),
        forall|k: int|
            0 <= k < carried(titles, checked).len() ==> !(#[trigger] carried(titles, checked)[k]).done
                && !carried(titles, checked)[k].prioritized && carried(titles, checked)[k].id == 0,
    decreases titles.len(),
{
    if titles.len() > 0 && checked.len() > 0 {
        lemma_carried_are_open(titles.drop_last(), checked.drop_last());
        let c = carried(titles.drop_last(), checked.drop_last());
        if checked.last() {
            assert forall|k: int| 0 <= k < c.push(crate::state::new_task(0, titles.last())).len() implies
                !(#[trigger] c.push(crate::state::new_task(0, titles.last()))[k]).done by {
                if k < c.len() {
                    assert(c.push(crate::state::new_task(0, titles.last()))[k] == c[k]);
                }
            }
        }
    }
}

/// Spelling `-reset` as `--reset` a second time changes nothing.
pub proof fn lemma_normalize_idempotent(args: Seq<Seq<char>>)
    ensures
        normalized(normalized(args)) == normalized(args),
{
    assert(crate::cli::double_dash_reset() != crate::cli::single_dash_reset()) by {
        assert(crate::cli::double_dash_reset().len() != crate::cli::single_dash_reset().len());
    }
    assert(normalized(normalized(args)) =~= normalized(args));
}

/// Every task's id is its row number, counting from 1.
pub open spec fn ids_are_rows(s: Seq<TaskView>) -> bool {
    forall|i: int| 0 <= i < s.len() ==> (#[trigger] s[i]).id == (i + 1) as u64
}

/// At most one task is pinned.
pub open spec fn at_most_one_pinned(s: Seq<TaskView>) -> bool {
    forall|i: int, j: int|
        0 <= i < s.len() && 0 <= j < s.len() && (#[trigger] s[i]).prioritized
            && (#[trigger] s[j]).prioritized ==> i == j
}

proof fn lemma_renumbered_keeps_pins(s: Seq<TaskView>)
    ensures
        ids_are_rows(renumbered(s)),
        at_most_one_pinned(s) ==> at_most_one_pinned(renumbered(s)),
{
}

/// Whatever key is pressed on the list screen, a list whose ids are its row
/// numbers and with at most one pinned task stays so (every add, delete and pin
/// renumbers; a toggle changes neither ids nor pins). Such a list, shorter
/// than `u64::MAX`, also meets `UiState::handle_key`'s need of a fresh id, so
/// the key can always be handled. That the key leaves the date alone is part
/// of `UiState::handle_key`'s contract.
pub proof fn lemma_list_screen_keeps_rows_and_one_pin(
    s: Seq<TaskView>,
    mode: ModeView,
    selected: Option<usize>,
    key: Key,
)
    requires
        ids_are_rows(s),
        at_most_one_pinned(s),
    ensures
        ids_are_rows(ui_step(s, mode, selected, key).tasks),
        at_most_one_pinned(ui_step(s, mode, selected, key).tasks),
        s.len() < u64::MAX ==> id_available(s),
{
    if s.len() < u64::MAX {
        lemma_rows_leave_an_id(s);
    }
    // Deleting a task keeps at most one pin.
    assert forall|i: int| 0 <= i < s.len() implies at_most_one_pinned(#[trigger] s.remove(i)) by {
        let r = s.remove(i);
        assert forall|a: int, b: int|
            0 <= a < r.len() && 0 <= b < r.len() && (#[trigger] r[a]).prioritized
                && (#[trigger] r[b]).prioritized implies a == b by {
            let a0 = if a < i { a } else { a + 1 };
            let b0 = if b < i { b } else { b + 1 };
            assert(r[a] == s[a0]);
            assert(r[b] == s[b0]);
        }
    }
    // Putting in a new, unpinned task keeps at most one pin.
    assert forall|p: int, x: TaskView| 0 <= p <= s.len() && !x.prioritized implies at_most_one_pinned(
        #[trigger] s.insert(p, x),
    ) by {
        let r = s.insert(p, x);
        assert forall|a: int, b: int|
            0 <= a < r.len() && 0 <= b < r.len() && (#[trigger] r[a]).prioritized
                && (#[trigger] r[b]).prioritized implies a == b by {
            assert(a != p && b != p);
            let a0 = if a < p { a } else { a - 1 };
            let b0 = if b < p { b } else { b - 1 };
            assert(r[a] == s[a0]);
            assert(r[b] == s[b0]);
        }
    }
    // Toggling changes neither ids nor pins.
    assert forall|i: int| 0 <= i < s.len() implies ids_are_rows(#[trigger] toggled(s, i))
        && at_most_one_pinned(toggled(s, i)) by {
        let r = toggled(s, i);
        assert forall|a: int| 0 <= a < r.len() implies (#[trigger] r[a]).id == (a + 1) as u64 by {
            assert(r[a].id == s[a].id);
        }
        assert forall|a: int, b: int|
            0 <= a < r.len() && 0 <= b < r.len() && (#[trigger] r[a]).prioritized
                && (#[trigger] r[b]).prioritized implies a == b by {
            assert(r[a].prioritized == s[a].prioritized);
            assert(r[b].prioritized == s[b].prioritized);
        }
    }
    // Pinning leaves only the first task pinned.
    assert forall|i: int| 0 <= i < s.len() implies at_most_one_pinned(#[trigger] pinned(s, i)) by {
        lemma_pin_shape(s, i);
    }
    assert forall|i: int| 0 <= i < s.len() implies ids_are_rows(#[trigger] pinned(s, i)) by {
        lemma_renumbered_keeps_pins(pin_first(moved_to_front(s, i)));
    }
    assert forall|i: int| 0 <= i < s.len() implies ids_are_rows(#[trigger] renumbered(s.remove(i)))
        && at_most_one_pinned(renumbered(s.remove(i))) by {
        lemma_renumbered_keeps_pins(s.remove(i));
    }
    assert forall|p: int, title: Seq<char>| 0 <= p <= s.len() implies ids_are_rows(
        #[trigger] inserted(s, p, title),
    ) && at_most_one_pinned(inserted(s, p, title)) by {
        let x = crate::state::new_task(next_id_of(s), title);
        assert(at_most_one_pinned(s.insert(p, x)));
        lemma_renumbered_keeps_pins(s.insert(p, x));
    }
}

/// A list whose ids are its row numbers, shorter than `u64::MAX`, always has
/// a fresh id: its greatest id is its length, so adding a task from the list
/// screen or the command line never overflows.
pub proof fn lemma_rows_leave_an_id(s: Seq<TaskView>)
    requires
        ids_are_rows(s),
        s.len() < u64::MAX,
    ensures
        max_id(s) == s.len(),
        id_available(s),
        next_id_of(s) == s.len() + 1,
    decreases s.len(),
{
    if s.len() > 0 {
        assert(ids_are_rows(s.drop_last())) by {
            assert forall|i: int| 0 <= i < s.drop_last().len() implies (#[trigger] s.drop_last()[i]).id == (i + 1) as u64 by {
                assert(s.drop_last()[i] == s[i]);
            }
        }
        lemma_rows_leave_an_id(s.drop_last());
        assert(s.last().id == s.len());
    }
}

/// A higher percentage never fills fewer cells of the completion bar: every
/// cell full at `p1` is full at `p2 >= p1`, and both bars are as long, the
/// clamped width plus the two caps.
pub proof fn lemma_bar_fill_monotone(p1: u16, p2: u16, width: usize)
    requires
        p1 <= p2,
    ensures
        bar_fill(p1, bar_width(width)) <= bar_fill(p2, bar_width(width)),
        bar_string(bar_width(width), bar_fill(p1, bar_width(width))).len() == bar_width(width) + 2,
        bar_string(bar_width(width), bar_fill(p2, bar_width(width))).len() == bar_width(width) + 2,
        forall|i: int|
            1 <= i <= bar_width(width) && #[trigger] bar_string(bar_width(width), bar_fill(p1, bar_width(width)))[i]
                == '\u{2588}' ==> bar_string(bar_width(width), bar_fill(p2, bar_width(width)))[i] == '\u{2588}',
{
    let w = bar_width(width);
    lemma_mul_inequality(p1 as int, p2 as int, w as int);
    lemma_div_is_ordered(p1 * w, p2 * w, 100);
    let b1 = bar_string(w, bar_fill(p1, w));
    let b2 = bar_string(w, bar_fill(p2, w));
    assert forall|i: int| 1 <= i <= w && #[trigger] b1[i] == '\u{2588}' implies b2[i] == '\u{2588}' by {
        assert(b1[i] == Seq::new(w, |k: int| if k < bar_fill(p1, w) { '\u{2588}' } else { '\u{2591}' })[i - 1]);
        assert(b2[i] == Seq::new(w, |k: int| if k < bar_fill(p2, w) { '\u{2588}' } else { '\u{2591}' })[i - 1]);
    }
}

/// Dates read at instants three days or more apart differ, and the later
/// instant has the later date: `today_string` (through `local_date_at`) moves on
/// with the clock, so a new day is always noticed.
pub proof fn lemma_local_dates_advance(s1: Seq<char>, t1: int, s2: Seq<char>, t2: int)
    requires
        is_local_date_of(s1, t1),
        is_local_date_of(s2, t2),
        t2 >= t1 + 3 * 86400,
    ensures
        date_day_number(s2) > date_day_number(s1),
        s1 != s2,
{
    let o1 = choose|off: int| -86400 < off < 86400 && date_day_number(s1) == #[trigger] day_of_instant(t1, off);
    let o2 = choose|off: int| -86400 < off < 86400 && date_day_number(s2) == #[trigger] day_of_instant(t2, off);
    let a = t1 + o1;
    let b = t2 + o2;
    assert(a + 86400 <= b);
    assert((a + 86400) / 86400 == a / 86400 + 1) by (nonlinear_arith);
    lemma_div_is_ordered(a + 86400, b, 86400);
}

/// Number of elements of `s` that satisfy `p`.
pub open spec fn count_where<A>(s: Seq<A>, p: spec_fn(A) -> bool) -> nat
    decreases s.len(),
{
    if s.len() == 0 {
        0
    } else {
        count_where(s.drop_last(), p) + if p(s.last()) {
            1nat
        } else {
            0nat
        }
    }
}

/// Every element satisfies `p` or not: the two counts add up to the length.
pub proof fn lemma_count_split<A>(s: Seq<A>, p: spec_fn(A) -> bool)
    ensures
        count_where(s, p) + count_where(s, |x: A| !p(x)) == s.len(),
    decreases s.len(),
{
    if s.len() > 0 {
        lemma_count_split(s.drop_last(), p);
    }
}

/// Toggling row `i` flips its done mark and nothing else: the other rows, and
/// the id, title and pin of row `i`, stay as they were.
pub proof fn lemma_toggle_changes_only_its_row(s: Seq<TaskView>, i: int)
    requires
        0 <= i < s.len(),
    ensures
        toggled(s, i).len() == s.len(),
        forall|k: int| 0 <= k < s.len() && k != i ==> #[trigger] toggled(s, i)[k] == s[k],
        toggled(s, i)[i].done == !s[i].done,
        toggled(s, i)[i].id == s[i].id,
        toggled(s, i)[i].title == s[i].title,
        toggled(s, i)[i].prioritized == s[i].prioritized,
{
}

/// Renumbering changes ids only: every row keeps its title, done mark and pin.
pub proof fn lemma_renumber_keeps_tasks(s: Seq<TaskView>)
    ensures
        renumbered(s).len() == s.len(),
        forall|k: int|
            0 <= k < s.len() ==> (#[trigger] renumbered(s)[k]).title == s[k].title
                && renumbered(s)[k].done == s[k].done && renumbered(s)[k].prioritized
                == s[k].prioritized,
{
}

/// Removing row `i` from the list screen keeps every other task, in order,
/// with its title, done mark and pin; ids become row numbers again.
pub proof fn lemma_remove_keeps_others(s: Seq<TaskView>, i: int)
    requires
        0 <= i < s.len(),
    ensures
        renumbered(s.remove(i)).len() == s.len() - 1,
        forall|k: int|
            0 <= k < i ==> (#[trigger] renumbered(s.remove(i))[k]).title == s[k].title
                && renumbered(s.remove(i))[k].done == s[k].done
                && renumbered(s.remove(i))[k].prioritized == s[k].prioritized,
        forall|k: int|
            i <= k < s.len() - 1 ==> (#[trigger] renumbered(s.remove(i))[k]).title == s[k + 1].title
                && renumbered(s.remove(i))[k].done == s[k + 1].done
                && renumbered(s.remove(i))[k].prioritized == s[k + 1].prioritized,
{
}

/// Adding a task appends exactly one open, unpinned task with the given title
/// under the next id; every earlier task stays as it was.
pub proof fn lemma_append_keeps_others(s: Seq<TaskView>, title: Seq<char>)
    ensures
        appended(s, title).len() == s.len() + 1,
        forall|k: int| 0 <= k < s.len() ==> #[trigger] appended(s, title)[k] == s[k],
        appended(s, title)[s.len() as int].title == title,
        appended(s, title)[s.len() as int].id == next_id_of(s),
        !appended(s, title)[s.len() as int].done,
        !appended(s, title)[s.len() as int].prioritized,
{
}

/// A delete keeps every task whose id differs, in order, and only those: the
/// kept task at row `j` lands at the number of kept tasks before it, and the
/// list loses exactly the tasks that have the id.
pub proof fn lemma_delete_keeps_the_rest(s: Seq<TaskView>, id: u64)
    ensures
        without_id(s, id).len() == count_where(s, |t: TaskView| t.id != id),
        without_id(s, id).len() == s.len() - count_where(s, |t: TaskView| t.id == id),
        forall|j: int|
            0 <= j < s.len() && s[j].id != id ==> {
                let at = count_where(s.take(j), |t: TaskView| t.id != id) as int;
                &&& 0 <= at < without_id(s, id).len()
                &&& without_id(s, id)[at] == #[trigger] s[j]
            },
    decreases s.len(),
{
    let keep = |t: TaskView| t.id != id;
    let hit = |t: TaskView| t.id == id;
    lemma_count_split(s, hit);
    assert(count_where(s, |x: TaskView| !hit(x)) == count_where(s, keep)) by {
        lemma_count_same(s, |x: TaskView| !hit(x), keep);
    }
    if s.len() > 0 {
        let s0 = s.drop_last();
        lemma_delete_keeps_the_rest(s0, id);
        let w0 = without_id(s0, id);
        let w = without_id(s, id);
        assert forall|j: int| 0 <= j < s.len() && s[j].id != id implies {
            let at = count_where(s.take(j), keep) as int;
            &&& 0 <= at < w.len()
            &&& w[at] == #[trigger] s[j]
        } by {
            if j < s.len() - 1 {
                assert(s.take(j) =~= s0.take(j));
                assert(s0[j] == s[j]);
            } else {
                assert(s.take(j) =~= s0);
            }
        }
    }
}

/// Two predicates that agree everywhere count alike.
pub proof fn lemma_count_same<A>(s: Seq<A>, p: spec_fn(A) -> bool, q: spec_fn(A) -> bool)
    requires
        forall|x: A| #[trigger] p(x) == q(x),
    ensures
        count_where(s, p) == count_where(s, q),
    decreases s.len(),
{
    if s.len() > 0 {
        lemma_count_same(s.drop_last(), p, q);
    }
}

/// `y` carries exactly the checked titles, in order: the checked title at row
/// `j` lands at the number of checks before it, as an open, unpinned task,
/// and as many tasks are carried as there are checks.
pub proof fn lemma_carry_takes_exactly_the_checked(titles: Seq<Seq<char>>, checked: Seq<bool>)
    requires
        titles.len() == checked.len(),
    ensures
        carried(titles, checked).len() == count_where(checked, |b: bool| b),
        forall|j: int|
            0 <= j < titles.len() && #[trigger] checked[j] ==> {
                let at = count_where(checked.take(j), |b: bool| b) as int;
                &&& 0 <= at < carried(titles, checked).len()
                &&& carried(titles, checked)[at] == new_task(0, titles[j])
            },
    decreases titles.len(),
{
    if titles.len() > 0 {
        let t0 = titles.drop_last();
        let c0 = checked.drop_last();
        lemma_carry_takes_exactly_the_checked(t0, c0);
        let r = carried(titles, checked);
        assert forall|j: int| 0 <= j < titles.len() && #[trigger] checked[j] implies {
            let at = count_where(checked.take(j), |b: bool| b) as int;
            &&& 0 <= at < r.len()
            &&& r[at] == new_task(0, titles[j])
        } by {
            if j < titles.len() - 1 {
                assert(checked.take(j) =~= c0.take(j));
                assert(c0[j] == checked[j]);
                assert(t0[j] == titles[j]);
            } else {
                assert(checked.take(j) =~= c0);
            }
        }
    }
}

/// The carry-over screen offers exactly the open tasks' titles, in order: the
/// title of an open task at row `j` sits at the number of open tasks before
/// it, and there are as many titles as open tasks; done and open tasks
/// together make up the list.
pub proof fn lemma_offers_exactly_the_open(s: Seq<TaskView>)
    ensures
        open_titles(s).len() == count_where(s, |t: TaskView| !t.done),
        done_count(s) == count_where(s, |t: TaskView| t.done),
        done_count(s) + open_titles(s).len() == s.len(),
        forall|j: int|
            0 <= j < s.len() && !(#[trigger] s[j]).done ==> {
                let at = count_where(s.take(j), |t: TaskView| !t.done) as int;
                &&& 0 <= at < open_titles(s).len()
                &&& open_titles(s)[at] == s[j].title
            },
    decreases s.len(),
{
    lemma_count_split(s, |t: TaskView| t.done);
    if s.len() > 0 {
        let s0 = s.drop_last();
        lemma_offers_exactly_the_open(s0);
        let r = open_titles(s);
        assert forall|j: int| 0 <= j < s.len() && !(#[trigger] s[j]).done implies {
            let at = count_where(s.take(j), |t: TaskView| !t.done) as int;
            &&& 0 <= at < r.len()
            &&& r[at] == s[j].title
        } by {
            if j < s.len() - 1 {
                assert(s.take(j) =~= s0.take(j));
                assert(s0[j] == s[j]);
            } else {
                assert(s.take(j) =~= s0);
            }
        }
    }
}

proof fn lemma_leading_ws_facts(s: Seq<char>)
    ensures
        leading_ws(s) <= s.len(),
        forall|i: int| 0 <= i < leading_ws(s) ==> is_white_space(#[trigger] s[i]),
        leading_ws(s) < s.len() ==> !is_white_space(s[leading_ws(s) as int]),
    decreases s.len(),
{
    if s.len() > 0 && is_white_space(s[0]) {
        let r = s.drop_first();
        lemma_leading_ws_facts(r);
        assert forall|i: int| 0 <= i < leading_ws(s) implies is_white_space(#[trigger] s[i]) by {
            if i > 0 {
                assert(s[i] == r[i - 1]);
            }
        }
        if leading_ws(s) < s.len() {
            assert(s[leading_ws(s) as int] == r[leading_ws(r) as int]);
        }
    }
}

proof fn lemma_trailing_ws_facts(s: Seq<char>)
    ensures
        trailing_ws(s) <= s.len(),
        forall|i: int| s.len() - trailing_ws(s) <= i < s.len() ==> is_white_space(#[trigger] s[i]),
        trailing_ws(s) < s.len() ==> !is_white_space(s[s.len() - 1 - trailing_ws(s)]),
    decreases s.len(),
{
    if s.len() > 0 && is_white_space(s.last()) {
        let r = s.drop_last();
        lemma_trailing_ws_facts(r);
        assert forall|i: int| s.len() - trailing_ws(s) <= i < s.len() implies is_white_space(#[trigger] s[i]) by {
            if i < s.len() - 1 {
                assert(s[i] == r[i]);
            }
        }
        if trailing_ws(s) < s.len() {
            assert(s[s.len() - 1 - trailing_ws(s)] == r[r.len() - 1 - trailing_ws(r)]);
        }
    }
}

/// Trimming keeps one stretch of the text: everything before and after it is
/// whitespace, and the stretch, when not empty, starts and ends with a
/// character that is not whitespace.
pub proof fn lemma_trim_shape(s: Seq<char>)
    ensures
        leading_ws(s) + trimmed(s).len() <= s.len(),
        trimmed(s) == s.subrange(leading_ws(s) as int, (leading_ws(s) + trimmed(s).len()) as int),
        forall|i: int| 0 <= i < leading_ws(s) ==> is_white_space(#[trigger] s[i]),
        forall|i: int| leading_ws(s) + trimmed(s).len() <= i < s.len() ==> is_white_space(#[trigger] s[i]),
        trimmed(s).len() > 0 ==> !is_white_space(trimmed(s)[0]) && !is_white_space(trimmed(s).last()),
{
    let a = leading_ws(s) as int;
    lemma_leading_ws_facts(s);
    let t = s.skip(a);
    lemma_trailing_ws_facts(t);
    let m = t.len() - trailing_ws(t);
    assert(trimmed(s) =~= s.subrange(a, a + m));
    assert forall|i: int| a + m <= i < s.len() implies is_white_space(#[trigger] s[i]) by {
        assert(s[i] == t[i - a]);
    }
    if m > 0 {
        assert(trimmed(s)[0] == s[a]);
        assert(trimmed(s).last() == t[t.len() - 1 - trailing_ws(t)]);
    }
}

/// Normalizing keeps the number of arguments and the program name, turns each
/// later `-reset` into `--reset`, and leaves every other argument alone.
pub proof fn lemma_normalize_changes_only_single_dash_reset(args: Seq<Seq<char>>)
    ensures
        normalized(args).len() == args.len(),
        args.len() > 0 ==> normalized(args)[0] == args[0],
        forall|i: int|
            1 <= i < args.len() && args[i] == single_dash_reset() ==> #[trigger] normalized(args)[i]
                == double_dash_reset(),
        forall|i: int|
            0 <= i < args.len() && args[i] != single_dash_reset() ==> #[trigger] normalized(args)[i]
                == args[i],
{
}

/// While browsing a list of `n > 0` tasks with row `i` highlighted, down moves
/// the highlight one row down and up one row up, stopping at the last and the
/// first row; neither changes the list or asks for a write.
pub proof fn lemma_cursor_moves_one_row(s: Seq<TaskView>, i: usize)
    requires
        i < s.len(),
    ensures
        ui_step(s, ModeView::List, Some(i), Key::Down).selected == (if i + 1 < s.len() {
            Some((i + 1) as usize)
        } else {
            Some(i)
        }),
        ui_step(s, ModeView::List, Some(i), Key::Up).selected == (if i > 0 {
            Some((i - 1) as usize)
        } else {
            Some(i)
        }),
        ui_step(s, ModeView::List, Some(i), Key::Down).tasks == s,
        ui_step(s, ModeView::List, Some(i), Key::Up).tasks == s,
        ui_step(s, ModeView::List, Some(i), Key::Down).action == UiAction::Stay,
        ui_step(s, ModeView::List, Some(i), Key::Up).action == UiAction::Stay,
{
}

} // verus!
