//! The cards of a column, and where a card let go of lands among them.
//!
//! Where a card would land is worked out from the cards it would be put among rather than
//! from what the pointer is over, which is what keeps the answer from bouncing.

use vstd::prelude::*;

use crate::board::filter::{shows, Filter};
use crate::model::{holds_id, ids_hold, BoardState, ColumnId, TaskView};
use crate::text::{lowercase_of, trimmed};

verus! {

/// Whether a card is one of a column's, leaving out the cards being dragged.
pub open spec fn in_column(task: TaskView, status: Seq<char>, dragged: Seq<String>) -> bool {
    task.status@ == status && !holds_id(dragged, task.id@)
}

/// The cards of a column, top to bottom, leaving out the cards being dragged.
pub open spec fn column_of(tasks: Seq<TaskView>, status: Seq<char>, dragged: Seq<String>) -> Seq<
    TaskView,
>
    decreases tasks.len(),
{
    if tasks.len() == 0 {
        Seq::empty()
    } else {
        (if in_column(tasks[0], status, dragged) {
            seq![tasks[0]]
        } else {
            Seq::empty()
        }) + column_of(tasks.drop_first(), status, dragged)
    }
}

/// Where in a column the `n`th card a query shows stands, counting from 0 - or the end of the
/// column, when the query shows fewer cards than that.
pub open spec fn place_of_nth_showing(column: Seq<TaskView>, query: Seq<char>, n: int) -> int
    decreases column.len(),
{
    if column.len() == 0 {
        0
    } else if shows(query, column[0]) {
        if n == 0 {
            0
        } else {
            1 + place_of_nth_showing(column.drop_first(), query, n - 1)
        }
    } else {
        1 + place_of_nth_showing(column.drop_first(), query, n)
    }
}

/// How many cards stand in a column, filter or no filter.
pub open spec fn count_in_column(tasks: Seq<TaskView>, status: Seq<char>) -> nat
    decreases tasks.len(),
{
    if tasks.len() == 0 {
        0
    } else {
        (if tasks[0].status@ == status {
            1nat
        } else {
            0nat
        }) + count_in_column(tasks.drop_first(), status)
    }
}

/// The cards a drag leaves behind: every card it is not carrying, in the board's order.
pub open spec fn left_behind(tasks: Seq<TaskView>, ids: Seq<String>) -> Seq<TaskView>
    decreases tasks.len(),
{
    if tasks.len() == 0 {
        Seq::empty()
    } else {
        (if holds_id(ids, tasks[0].id@) {
            Seq::empty()
        } else {
            seq![tasks[0]]
        }) + left_behind(tasks.drop_first(), ids)
    }
}

/// A card moved into a column.
pub open spec fn moved_to(task: TaskView, status: ColumnId) -> TaskView {
    TaskView { status: status, ..task }
}

/// The cards a drag carries, in the board's order, each moved into the column it lands in.
pub open spec fn carried_into(tasks: Seq<TaskView>, ids: Seq<String>, status: ColumnId) -> Seq<
    TaskView,
>
    decreases tasks.len(),
{
    if tasks.len() == 0 {
        Seq::empty()
    } else {
        (if holds_id(ids, tasks[0].id@) {
            seq![moved_to(tasks[0], status)]
        } else {
            Seq::empty()
        }) + carried_into(tasks.drop_first(), ids, status)
    }
}

/// Where among `tasks` the `n`th card of a column stands, or `tasks.len()` when the column
/// has fewer cards than that.
pub open spec fn place_of_nth_in_column(tasks: Seq<TaskView>, status: Seq<char>, n: int) -> int
    decreases tasks.len(),
{
    if tasks.len() == 0 {
        0
    } else if tasks[0].status@ == status {
        if n == 0 {
            0
        } else {
            1 + place_of_nth_in_column(tasks.drop_first(), status, n - 1)
        }
    } else {
        1 + place_of_nth_in_column(tasks.drop_first(), status, n)
    }
}

/// Just past the last card of a column among `tasks`, or `None` for a column with none.
pub open spec fn past_last_in_column(tasks: Seq<TaskView>, status: Seq<char>) -> Option<int>
    decreases tasks.len(),
{
    if tasks.len() == 0 {
        None
    } else if tasks.last().status@ == status {
        Some(tasks.len() as int)
    } else {
        past_last_in_column(tasks.drop_last(), status)
    }
}

/// Where among the cards left behind a dropped run goes in: before the column's `index`th
/// card, or just past its last one, or - for a column with no cards - at the very end.
pub open spec fn drop_place(rest: Seq<TaskView>, status: Seq<char>, index: int) -> int {
    let at = place_of_nth_in_column(rest, status, index);
    if at < rest.len() {
        at
    } else {
        match past_last_in_column(rest, status) {
            Some(past) => past,
            None => rest.len() as int,
        }
    }
}

/// The board once these cards have been dropped at this place in that column.
pub open spec fn placed(tasks: Seq<TaskView>, ids: Seq<String>, status: ColumnId, index: int) -> Seq<
    TaskView,
> {
    let rest = left_behind(tasks, ids);
    let into = drop_place(rest, status@, index);
    rest.take(into) + carried_into(tasks, ids, status) + rest.skip(into)
}

proof fn lemma_column_of_step(tasks: Seq<TaskView>, status: Seq<char>, dragged: Seq<String>, i: int)
    requires
        0 <= i < tasks.len(),
    ensures
        column_of(tasks.skip(i), status, dragged) == (if in_column(tasks[i], status, dragged) {
            seq![tasks[i]]
        } else {
            Seq::empty()
        }) + column_of(tasks.skip(i + 1), status, dragged),
{
    assert(tasks.skip(i).drop_first() =~= tasks.skip(i + 1));
}

proof fn lemma_nth_showing_front(x: TaskView, rest: Seq<TaskView>, query: Seq<char>, n: int)
    ensures
        place_of_nth_showing(seq![x] + rest, query, n) == (if shows(query, x) {
            if n == 0 {
                0
            } else {
                1 + place_of_nth_showing(rest, query, n - 1)
            }
        } else {
            1 + place_of_nth_showing(rest, query, n)
        }),
{
    let s = seq![x] + rest;
    assert(s[0] == x);
    assert(s.drop_first() =~= rest);
}

/// Where a card let go of among the cards a filter is showing belongs in the column itself.
///
/// A drop is read against what is on screen: let go of above the third card showing means
/// above that card, whatever the filter is hiding between it and the one before. Let go of
/// below the last card showing means the end of the column, the same as it does with no
/// filter on - and with no filter on the two indexes are the same.
///
/// The cards being dragged are left out of the reckoning, because [`place_in`] takes them out
/// of the column before it counts places in it.
pub fn column_index_of(
    tasks: &Vec<TaskView>,
    filter: &Filter,
    status: &ColumnId,
    dragged_ids: &Vec<String>,
    showing_index: usize,
) -> (index: usize)
    ensures
        index == (if filter@.len() == 0 {
            showing_index as int
        } else {
            place_of_nth_showing(column_of(tasks@, status@, dragged_ids@), filter@, showing_index as int)
        }),
{
    if !filter.is_on() {
        return showing_index;
    }
    let ghost column = column_of(tasks@, status@, dragged_ids@);
    let mut at: usize = 0;
    let mut showing: usize = 0;
    let mut i: usize = 0;
    assert(tasks@.skip(0) =~= tasks@);
    while i < tasks.len()
        invariant
            i <= tasks.len(),
            filter@.len() > 0,
            showing <= showing_index,
            at <= i,
            column == column_of(tasks@, status@, dragged_ids@),
            place_of_nth_showing(column, filter@, showing_index as int) == at
                + place_of_nth_showing(
                column_of(tasks@.skip(i as int), status@, dragged_ids@),
                filter@,
                showing_index - showing,
            ),
        decreases tasks.len() - i,
    {
        proof {
            lemma_column_of_step(tasks@, status@, dragged_ids@, i as int);
        }
        let task = &tasks[i];
        if task.status.is(status) && !ids_hold(dragged_ids, &task.id) {
            proof {
                lemma_nth_showing_front(
                    tasks@[i as int],
                    column_of(tasks@.skip(i + 1), status@, dragged_ids@),
                    filter@,
                    showing_index - showing,
                );
            }
            if filter.matches(task) {
                if showing == showing_index {
                    return at;
                }
                showing = showing + 1;
            }
            at = at + 1;
        } else {
            assert(Seq::<TaskView>::empty() + column_of(tasks@.skip(i + 1), status@, dragged_ids@)
                =~= column_of(tasks@.skip(i + 1), status@, dragged_ids@));
        }
        i = i + 1;
    }
    at
}

/// How many cards a column holds, filter or no filter - what the board would show if the
/// query were emptied.
pub fn column_size(tasks: &Vec<TaskView>, status: &ColumnId) -> (size: usize)
    ensures
        size == count_in_column(tasks@, status@),
{
    let mut size: usize = 0;
    let mut i: usize = 0;
    assert(tasks@.skip(0) =~= tasks@);
    while i < tasks.len()
        invariant
            i <= tasks.len(),
            size <= i,
            size + count_in_column(tasks@.skip(i as int), status@) == count_in_column(
                tasks@,
                status@,
            ),
        decreases tasks.len() - i,
    {
        assert(tasks@.skip(i as int).drop_first() =~= tasks@.skip(i + 1));
        if tasks[i].status.is(status) {
            size = size + 1;
        }
        i = i + 1;
    }
    size
}

proof fn lemma_left_behind_step(tasks: Seq<TaskView>, ids: Seq<String>, status: ColumnId, i: int)
    requires
        0 <= i < tasks.len(),
    ensures
        left_behind(tasks.skip(i), ids) == (if holds_id(ids, tasks[i].id@) {
            Seq::empty()
        } else {
            seq![tasks[i]]
        }) + left_behind(tasks.skip(i + 1), ids),
        carried_into(tasks.skip(i), ids, status) == (if holds_id(ids, tasks[i].id@) {
            seq![moved_to(tasks[i], status)]
        } else {
            Seq::empty()
        }) + carried_into(tasks.skip(i + 1), ids, status),
{
    assert(tasks.skip(i).drop_first() =~= tasks.skip(i + 1));
}

fn place_of_nth_in(rest: &Vec<TaskView>, status: &ColumnId, n: usize) -> (at: usize)
    ensures
        at == place_of_nth_in_column(rest@, status@, n as int),
{
    let mut at: usize = 0;
    let mut seen: usize = 0;
    assert(rest@.skip(0) =~= rest@);
    while at < rest.len()
        invariant
            at <= rest.len(),
            seen <= n,
            place_of_nth_in_column(rest@, status@, n as int) == at + place_of_nth_in_column(
                rest@.skip(at as int),
                status@,
                n - seen,
            ),
        decreases rest.len() - at,
    {
        assert(rest@.skip(at as int).drop_first() =~= rest@.skip(at + 1));
        if rest[at].status.is(status) {
            if seen == n {
                return at;
            }
            seen = seen + 1;
        }
        at = at + 1;
    }
    at
}

fn past_last_in(rest: &Vec<TaskView>, status: &ColumnId) -> (past: Option<usize>)
    ensures
        match past {
            Some(p) => past_last_in_column(rest@, status@) == Some(p as int),
            None => past_last_in_column(rest@, status@) is None,
        },
{
    let mut j: usize = rest.len();
    assert(rest@.take(j as int) =~= rest@);
    while j > 0
        invariant
            j <= rest.len(),
            past_last_in_column(rest@, status@) == past_last_in_column(
                rest@.take(j as int),
                status@,
            ),
        decreases j,
    {
        let ghost prefix = rest@.take(j as int);
        assert(prefix.last() == rest@[j - 1]);
        if rest[j - 1].status.is(status) {
            return Some(j);
        }
        assert(prefix.drop_last() =~= rest@.take(j - 1));
        j = j - 1;
    }
    None
}

/// Make the move on the board being drawn, ahead of the server being told about it.
///
/// The carried cards are taken out in the order the board had them, which is the order they
/// go back in, each moved into the column: a drag moves a run of cards without reordering it.
pub fn place_in(tasks: &mut Vec<TaskView>, task_ids: &Vec<String>, status: &ColumnId, index: usize)
    ensures
        final(tasks)@ == placed(old(tasks)@, task_ids@, *status, index as int),
{
    let ghost all = tasks@;
    let mut rest: Vec<TaskView> = Vec::new();
    let mut moving: Vec<TaskView> = Vec::new();
    let mut i: usize = 0;
    assert(all.skip(0) =~= all);
    while i < tasks.len()
        invariant
            all == tasks@,
            i <= tasks.len(),
            rest@ + left_behind(all.skip(i as int), task_ids@) == left_behind(all, task_ids@),
            moving@ + carried_into(all.skip(i as int), task_ids@, *status) == carried_into(
                all,
                task_ids@,
                *status,
            ),
        decreases tasks.len() - i,
    {
        proof {
            lemma_left_behind_step(all, task_ids@, *status, i as int);
        }
        let task = tasks[i].duplicate();
        if ids_hold(task_ids, &task.id) {
            let moved = TaskView { status: status.duplicate(), ..task };
            let ghost before = moving@;
            moving.push(moved);
            assert(before + (seq![moved] + carried_into(all.skip(i + 1), task_ids@, *status))
                =~= moving@ + carried_into(all.skip(i + 1), task_ids@, *status));
            assert(rest@ + (Seq::<TaskView>::empty() + left_behind(all.skip(i + 1), task_ids@))
                =~= rest@ + left_behind(all.skip(i + 1), task_ids@));
        } else {
            let ghost before = rest@;
            rest.push(task);
            assert(before + (seq![task] + left_behind(all.skip(i + 1), task_ids@)) =~= rest@
                + left_behind(all.skip(i + 1), task_ids@));
            assert(moving@ + (Seq::<TaskView>::empty() + carried_into(
                all.skip(i + 1),
                task_ids@,
                *status,
            )) =~= moving@ + carried_into(all.skip(i + 1), task_ids@, *status));
        }
        i = i + 1;
    }
    assert(all.skip(tasks.len() as int).len() == 0);
    assert(rest@ =~= left_behind(all, task_ids@));
    assert(moving@ =~= carried_into(all, task_ids@, *status));

    let at = place_of_nth_in(&rest, status, index);
    let into = if at < rest.len() {
        at
    } else {
        match past_last_in(&rest, status) {
            Some(past) => past,
            None => rest.len(),
        }
    };
    proof {
        lemma_past_last_bound(rest@, status@);
    }
    assert(into == drop_place(rest@, status@, index as int));

    let mut result: Vec<TaskView> = Vec::new();
    let mut k: usize = 0;
    while k < into
        invariant
            k <= into <= rest.len(),
            result@ == rest@.take(k as int),
        decreases into - k,
    {
        result.push(rest[k].duplicate());
        k = k + 1;
        assert(result@ =~= rest@.take(k as int));
    }
    let ghost head = result@;
    let mut m: usize = 0;
    while m < moving.len()
        invariant
            m <= moving.len(),
            result@ == head + moving@.take(m as int),
        decreases moving.len() - m,
    {
        result.push(moving[m].duplicate());
        m = m + 1;
        assert(result@ =~= head + moving@.take(m as int));
    }
    assert(moving@.take(moving.len() as int) =~= moving@);
    let ghost middle = result@;
    let mut k2: usize = into;
    while k2 < rest.len()
        invariant
            into <= k2 <= rest.len(),
            result@ == middle + rest@.subrange(into as int, k2 as int),
        decreases rest.len() - k2,
    {
        result.push(rest[k2].duplicate());
        k2 = k2 + 1;
        assert(result@ =~= middle + rest@.subrange(into as int, k2 as int));
    }
    assert(rest@.subrange(into as int, rest.len() as int) =~= rest@.skip(into as int));
    *tasks = result;
}

proof fn lemma_past_last_bound(tasks: Seq<TaskView>, status: Seq<char>)
    ensures
        match past_last_in_column(tasks, status) {
            Some(p) => 0 < p <= tasks.len(),
            None => true,
        },
    decreases tasks.len(),
{
    if tasks.len() > 0 && tasks.last().status@ != status {
        lemma_past_last_bound(tasks.drop_last(), status);
    }
}


/// Whether any of these cards has this id.
pub open spec fn has_task(tasks: Seq<TaskView>, id: Seq<char>) -> bool {
    exists|k: int| 0 <= k < tasks.len() && #[trigger] tasks[k].id@ == id
}

/// The ids of the cards the board had that an answer no longer has, in the board's order.
pub open spec fn deleted_ids(before: Seq<TaskView>, after: Seq<TaskView>) -> Seq<String>
    decreases before.len(),
{
    if before.len() == 0 {
        Seq::empty()
    } else {
        (if has_task(after, before[0].id@) {
            Seq::empty()
        } else {
            seq![before[0].id]
        }) + deleted_ids(before.drop_first(), after)
    }
}

/// Where the first of a dropped run should stand in its column: where it was dropped, but no
/// further down than lets the last of the run be the column's last card.
pub open spec fn first_of_run(column_len: int, run_len: int, index: int) -> int {
    let room = if column_len >= run_len {
        column_len - run_len
    } else {
        0
    };
    if index < room {
        index
    } else {
        room
    }
}

/// Whether the `off`th card of a run stands `off` places below `first` in a column.
pub open spec fn stands_in_run(column: Seq<TaskView>, ids: Seq<String>, first: int, off: int) -> bool {
    first + off < column.len() && column[first + off].id@ == ids[off]@
}

/// Whether the first `n` cards of a run stand one under another from `first` down.
pub open spec fn run_stands(column: Seq<TaskView>, ids: Seq<String>, first: int, n: int) -> bool {
    forall|off: int| 0 <= off < n ==> #[trigger] stands_in_run(column, ids, first, off)
}

/// Whether a column has a dropped run where it was dropped, in the order it was dropped in.
pub open spec fn run_landed(column: Seq<TaskView>, ids: Seq<String>, index: int) -> bool {
    run_stands(
        column,
        ids,
        first_of_run(column.len() as int, ids.len() as int, index),
        ids.len() as int,
    )
}

proof fn lemma_run_stands_step(column: Seq<TaskView>, ids: Seq<String>, first: int, n: int)
    requires
        0 <= n,
    ensures
        run_stands(column, ids, first, n + 1) == (run_stands(column, ids, first, n)
            && stands_in_run(column, ids, first, n)),
{
    if run_stands(column, ids, first, n) && stands_in_run(column, ids, first, n) {
        assert forall|off: int| 0 <= off < n + 1 implies #[trigger] stands_in_run(
            column,
            ids,
            first,
            off,
        ) by {
            if off < n {
                assert(stands_in_run(column, ids, first, off));
            }
        }
    }
    if run_stands(column, ids, first, n + 1) {
        assert(stands_in_run(column, ids, first, n));
    }
}

pub(crate) fn has_task_in(tasks: &Vec<TaskView>, id: &String) -> (yes: bool)
    ensures
        yes == has_task(tasks@, id@),
{
    let mut k: usize = 0;
    while k < tasks.len()
        invariant
            k <= tasks.len(),
            forall|m: int| 0 <= m < k ==> tasks@[m].id@ != id@,
        decreases tasks.len() - k,
    {
        if tasks[k].id == *id {
            return true;
        }
        k = k + 1;
    }
    false
}

/// The cards of a column, top to bottom, leaving out those being dragged.
pub fn column_cards_of(tasks: &Vec<TaskView>, status: &ColumnId, dragged: &Vec<String>) -> (column:
    Vec<TaskView>)
    ensures
        column@ == column_of(tasks@, status@, dragged@),
{
    let mut column: Vec<TaskView> = Vec::new();
    let mut i: usize = 0;
    assert(tasks@.skip(0) =~= tasks@);
    while i < tasks.len()
        invariant
            i <= tasks.len(),
            column@ + column_of(tasks@.skip(i as int), status@, dragged@) == column_of(
                tasks@,
                status@,
                dragged@,
            ),
        decreases tasks.len() - i,
    {
        proof {
            lemma_column_of_step(tasks@, status@, dragged@, i as int);
        }
        let ghost before = column@;
        let ghost later = column_of(tasks@.skip(i + 1), status@, dragged@);
        if tasks[i].status.is(status) && !ids_hold(dragged, &tasks[i].id) {
            column.push(tasks[i].duplicate());
            assert(before + (seq![tasks@[i as int]] + later) =~= column@ + later);
        } else {
            assert(before + (Seq::<TaskView>::empty() + later) =~= column@ + later);
        }
        i = i + 1;
    }
    assert(tasks@.skip(tasks.len() as int).len() == 0);
    assert(column@ =~= column_of(tasks@, status@, dragged@));
    column
}

/// A task the board had and no longer has has been deleted - here, or in `.moontasks` by hand -
/// and its page goes with it. Queued rather than closed here: a pane is never closed while the
/// tree that holds it is being drawn.
///
/// Read against the answer before it rather than against the tab: a task created a moment ago
/// is in no answer yet, and a page opened on it must not be closed for the read that was
/// already on its way when it was made.
pub fn close_the_pages_of_deleted_tasks(board: &mut BoardState, tasks: &Vec<TaskView>)
    ensures
        final(board).pages_to_close@ == old(board).pages_to_close@ + deleted_ids(
            old(board).tasks@,
            tasks@,
        ),
        *final(board) == (BoardState { pages_to_close: final(board).pages_to_close, ..*old(board) }),
{
    let ghost before = board.tasks@;
    let mut deleted: Vec<String> = Vec::new();
    let mut i: usize = 0;
    assert(before.skip(0) =~= before);
    while i < board.tasks.len()
        invariant
            before == board.tasks@,
            i <= board.tasks.len(),
            deleted@ + deleted_ids(before.skip(i as int), tasks@) == deleted_ids(before, tasks@),
        decreases board.tasks.len() - i,
    {
        assert(before.skip(i as int).drop_first() =~= before.skip(i + 1));
        let ghost later = deleted_ids(before.skip(i + 1), tasks@);
        let ghost so_far = deleted@;
        if !has_task_in(tasks, &board.tasks[i].id) {
            deleted.push(board.tasks[i].id.clone());
            assert(so_far + (seq![before[i as int].id] + later) =~= deleted@ + later);
        } else {
            assert(so_far + (Seq::<String>::empty() + later) =~= deleted@ + later);
        }
        i = i + 1;
    }
    assert(before.skip(board.tasks.len() as int).len() == 0);
    assert(deleted@ =~= deleted_ids(before, tasks@));
    board.pages_to_close.append(&mut deleted);
}

/// Take a board the server has answered with, with a drop that it may not have seen yet.
///
/// A read that was already on its way when a card was dropped answers with the card where it
/// was, so the drop is made again on top of it - until an answer comes back with the card
/// where it was put, which is the server having caught up.
pub fn accept_board(board: &mut BoardState, tasks: Vec<TaskView>)
    ensures
        final(board).pages_to_close@ == old(board).pages_to_close@ + deleted_ids(
            old(board).tasks@,
            tasks@,
        ),
        match old(board).pending_place {
            None => final(board).tasks@ == tasks@ && final(board).pending_place is None,
            Some(pending) => if run_landed(
                column_of(tasks@, pending.status@, Seq::empty()),
                pending.task_ids@,
                pending.index as int,
            ) {
                final(board).tasks@ == tasks@ && final(board).pending_place is None
            } else {
                &&& final(board).tasks@ == placed(
                    tasks@,
                    pending.task_ids@,
                    pending.status,
                    pending.index as int,
                )
                &&& final(board).pending_place == old(board).pending_place
            },
        },
        *final(board) == (BoardState {
            tasks: final(board).tasks,
            pending_place: final(board).pending_place,
            pages_to_close: final(board).pages_to_close,
            ..*old(board)
        }),
{
    close_the_pages_of_deleted_tasks(board, &tasks);
    let mut tasks = tasks;
    let landed = match &board.pending_place {
        None => {
            board.tasks = tasks;
            return;
        },
        Some(pending) => {
            let nobody: Vec<String> = Vec::new();
            let column = column_cards_of(&tasks, &pending.status, &nobody);
            assert(nobody@ =~= Seq::<String>::empty());
            let run = pending.task_ids.len();
            let room = if column.len() >= run {
                column.len() - run
            } else {
                0
            };
            let first = if pending.index < room {
                pending.index
            } else {
                room
            };
            let mut landed = true;
            let mut off: usize = 0;
            while off < run
                invariant
                    run == pending.task_ids.len(),
                    first == first_of_run(column@.len() as int, run as int, pending.index as int),
                    first <= column.len(),
                    off <= run,
                    landed == run_stands(column@, pending.task_ids@, first as int, off as int),
                decreases run - off,
            {
                let ok = first + off < column.len() && column[first + off].id
                    == pending.task_ids[off];
                proof {
                    lemma_run_stands_step(column@, pending.task_ids@, first as int, off as int);
                }
                landed = landed && ok;
                off = off + 1;
            }
            if !landed {
                place_in(&mut tasks, &pending.task_ids, &pending.status, pending.index);
            }
            landed
        },
    };
    if landed {
        board.pending_place = None;
    }
    board.tasks = tasks;
}

/// Whether a run is listed the way the board has its cards: each of the ids names one card of
/// the board, in the order the board has them - as a drag gathers them.
pub open spec fn run_in_board_order(tasks: Seq<TaskView>, ids: Seq<String>, status: ColumnId) -> bool {
    let carried = carried_into(tasks, ids, status);
    &&& carried.len() == ids.len()
    &&& forall|k: int| 0 <= k < ids.len() ==> (#[trigger] carried[k]).id@ == ids[k]@
}

proof fn lemma_column_of_append(a: Seq<TaskView>, b: Seq<TaskView>, status: Seq<char>, dragged: Seq<String>)
    ensures
        column_of(a + b, status, dragged) == column_of(a, status, dragged) + column_of(b, status, dragged),
    decreases a.len(),
{
    if a.len() == 0 {
        assert(a + b =~= b);
        assert(column_of(a, status, dragged) =~= Seq::<TaskView>::empty());
        assert(column_of(a + b, status, dragged) =~= column_of(a, status, dragged) + column_of(b, status, dragged));
    } else {
        assert((a + b).drop_first() =~= a.drop_first() + b);
        assert((a + b)[0] == a[0]);
        lemma_column_of_append(a.drop_first(), b, status, dragged);
        let head: Seq<TaskView> = if in_column(a[0], status, dragged) {
            seq![a[0]]
        } else {
            Seq::empty()
        };
        assert(column_of(a + b, status, dragged) == head + column_of(a.drop_first() + b, status, dragged));
        assert(column_of(a, status, dragged) == head + column_of(a.drop_first(), status, dragged));
        assert(column_of(a + b, status, dragged) =~= column_of(a, status, dragged) + column_of(b, status, dragged));
    }
}

proof fn lemma_carried_all_in(tasks: Seq<TaskView>, ids: Seq<String>, status: ColumnId)
    ensures
        forall|k: int| 0 <= k < carried_into(tasks, ids, status).len() ==> (#[trigger] carried_into(tasks, ids, status)[k]).status == status,
    decreases tasks.len(),
{
    if tasks.len() > 0 {
        lemma_carried_all_in(tasks.drop_first(), ids, status);
        let head: Seq<TaskView> = if holds_id(ids, tasks[0].id@) {
            seq![moved_to(tasks[0], status)]
        } else {
            Seq::empty()
        };
        let c = carried_into(tasks, ids, status);
        assert(c == head + carried_into(tasks.drop_first(), ids, status));
        assert forall|k: int| 0 <= k < c.len() implies (#[trigger] c[k]).status == status by {
            if k < head.len() {
                assert(c[k] == head[k]);
            } else {
                assert(c[k] == carried_into(tasks.drop_first(), ids, status)[k - head.len()]);
            }
        }
    }
}

proof fn lemma_column_of_all_in(c: Seq<TaskView>, status: ColumnId)
    requires
        forall|k: int| 0 <= k < c.len() ==> (#[trigger] c[k]).status == status,
    ensures
        column_of(c, status@, Seq::empty()) == c,
    decreases c.len(),
{
    if c.len() > 0 {
        assert forall|k: int| 0 <= k < c.drop_first().len() implies (#[trigger] c.drop_first()[k]).status == status by {
            assert(c.drop_first()[k] == c[k + 1]);
        }
        lemma_column_of_all_in(c.drop_first(), status);
        assert(c[0].status == status);
        assert(!holds_id(Seq::<String>::empty(), c[0].id@));
        assert(in_column(c[0], status@, Seq::empty()));
        assert(column_of(c, status@, Seq::empty()) =~= seq![c[0]] + c.drop_first());
        assert(seq![c[0]] + c.drop_first() =~= c);
    }
}

/// The cards of a column, counted with the column's cards taken as they are.
proof fn lemma_count_is_column(tasks: Seq<TaskView>, status: Seq<char>)
    ensures
        column_of(tasks, status, Seq::empty()).len() == count_in_column(tasks, status),
    decreases tasks.len(),
{
    if tasks.len() > 0 {
        lemma_count_is_column(tasks.drop_first(), status);
        assert(!holds_id(Seq::<String>::empty(), tasks[0].id@));
    }
}

proof fn lemma_count_front(x: TaskView, rest: Seq<TaskView>, status: Seq<char>)
    ensures
        count_in_column(seq![x] + rest, status) == (if x.status@ == status { 1int } else { 0int })
            + count_in_column(rest, status),
{
    let s = seq![x] + rest;
    assert(s[0] == x);
    assert(s.drop_first() =~= rest);
}

proof fn lemma_count_append(a: Seq<TaskView>, b: Seq<TaskView>, status: Seq<char>)
    ensures
        count_in_column(a + b, status) == count_in_column(a, status) + count_in_column(b, status),
    decreases a.len(),
{
    if a.len() == 0 {
        assert(a + b =~= b);
    } else {
        assert((a + b).drop_first() =~= a.drop_first() + b);
        assert((a + b)[0] == a[0]);
        lemma_count_append(a.drop_first(), b, status);
    }
}

/// Where the `n`th card of a column stands: before it stand `n` of the column's cards, and it
/// is one of them - or, with fewer than `n + 1` cards in the column, the end.
proof fn lemma_nth_in_column(tasks: Seq<TaskView>, status: Seq<char>, n: int)
    requires
        0 <= n,
    ensures
        ({
            let at = place_of_nth_in_column(tasks, status, n);
            if n < count_in_column(tasks, status) {
                &&& 0 <= at < tasks.len()
                &&& count_in_column(tasks.take(at), status) == n
            } else {
                at == tasks.len()
            }
        }),
    decreases tasks.len(),
{
    if tasks.len() > 0 {
        let x = tasks[0];
        let rest = tasks.drop_first();
        assert(tasks =~= seq![x] + rest);
        lemma_count_front(x, rest, status);
        if x.status@ == status {
            if n > 0 {
                lemma_nth_in_column(rest, status, n - 1);
                let at = place_of_nth_in_column(rest, status, n - 1);
                if n < count_in_column(tasks, status) {
                    assert(tasks.take(1 + at) =~= seq![x] + rest.take(at));
                    lemma_count_front(x, rest.take(at), status);
                }
            } else {
                assert(tasks.take(0) =~= Seq::<TaskView>::empty());
            }
        } else {
            lemma_nth_in_column(rest, status, n);
            let at = place_of_nth_in_column(rest, status, n);
            if n < count_in_column(tasks, status) {
                assert(tasks.take(1 + at) =~= seq![x] + rest.take(at));
                lemma_count_front(x, rest.take(at), status);
            }
        }
    }
}

/// Just past the last card of a column, every card of the column stands before.
proof fn lemma_past_last_counts_all(tasks: Seq<TaskView>, status: Seq<char>)
    ensures
        match past_last_in_column(tasks, status) {
            Some(p) => 0 <= p <= tasks.len() && count_in_column(tasks.take(p), status) == count_in_column(tasks, status),
            None => count_in_column(tasks, status) == 0,
        },
    decreases tasks.len(),
{
    if tasks.len() > 0 {
        let front = tasks.drop_last();
        assert(tasks =~= front + seq![tasks.last()]);
        lemma_count_append(front, seq![tasks.last()], status);
        lemma_count_front(tasks.last(), Seq::empty(), status);
        assert(seq![tasks.last()] + Seq::<TaskView>::empty() =~= seq![tasks.last()]);
        if tasks.last().status@ == status {
            assert(tasks.take(tasks.len() as int) =~= tasks);
        } else {
            lemma_past_last_counts_all(front, status);
            match past_last_in_column(front, status) {
                Some(p) => {
                    assert(tasks.take(p) =~= front.take(p));
                },
                None => {},
            }
        }
    }
}

/// The cards of a column that stand above where a drop goes in are as many as the place it
/// was dropped at - or all of them, for a drop past the column's last card.
proof fn lemma_drop_place_counts(rest: Seq<TaskView>, status: Seq<char>, index: int)
    requires
        0 <= index,
    ensures
        0 <= drop_place(rest, status, index) <= rest.len(),
        count_in_column(rest.take(drop_place(rest, status, index)), status) == if index < count_in_column(rest, status) {
            index
        } else {
            count_in_column(rest, status) as int
        },
{
    lemma_nth_in_column(rest, status, index);
    lemma_past_last_counts_all(rest, status);
    let at = place_of_nth_in_column(rest, status, index);
    if !(at < rest.len()) {
        match past_last_in_column(rest, status) {
            Some(p) => {},
            None => {
                assert(rest.take(rest.len() as int) =~= rest);
            },
        }
    }
}

/// The ids of cards, in their order.
pub open spec fn card_ids(tasks: Seq<TaskView>) -> Seq<Seq<char>> {
    tasks.map_values(|t: TaskView| t.id@)
}

proof fn lemma_card_ids_append(a: Seq<TaskView>, b: Seq<TaskView>)
    ensures
        card_ids(a + b) == card_ids(a) + card_ids(b),
{
    assert(card_ids(a + b) =~= card_ids(a) + card_ids(b));
}

/// Splitting the board into what a drag leaves behind and what it carries splits its cards:
/// every card goes one way or the other, once.
proof fn lemma_split_keeps_cards(tasks: Seq<TaskView>, ids: Seq<String>, status: ColumnId)
    ensures
        card_ids(left_behind(tasks, ids)).to_multiset().add(
            card_ids(carried_into(tasks, ids, status)).to_multiset(),
        ) =~= card_ids(tasks).to_multiset(),
    decreases tasks.len(),
{
    broadcast use vstd::multiset::group_multiset_axioms;
    broadcast use vstd::seq_lib::group_to_multiset_ensures;

    if tasks.len() == 0 {
        assert(card_ids(left_behind(tasks, ids)) =~= Seq::<Seq<char>>::empty());
        assert(card_ids(carried_into(tasks, ids, status)) =~= Seq::<Seq<char>>::empty());
        assert(card_ids(tasks) =~= Seq::<Seq<char>>::empty());
    } else {
        let x = tasks[0];
        let t = tasks.drop_first();
        lemma_split_keeps_cards(t, ids, status);
        assert(tasks =~= seq![x] + t);
        lemma_card_ids_append(seq![x], t);
        assert(card_ids(seq![x]) =~= seq![x.id@]);
        vstd::seq_lib::lemma_multiset_commutative(seq![x.id@], card_ids(t));
        let one = seq![x.id@].to_multiset();
        let l = card_ids(left_behind(t, ids)).to_multiset();
        let c = card_ids(carried_into(t, ids, status)).to_multiset();
        assert(card_ids(tasks).to_multiset() =~= one.add(l.add(c)));
        if holds_id(ids, x.id@) {
            assert(left_behind(tasks, ids) =~= left_behind(t, ids));
            assert(carried_into(tasks, ids, status) =~= seq![moved_to(x, status)] + carried_into(
                t,
                ids,
                status,
            ));
            lemma_card_ids_append(seq![moved_to(x, status)], carried_into(t, ids, status));
            assert(card_ids(seq![moved_to(x, status)]) =~= seq![x.id@]);
            vstd::seq_lib::lemma_multiset_commutative(
                seq![x.id@],
                card_ids(carried_into(t, ids, status)),
            );
            assert(card_ids(carried_into(tasks, ids, status)).to_multiset() =~= one.add(c));
            assert(card_ids(left_behind(tasks, ids)).to_multiset() =~= l);
        } else {
            assert(left_behind(tasks, ids) =~= seq![x] + left_behind(t, ids));
            assert(carried_into(tasks, ids, status) =~= carried_into(t, ids, status));
            lemma_card_ids_append(seq![x], left_behind(t, ids));
            vstd::seq_lib::lemma_multiset_commutative(seq![x.id@], card_ids(left_behind(t, ids)));
            assert(card_ids(left_behind(tasks, ids)).to_multiset() =~= one.add(l));
            assert(card_ids(carried_into(tasks, ids, status)).to_multiset() =~= c);
        }
    }
}

/// A drop moves cards and does nothing else to the board: every card it had, it still has,
/// as many times as before - none lost, none made twice - wherever it was let go of.
pub proof fn law_a_drop_keeps_every_card(
    tasks: Seq<TaskView>,
    ids: Seq<String>,
    status: ColumnId,
    index: int,
)
    requires
        0 <= index,
    ensures
        card_ids(placed(tasks, ids, status, index)).to_multiset() == card_ids(tasks).to_multiset(),
{
    broadcast use vstd::multiset::group_multiset_axioms;

    let rest = left_behind(tasks, ids);
    let carried = carried_into(tasks, ids, status);
    let into = drop_place(rest, status@, index);
    lemma_drop_place_counts(rest, status@, index);
    let before = rest.take(into);
    let after = rest.skip(into);
    assert(rest =~= before + after);
    assert(placed(tasks, ids, status, index) =~= before + (carried + after));
    lemma_card_ids_append(before, carried + after);
    lemma_card_ids_append(carried, after);
    lemma_card_ids_append(before, after);
    vstd::seq_lib::lemma_multiset_commutative(card_ids(before), card_ids(carried) + card_ids(after));
    vstd::seq_lib::lemma_multiset_commutative(card_ids(carried), card_ids(after));
    vstd::seq_lib::lemma_multiset_commutative(card_ids(before), card_ids(after));
    lemma_split_keeps_cards(tasks, ids, status);
    assert(card_ids(placed(tasks, ids, status, index)).to_multiset() =~= card_ids(
        tasks,
    ).to_multiset());
}

/// A drop the board draws is a drop the board reads as landed: once the cards have been put
/// down as a run at a place in a column, the column has the run standing there, in order - so
/// an answer from the server with the cards where they were put clears the drop. (The run is
/// listed as a drag gathers it: each card of the board once, in the board's order.)
pub proof fn law_a_drop_lands_where_it_was_let_go_of(
    tasks: Seq<TaskView>,
    ids: Seq<String>,
    status: ColumnId,
    index: int,
)
    requires
        run_in_board_order(tasks, ids, status),
        0 <= index,
    ensures
        run_landed(column_of(placed(tasks, ids, status, index), status@, Seq::empty()), ids, index),
{
    let none = Seq::<String>::empty();
    let rest = left_behind(tasks, ids);
    let carried = carried_into(tasks, ids, status);
    let into = drop_place(rest, status@, index);
    lemma_drop_place_counts(rest, status@, index);
    let before = rest.take(into);
    let after = rest.skip(into);
    assert(rest =~= before + after);
    lemma_column_of_append(before, carried + after, status@, none);
    lemma_column_of_append(carried, after, status@, none);
    lemma_carried_all_in(tasks, ids, status);
    lemma_column_of_all_in(carried, status);
    assert(placed(tasks, ids, status, index) =~= before + (carried + after));
    let column = column_of(placed(tasks, ids, status, index), status@, none);
    assert(column == column_of(before, status@, none) + (carried + column_of(after, status@, none)));
    lemma_count_is_column(before, status@);
    lemma_count_is_column(after, status@);
    lemma_count_is_column(rest, status@);
    lemma_count_append(before, after, status@);
    let k = column_of(before, status@, none).len() as int;
    let c = count_in_column(rest, status@) as int;
    let r = ids.len() as int;
    assert(column.len() == c + r);
    assert(first_of_run(column.len() as int, r, index) == k);
    assert forall|off: int| 0 <= off < r implies #[trigger] stands_in_run(column, ids, k, off) by {
        assert(column[k + off] == carried[off]);
    }
}

/// The cards a column draws in their own places: its cards the query shows, leaving out those
/// being carried once they are over a column.
pub open spec fn drawn_in_place(tasks: Seq<TaskView>, status: Seq<char>, query: Seq<char>, lifted: Seq<String>) -> Seq<TaskView>
    decreases tasks.len(),
{
    if tasks.len() == 0 {
        Seq::empty()
    } else {
        (if tasks[0].status@ == status && shows(query, tasks[0]) && !holds_id(lifted, tasks[0].id@) {
            seq![tasks[0]]
        } else {
            Seq::empty()
        }) + drawn_in_place(tasks.drop_first(), status, query, lifted)
    }
}

/// The cards being carried, in the order the board holds them.
pub open spec fn carried_cards(tasks: Seq<TaskView>, ids: Seq<String>) -> Seq<TaskView>
    decreases tasks.len(),
{
    if tasks.len() == 0 {
        Seq::empty()
    } else {
        (if holds_id(ids, tasks[0].id@) {
            seq![tasks[0]]
        } else {
            Seq::empty()
        }) + carried_cards(tasks.drop_first(), ids)
    }
}

/// The cards of one column, in the order they are drawn.
pub open spec fn column_cards_spec(board: BoardState, status: Seq<char>) -> Seq<TaskView> {
    let query = lowercase_of(trimmed(board.filter@));
    let lifted: Seq<String> = match (board.landing, board.carrying) {
        (Some(_), Some(carrying)) => carrying.task_ids@,
        _ => Seq::empty(),
    };
    let in_place = drawn_in_place(board.tasks@, status, query, lifted);
    match (board.landing, board.carrying) {
        (Some(landing), Some(carrying)) => if landing.status@ == status {
            let at = if (landing.index as int) < in_place.len() {
                landing.index as int
            } else {
                in_place.len() as int
            };
            in_place.take(at) + carried_cards(board.tasks@, carrying.task_ids@) + in_place.skip(at)
        } else {
            in_place
        },
        _ => in_place,
    }
}

proof fn lemma_drawn_in_place_step(tasks: Seq<TaskView>, status: Seq<char>, query: Seq<char>, lifted: Seq<String>, i: int)
    requires
        0 <= i < tasks.len(),
    ensures
        drawn_in_place(tasks.skip(i), status, query, lifted) == (if tasks[i].status@ == status && shows(
            query,
            tasks[i],
        ) && !holds_id(lifted, tasks[i].id@) {
            seq![tasks[i]]
        } else {
            Seq::empty()
        }) + drawn_in_place(tasks.skip(i + 1), status, query, lifted),
{
    assert(tasks.skip(i).drop_first() =~= tasks.skip(i + 1));
}

proof fn lemma_carried_cards_step(tasks: Seq<TaskView>, ids: Seq<String>, i: int)
    requires
        0 <= i < tasks.len(),
    ensures
        carried_cards(tasks.skip(i), ids) == (if holds_id(ids, tasks[i].id@) {
            seq![tasks[i]]
        } else {
            Seq::empty()
        }) + carried_cards(tasks.skip(i + 1), ids),
{
    assert(tasks.skip(i).drop_first() =~= tasks.skip(i + 1));
}

/// The cards of one column, in the order they are drawn.
///
/// Cards being carried are one of a column's from the moment they are over it, and no longer
/// one of the column they came from - until the pointer has been over a column, there is
/// nowhere for them to be but where they came from. The filter is applied here, so a column
/// shows the cards that match it; the cards being carried land as a run, in the order the
/// board holds them, at the place they are held over.
pub fn column_cards(board: &BoardState, status: &ColumnId) -> (cards: Vec<TaskView>)
    ensures
        cards@ == column_cards_spec(*board, status@),
{
    let filter = Filter::of(board.filter.as_str());
    let nobody: Vec<String> = Vec::new();
    let lifted: &Vec<String> = match (&board.landing, &board.carrying) {
        (Some(_), Some(carrying)) => &carrying.task_ids,
        _ => &nobody,
    };
    let tasks = &board.tasks;
    let mut in_place: Vec<TaskView> = Vec::new();
    let mut i: usize = 0;
    assert(tasks@.skip(0) =~= tasks@);
    while i < tasks.len()
        invariant
            i <= tasks.len(),
            in_place@ + drawn_in_place(tasks@.skip(i as int), status@, filter@, lifted@) == drawn_in_place(
                tasks@,
                status@,
                filter@,
                lifted@,
            ),
        decreases tasks.len() - i,
    {
        proof {
            lemma_drawn_in_place_step(tasks@, status@, filter@, lifted@, i as int);
        }
        let ghost before = in_place@;
        let ghost later = drawn_in_place(tasks@.skip(i + 1), status@, filter@, lifted@);
        let task = &tasks[i];
        if task.status.is(status) && filter.matches(task) && !ids_hold(lifted, &task.id) {
            in_place.push(task.duplicate());
            assert(before + (seq![tasks@[i as int]] + later) =~= in_place@ + later);
        } else {
            assert(before + (Seq::<TaskView>::empty() + later) =~= in_place@ + later);
        }
        i = i + 1;
    }
    assert(tasks@.skip(tasks.len() as int).len() == 0);
    assert(in_place@ =~= drawn_in_place(tasks@, status@, filter@, lifted@));
    let (landing, carrying) = match (&board.landing, &board.carrying) {
        (Some(landing), Some(carrying)) => (landing, carrying),
        _ => {
            return in_place;
        },
    };
    if !landing.status.is(status) {
        return in_place;
    }
    let mut carried: Vec<TaskView> = Vec::new();
    let mut j: usize = 0;
    while j < tasks.len()
        invariant
            j <= tasks.len(),
            carried@ + carried_cards(tasks@.skip(j as int), carrying.task_ids@) == carried_cards(
                tasks@,
                carrying.task_ids@,
            ),
        decreases tasks.len() - j,
    {
        proof {
            lemma_carried_cards_step(tasks@, carrying.task_ids@, j as int);
        }
        let ghost before = carried@;
        let ghost later = carried_cards(tasks@.skip(j + 1), carrying.task_ids@);
        if carrying.carries(&tasks[j].id) {
            carried.push(tasks[j].duplicate());
            assert(before + (seq![tasks@[j as int]] + later) =~= carried@ + later);
        } else {
            assert(before + (Seq::<TaskView>::empty() + later) =~= carried@ + later);
        }
        j = j + 1;
    }
    assert(tasks@.skip(tasks.len() as int).len() == 0);
    assert(carried@ =~= carried_cards(tasks@, carrying.task_ids@));
    let at = if landing.index < in_place.len() {
        landing.index
    } else {
        in_place.len()
    };
    let ghost shown = in_place@;
    let mut cards: Vec<TaskView> = Vec::new();
    let mut k: usize = 0;
    while k < at
        invariant
            at <= in_place.len(),
            in_place@ == shown,
            k <= at,
            cards@ == shown.take(k as int),
        decreases at - k,
    {
        cards.push(in_place[k].duplicate());
        k = k + 1;
        assert(cards@ =~= shown.take(k as int));
    }
    let mut m: usize = 0;
    while m < carried.len()
        invariant
            k == at,
            m <= carried.len(),
            cards@ == shown.take(at as int) + carried@.take(m as int),
        decreases carried.len() - m,
    {
        cards.push(carried[m].duplicate());
        m = m + 1;
        assert(cards@ =~= shown.take(at as int) + carried@.take(m as int));
    }
    assert(carried@.take(carried.len() as int) =~= carried@);
    let mut n: usize = at;
    while n < in_place.len()
        invariant
            at <= n <= in_place.len(),
            in_place@ == shown,
            cards@ == shown.take(at as int) + carried@ + shown.subrange(at as int, n as int),
        decreases in_place.len() - n,
    {
        cards.push(in_place[n].duplicate());
        n = n + 1;
        assert(cards@ =~= shown.take(at as int) + carried@ + shown.subrange(at as int, n as int));
    }
    assert(shown.subrange(at as int, shown.len() as int) =~= shown.skip(at as int));
    cards
}

} // verus!
