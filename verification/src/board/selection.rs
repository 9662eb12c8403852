//! The cards the board has marked, and what a click does to them.
//!
//! There is one mark and one place it is kept. A click on a card marks that card and opens its
//! page; cmd+click puts one card in or out; shift+click takes the run between the anchor and
//! the card clicked. One card marked is a task to read, and several are a group to drag.

use vstd::prelude::*;

use crate::board::filter::{shows, Filter};
use crate::input::Modifiers;
use crate::model::{duplicate_ids, holds_id, ids_hold, BoardState, Carrying, ColumnId, TaskView};
use crate::text::{lowercase_of, trimmed};

verus! {

/// The ids a list holds, as a set.
pub open spec fn marks_of(ids: Seq<String>) -> Set<Seq<char>> {
    Set::new(|id: Seq<char>| holds_id(ids, id))
}

/// No id twice in the list.
pub open spec fn distinct_ids(ids: Seq<String>) -> bool {
    forall|i: int, j: int| 0 <= i < j < ids.len() ==> ids[i]@ != ids[j]@
}

/// The cards a board has marked.
pub open spec fn marks(board: BoardState) -> Set<Seq<char>> {
    marks_of(board.marked@)
}

/// A board whose marks hold each card once.
pub open spec fn well_marked(board: BoardState) -> bool {
    distinct_ids(board.marked@)
}

/// Everything about two boards other than their marks, their anchor and the pages waiting to
/// be put away is the same.
pub open spec fn same_but_marks(a: BoardState, b: BoardState) -> bool {
    &&& a.tasks == b.tasks
    &&& a.filter == b.filter
    &&& a.pending_place == b.pending_place
    &&& a.landing == b.landing
    &&& a.carrying == b.carrying
    &&& a.columns == b.columns
    &&& a.column_landing == b.column_landing
    &&& a.pending_column_place == b.pending_column_place
    &&& a.press == b.press
    &&& a.refresh_requested == b.refresh_requested
    &&& a.renaming == b.renaming
    &&& a.pending_delete == b.pending_delete
    &&& a.pending_resource_delete == b.pending_resource_delete
    &&& a.renaming_column == b.renaming_column
    &&& a.pending_column_delete == b.pending_column_delete
    &&& a.column_composer_open == b.column_composer_open
    &&& a.new_column_label == b.new_column_label
    &&& a.attach_picker == b.attach_picker
    &&& a.opened_file == b.opened_file
    &&& a.opened_shell == b.opened_shell
    &&& a.task_box_focus == b.task_box_focus
    &&& a.drafts == b.drafts
}

/// The marks with this card put in if it was out and taken out if it was in.
pub open spec fn toggled(marks: Set<Seq<char>>, id: Seq<char>) -> Set<Seq<char>> {
    if marks.contains(id) {
        marks.remove(id)
    } else {
        marks.insert(id)
    }
}

/// The cards of `was` no longer among `now`, in the order of `was`: the pages to put away.
pub open spec fn let_go(was: Seq<String>, now: Set<Seq<char>>) -> Seq<String>
    decreases was.len(),
{
    if was.len() == 0 {
        Seq::empty()
    } else {
        (if now.contains(was[0]@) {
            Seq::empty()
        } else {
            seq![was[0]]
        }) + let_go(was.drop_first(), now)
    }
}

/// Where an id first stands in a list.
pub open spec fn first_index(ids: Seq<String>, id: Seq<char>) -> Option<int>
    decreases ids.len(),
{
    if ids.len() == 0 {
        None
    } else if ids[0]@ == id {
        Some(0)
    } else {
        match first_index(ids.drop_first(), id) {
            Some(i) => Some(i + 1),
            None => None,
        }
    }
}

/// The column of the first card with this id.
pub open spec fn status_of(tasks: Seq<TaskView>, id: Seq<char>) -> Option<ColumnId>
    decreases tasks.len(),
{
    if tasks.len() == 0 {
        None
    } else if tasks[0].id@ == id {
        Some(tasks[0].status)
    } else {
        status_of(tasks.drop_first(), id)
    }
}

/// The ids of the cards of a column a query shows, top to bottom.
pub open spec fn showing_ids(tasks: Seq<TaskView>, status: Seq<char>, query: Seq<char>) -> Seq<
    String,
>
    decreases tasks.len(),
{
    if tasks.len() == 0 {
        Seq::empty()
    } else {
        (if tasks[0].status@ == status && shows(query, tasks[0]) {
            seq![tasks[0].id]
        } else {
            Seq::empty()
        }) + showing_ids(tasks.drop_first(), status, query)
    }
}

/// The cards of this card's column that the board's filter is showing, top to bottom.
pub open spec fn column_showing_ids(board: BoardState, id: Seq<char>) -> Seq<String> {
    match status_of(board.tasks@, id) {
        None => Seq::empty(),
        Some(status) => showing_ids(board.tasks@, status@, lowercase_of(trimmed(board.filter@))),
    }
}

/// The run a shift+click takes: from the anchor - or the card clicked, with no anchor in the
/// column - to the card clicked, both ends in. Nothing, for a card not in the list.
pub open spec fn run_of(showing: Seq<String>, anchor: Option<Seq<char>>, id: Seq<char>) -> Seq<
    String,
> {
    match first_index(showing, id) {
        None => Seq::empty(),
        Some(clicked) => {
            let from = match anchor {
                Some(a) => match first_index(showing, a) {
                    Some(at) => at,
                    None => clicked,
                },
                None => clicked,
            };
            let low = if from < clicked {
                from
            } else {
                clicked
            };
            let high = if from < clicked {
                clicked
            } else {
                from
            };
            showing.subrange(low, high + 1)
        },
    }
}

/// The ids of the cards, in the board's order, that are among `marked`.
pub open spec fn marked_in_order(tasks: Seq<TaskView>, marked: Set<Seq<char>>) -> Seq<String>
    decreases tasks.len(),
{
    if tasks.len() == 0 {
        Seq::empty()
    } else {
        (if marked.contains(tasks[0].id@) {
            seq![tasks[0].id]
        } else {
            Seq::empty()
        }) + marked_in_order(tasks.drop_first(), marked)
    }
}

/// The anchor as the spec reads it.
pub open spec fn anchor_of(board: BoardState) -> Option<Seq<char>> {
    match board.mark_anchor {
        Some(a) => Some(a@),
        None => None,
    }
}

/// Toggling the same card twice leaves the marks as they were.
pub proof fn law_toggle_twice_restores(marks: Set<Seq<char>>, id: Seq<char>)
    ensures
        toggled(toggled(marks, id), id) == marks,
{
    if marks.contains(id) {
        assert(marks.remove(id).insert(id) =~= marks);
    } else {
        assert(marks.insert(id).remove(id) =~= marks);
    }
}

proof fn lemma_let_go_nothing_kept(was: Seq<String>)
    ensures
        let_go(was, Set::empty()) == was,
    decreases was.len(),
{
    if was.len() > 0 {
        lemma_let_go_nothing_kept(was.drop_first());
        assert(seq![was[0]] + was.drop_first() =~= was);
    }
}

proof fn lemma_first_index_bound(ids: Seq<String>, id: Seq<char>)
    ensures
        match first_index(ids, id) {
            Some(i) => 0 <= i < ids.len() && ids[i]@ == id && forall|k: int|
                0 <= k < i ==> ids[k]@ != id,
            None => forall|k: int| 0 <= k < ids.len() ==> ids[k]@ != id,
        },
    decreases ids.len(),
{
    if ids.len() > 0 {
        lemma_first_index_bound(ids.drop_first(), id);
        if ids[0]@ != id {
            match first_index(ids.drop_first(), id) {
                Some(i) => {
                    assert forall|k: int| 0 <= k < i + 1 implies ids[k]@ != id by {
                        if k > 0 {
                            assert(ids[k] == ids.drop_first()[k - 1]);
                        }
                    }
                },
                None => {
                    assert forall|k: int| 0 <= k < ids.len() implies ids[k]@ != id by {
                        if k > 0 {
                            assert(ids[k] == ids.drop_first()[k - 1]);
                        }
                    }
                },
            }
        }
    }
}

fn find_first(ids: &Vec<String>, id: &String) -> (at: Option<usize>)
    ensures
        match at {
            Some(i) => first_index(ids@, id@) == Some(i as int),
            None => first_index(ids@, id@) is None,
        },
{
    let mut k: usize = 0;
    assert(ids@.skip(0) =~= ids@);
    while k < ids.len()
        invariant
            k <= ids.len(),
            first_index(ids@, id@) == match first_index(ids@.skip(k as int), id@) {
                Some(i) => Some(i + k),
                None => None::<int>,
            },
        decreases ids.len() - k,
    {
        assert(ids@.skip(k as int).drop_first() =~= ids@.skip(k + 1));
        assert(ids@.skip(k as int)[0] == ids@[k as int]);
        if ids[k] == *id {
            return Some(k);
        }
        k = k + 1;
    }
    None
}

pub fn is_marked(board: &BoardState, task_id: &String) -> (yes: bool)
    ensures
        yes == marks(*board).contains(task_id@),
{
    ids_hold(&board.marked, task_id)
}

pub fn clear(board: &mut BoardState)
    ensures
        final(board).marked@.len() == 0,
        marks(*final(board)) == Set::<Seq<char>>::empty(),
        final(board).mark_anchor is None,
        final(board).pages_to_close == old(board).pages_to_close,
        same_but_marks(*final(board), *old(board)),
{
    board.marked = Vec::new();
    board.mark_anchor = None;
    assert(marks(*board) =~= Set::<Seq<char>>::empty());
}

/// Remember the cards that were marked and no longer are, so their pages can be put away once
/// the window has drawn.
fn pages_of_cards_let_go(board: &mut BoardState, was_marked: Vec<String>)
    ensures
        final(board).pages_to_close@ == old(board).pages_to_close@ + let_go(
            was_marked@,
            marks(*old(board)),
        ),
        final(board).marked == old(board).marked,
        final(board).mark_anchor == old(board).mark_anchor,
        same_but_marks(*final(board), *old(board)),
{
    let mut closing: Vec<String> = Vec::new();
    let mut i: usize = 0;
    assert(was_marked@.skip(0) =~= was_marked@);
    while i < was_marked.len()
        invariant
            i <= was_marked.len(),
            closing@ + let_go(was_marked@.skip(i as int), marks(*board)) == let_go(
                was_marked@,
                marks(*board),
            ),
        decreases was_marked.len() - i,
    {
        assert(was_marked@.skip(i as int).drop_first() =~= was_marked@.skip(i + 1));
        let ghost later = let_go(was_marked@.skip(i + 1), marks(*board));
        let ghost so_far = closing@;
        if !is_marked(board, &was_marked[i]) {
            closing.push(was_marked[i].clone());
            assert(so_far + (seq![was_marked@[i as int]] + later) =~= closing@ + later);
        } else {
            assert(so_far + (Seq::<String>::empty() + later) =~= closing@ + later);
        }
        i = i + 1;
    }
    assert(was_marked@.skip(was_marked.len() as int).len() == 0);
    assert(closing@ =~= let_go(was_marked@, marks(*board)));
    board.pages_to_close.append(&mut closing);
}

/// Let every mark go, by a click or a key rather than by a tab coming forward - so the pages
/// of the cards let go of are put away with them.
pub fn let_go_of_all(board: &mut BoardState)
    ensures
        marks(*final(board)) == Set::<Seq<char>>::empty(),
        well_marked(*final(board)),
        final(board).mark_anchor is None,
        final(board).pages_to_close@ == old(board).pages_to_close@ + old(board).marked@,
        same_but_marks(*final(board), *old(board)),
{
    let was_marked = duplicate_ids(&board.marked);
    clear(board);
    pages_of_cards_let_go(board, was_marked);
    proof {
        lemma_let_go_nothing_kept(old(board).marked@);
    }
}

/// Mark this card and nothing else, which is what a plain click and a task's tab both do.
pub fn mark_only(board: &mut BoardState, task_id: String)
    ensures
        final(board).marked@ == seq![task_id],
        marks(*final(board)) == Set::empty().insert(task_id@),
        well_marked(*final(board)),
        final(board).mark_anchor == Some(task_id),
        final(board).pages_to_close == old(board).pages_to_close,
        same_but_marks(*final(board), *old(board)),
{
    let mut marked: Vec<String> = Vec::new();
    marked.push(task_id.clone());
    board.marked = marked;
    board.mark_anchor = Some(task_id);
    assert(marks(*board) =~= Set::empty().insert(board.marked@[0]@));
}

/// Put a card in the marks or take it back out - the one-card key, whatever else is marked.
fn toggle(board: &mut BoardState, task_id: &String)
    requires
        well_marked(*old(board)),
    ensures
        marks(*final(board)) == toggled(marks(*old(board)), task_id@),
        well_marked(*final(board)),
        final(board).mark_anchor == Some(*task_id),
        final(board).pages_to_close == old(board).pages_to_close,
        same_but_marks(*final(board), *old(board)),
{
    let ghost before = board.marked@;
    match find_first(&board.marked, task_id) {
        Some(at) => {
            proof {
                lemma_first_index_bound(before, task_id@);
            }
            board.marked.remove(at);
            assert(marks(*board) =~= marks_of(before).remove(task_id@)) by {
                assert forall|id: Seq<char>| marks(*board).contains(id) implies marks_of(
                    before,
                ).remove(task_id@).contains(id) by {
                    let k = choose|k: int| 0 <= k < board.marked@.len() && #[trigger] board.marked@[k]@ == id;
                    if k < at {
                        assert(board.marked@[k] == before[k]);
                    } else {
                        assert(board.marked@[k] == before[k + 1]);
                    }
                }
                assert forall|id: Seq<char>| marks_of(before).remove(task_id@).contains(
                    id,
                ) implies marks(*board).contains(id) by {
                    let k = choose|k: int| 0 <= k < before.len() && #[trigger] before[k]@ == id;
                    if k < at {
                        assert(board.marked@[k] == before[k]);
                    } else {
                        assert(k != at);
                        assert(board.marked@[k - 1] == before[k]);
                    }
                }
            }
            assert(marks_of(before).contains(task_id@)) by {
                assert(before[at as int]@ == task_id@);
            }
        },
        None => {
            proof {
                lemma_first_index_bound(before, task_id@);
            }
            board.marked.push(task_id.clone());
            assert(marks(*board) =~= marks_of(before).insert(task_id@)) by {
                assert forall|id: Seq<char>| marks(*board).contains(id) implies marks_of(
                    before,
                ).insert(task_id@).contains(id) by {
                    let k = choose|k: int| 0 <= k < board.marked@.len() && #[trigger] board.marked@[k]@ == id;
                    if k < before.len() {
                        assert(board.marked@[k] == before[k]);
                    }
                }
                assert forall|id: Seq<char>| marks_of(before).insert(task_id@).contains(
                    id,
                ) implies marks(*board).contains(id) by {
                    if id == task_id@ {
                        assert(board.marked@[before.len() as int]@ == id);
                    } else {
                        let k = choose|k: int| 0 <= k < before.len() && #[trigger] before[k]@ == id;
                        assert(board.marked@[k] == before[k]);
                    }
                }
            }
            assert(!marks_of(before).contains(task_id@));
        },
    }
    board.mark_anchor = Some(task_id.clone());
}

/// The same ids, each once, in the order they first stand.
fn distinct_copy(ids: &Vec<String>) -> (copy: Vec<String>)
    ensures
        distinct_ids(copy@),
        marks_of(copy@) == marks_of(ids@),
{
    let mut copy: Vec<String> = Vec::new();
    let mut i: usize = 0;
    while i < ids.len()
        invariant
            i <= ids.len(),
            distinct_ids(copy@),
            marks_of(copy@) == marks_of(ids@.take(i as int)),
        decreases ids.len() - i,
    {
        let ghost before = copy@;
        if !ids_hold(&copy, &ids[i]) {
            copy.push(ids[i].clone());
        }
        i = i + 1;
        assert(marks_of(copy@) =~= marks_of(ids@.take(i as int))) by {
            assert forall|id: Seq<char>| marks_of(copy@).contains(id) implies marks_of(
                ids@.take(i as int),
            ).contains(id) by {
                let k = choose|k: int| 0 <= k < copy@.len() && #[trigger] copy@[k]@ == id;
                if k < before.len() {
                    assert(copy@[k] == before[k]);
                    assert(marks_of(ids@.take(i - 1)).contains(id));
                    let m = choose|m: int| 0 <= m < i - 1 && #[trigger] ids@.take(i - 1)[m]@ == id;
                    assert(ids@.take(i as int)[m] == ids@.take(i - 1)[m]);
                } else {
                    assert(ids@.take(i as int)[i - 1] == ids@[i - 1]);
                }
            }
            assert forall|id: Seq<char>| marks_of(ids@.take(i as int)).contains(id) implies marks_of(
                copy@,
            ).contains(id) by {
                let m = choose|m: int| 0 <= m < i && #[trigger] ids@.take(i as int)[m]@ == id;
                if m < i - 1 {
                    assert(ids@.take(i - 1)[m] == ids@.take(i as int)[m]);
                    assert(marks_of(ids@.take(i - 1)).contains(id));
                    let k = choose|k: int| 0 <= k < before.len() && #[trigger] before[k]@ == id;
                    assert(copy@[k] == before[k]);
                } else if holds_id(before, id) {
                    let k = choose|k: int| 0 <= k < before.len() && #[trigger] before[k]@ == id;
                    assert(copy@[k] == before[k]);
                } else {
                    assert(copy@[before.len() as int]@ == id);
                }
            }
        }
    }
    assert(ids@.take(ids.len() as int) =~= ids@);
    copy
}

fn status_of_in(tasks: &Vec<TaskView>, task_id: &String) -> (status: Option<ColumnId>)
    ensures
        status == status_of(tasks@, task_id@),
{
    let mut k: usize = 0;
    assert(tasks@.skip(0) =~= tasks@);
    while k < tasks.len()
        invariant
            k <= tasks.len(),
            status_of(tasks@, task_id@) == status_of(tasks@.skip(k as int), task_id@),
        decreases tasks.len() - k,
    {
        assert(tasks@.skip(k as int).drop_first() =~= tasks@.skip(k + 1));
        assert(tasks@.skip(k as int)[0] == tasks@[k as int]);
        if tasks[k].id == *task_id {
            return Some(tasks[k].status.duplicate());
        }
        k = k + 1;
    }
    None
}

/// The cards of this card's column that the filter is showing, top to bottom.
pub fn column_showing(board: &BoardState, task_id: &String) -> (showing: Vec<String>)
    ensures
        showing@ == column_showing_ids(*board, task_id@),
{
    let status = status_of_in(&board.tasks, task_id);
    let status = match status {
        None => {
            return Vec::new();
        },
        Some(status) => status,
    };
    let filter = Filter::of(board.filter.as_str());
    let mut showing: Vec<String> = Vec::new();
    let mut i: usize = 0;
    let ghost query = lowercase_of(trimmed(board.filter@));
    assert(board.tasks@.skip(0) =~= board.tasks@);
    while i < board.tasks.len()
        invariant
            i <= board.tasks.len(),
            filter@ == query,
            showing@ + showing_ids(board.tasks@.skip(i as int), status@, query) == showing_ids(
                board.tasks@,
                status@,
                query,
            ),
        decreases board.tasks.len() - i,
    {
        assert(board.tasks@.skip(i as int).drop_first() =~= board.tasks@.skip(i + 1));
        assert(board.tasks@.skip(i as int)[0] == board.tasks@[i as int]);
        let ghost later = showing_ids(board.tasks@.skip(i + 1), status@, query);
        let ghost so_far = showing@;
        if board.tasks[i].status.is(&status) && filter.matches(&board.tasks[i]) {
            showing.push(board.tasks[i].id.clone());
            assert(so_far + (seq![board.tasks@[i as int].id] + later) =~= showing@ + later);
        } else {
            assert(so_far + (Seq::<String>::empty() + later) =~= showing@ + later);
        }
        i = i + 1;
    }
    assert(board.tasks@.skip(board.tasks.len() as int).len() == 0);
    assert(showing@ =~= showing_ids(board.tasks@, status@, query));
    showing
}

/// The cards of a column a shift+click takes: those between the anchor and the card clicked,
/// both ends in.
pub fn run_between(showing: &Vec<String>, anchor: Option<&String>, task_id: &String) -> (run: Vec<
    String,
>)
    ensures
        run@ == run_of(
            showing@,
            match anchor {
                Some(a) => Some(a@),
                None => None,
            },
            task_id@,
        ),
{
    let clicked = match find_first(showing, task_id) {
        None => {
            return Vec::new();
        },
        Some(clicked) => clicked,
    };
    let from = match anchor {
        Some(a) => match find_first(showing, a) {
            Some(at) => at,
            None => clicked,
        },
        None => clicked,
    };
    proof {
        lemma_first_index_bound(showing@, task_id@);
        if let Some(a) = anchor {
            lemma_first_index_bound(showing@, a@);
        }
    }
    let low = if from < clicked {
        from
    } else {
        clicked
    };
    let high = if from < clicked {
        clicked
    } else {
        from
    };
    let mut run: Vec<String> = Vec::new();
    let mut k: usize = low;
    while k <= high
        invariant
            low <= k <= high + 1,
            high < showing.len(),
            run@ == showing@.subrange(low as int, k as int),
        decreases high + 1 - k,
    {
        run.push(showing[k].clone());
        k = k + 1;
        assert(run@ =~= showing@.subrange(low as int, k as int));
    }
    run
}

/// Mark the run between the anchor and this card - the run key.
///
/// Read down the column the two are in, among the cards the filter is showing, so what is
/// taken is what the eye sees between them. A card with no anchor, or one in another column,
/// starts a run of its own rather than ending one measured from somewhere out of sight.
fn extend_to(board: &mut BoardState, task_id: &String)
    ensures
        marks(*final(board)) == marks_of(
            run_of(column_showing_ids(*old(board), task_id@), anchor_of(*old(board)), task_id@),
        ),
        well_marked(*final(board)),
        final(board).mark_anchor == match old(board).mark_anchor {
            Some(a) => Some(a),
            None => Some(*task_id),
        },
        final(board).pages_to_close == old(board).pages_to_close,
        same_but_marks(*final(board), *old(board)),
{
    let showing = column_showing(board, task_id);
    let anchor = match &board.mark_anchor {
        Some(a) => Some(a),
        None => None,
    };
    let run = run_between(&showing, anchor, task_id);
    board.marked = distinct_copy(&run);
    if board.mark_anchor.is_none() {
        board.mark_anchor = Some(task_id.clone());
    }
}

/// The marks a click leaves, before it is known which pages it let go of.
pub open spec fn marks_after_click(board: BoardState, id: Seq<char>, modifiers: Modifiers) -> Set<
    Seq<char>,
> {
    if modifiers.command {
        toggled(marks(board), id)
    } else if modifiers.shift {
        marks_of(run_of(column_showing_ids(board, id), anchor_of(board), id))
    } else {
        Set::empty().insert(id)
    }
}

/// What the click marks, which is the whole of the difference between the two keys.
fn marked_by_the_click(board: &mut BoardState, task_id: &String, modifiers: Modifiers) -> (opens:
    Option<String>)
    requires
        well_marked(*old(board)),
    ensures
        marks(*final(board)) == marks_after_click(*old(board), task_id@, modifiers),
        well_marked(*final(board)),
        final(board).mark_anchor == (if modifiers.command || modifiers.shift {
            match old(board).mark_anchor {
                Some(a) if !modifiers.command => Some(a),
                _ => Some(*task_id),
            }
        } else {
            Some(*task_id)
        }),
        opens == (if modifiers.command || modifiers.shift {
            None
        } else {
            Some(*task_id)
        }),
        final(board).pages_to_close == old(board).pages_to_close,
        same_but_marks(*final(board), *old(board)),
{
    if modifiers.command {
        toggle(board, task_id);
    } else if modifiers.shift {
        extend_to(board, task_id);
    } else {
        mark_only(board, task_id.clone());
        return Some(task_id.clone());
    }
    None
}

/// What a click on the board did to the marks, and the task whose page it asks for.
///
/// `on` is the card clicked, or `None` for the board beside the cards - which is where a
/// selection is let go of. A plain click marks the card alone and asks for its page; cmd puts
/// the card in or takes it out; shift takes the run from the anchor. Whatever was marked and is
/// no longer has its page put away.
pub fn clicked(board: &mut BoardState, on: Option<&String>, modifiers: Modifiers) -> (opens:
    Option<String>)
    requires
        well_marked(*old(board)),
    ensures
        well_marked(*final(board)),
        same_but_marks(*final(board), *old(board)),
        match on {
            None => {
                &&& opens is None
                &&& marks(*final(board)) == Set::<Seq<char>>::empty()
                &&& final(board).mark_anchor is None
                &&& final(board).pages_to_close@ == old(board).pages_to_close@ + old(board).marked@
            },
            Some(id) => {
                &&& marks(*final(board)) == marks_after_click(*old(board), id@, modifiers)
                &&& final(board).pages_to_close@ == old(board).pages_to_close@ + let_go(
                    old(board).marked@,
                    marks(*final(board)),
                )
                &&& opens == (if modifiers.command || modifiers.shift {
                    None
                } else {
                    Some(*id)
                })
                &&& final(board).mark_anchor == (if modifiers.command || modifiers.shift {
                    match old(board).mark_anchor {
                        Some(a) if !modifiers.command => Some(a),
                        _ => Some(*id),
                    }
                } else {
                    Some(*id)
                })
            },
        },
{
    let task_id = match on {
        None => {
            let_go_of_all(board);
            return None;
        },
        Some(task_id) => task_id,
    };
    let was_marked = duplicate_ids(&board.marked);
    let opens = marked_by_the_click(board, task_id, modifiers);
    pages_of_cards_let_go(board, was_marked);
    opens
}

/// The ids of the marked cards, in the order the board holds them.
fn marked_tasks(board: &BoardState) -> (ids: Vec<String>)
    ensures
        ids@ == marked_in_order(board.tasks@, marks(*board)),
{
    let mut ids: Vec<String> = Vec::new();
    let mut i: usize = 0;
    assert(board.tasks@.skip(0) =~= board.tasks@);
    while i < board.tasks.len()
        invariant
            i <= board.tasks.len(),
            ids@ + marked_in_order(board.tasks@.skip(i as int), marks(*board)) == marked_in_order(
                board.tasks@,
                marks(*board),
            ),
        decreases board.tasks.len() - i,
    {
        assert(board.tasks@.skip(i as int).drop_first() =~= board.tasks@.skip(i + 1));
        assert(board.tasks@.skip(i as int)[0] == board.tasks@[i as int]);
        let ghost later = marked_in_order(board.tasks@.skip(i + 1), marks(*board));
        let ghost so_far = ids@;
        if is_marked(board, &board.tasks[i].id) {
            ids.push(board.tasks[i].id.clone());
            assert(so_far + (seq![board.tasks@[i as int].id] + later) =~= ids@ + later);
        } else {
            assert(so_far + (Seq::<String>::empty() + later) =~= ids@ + later);
        }
        i = i + 1;
    }
    assert(board.tasks@.skip(board.tasks.len() as int).len() == 0);
    assert(ids@ =~= marked_in_order(board.tasks@, marks(*board)));
    ids
}

/// The marks a drag begun on a card leaves: the card joins the marks when cmd or shift is
/// held, stays among them when it was marked, and is the mark alone otherwise.
pub open spec fn marks_when_carried(board: BoardState, primary: Seq<char>, modifiers: Modifiers) -> Set<
    Seq<char>,
> {
    if modifiers.command || modifiers.shift {
        marks(board).insert(primary)
    } else if marks(board).contains(primary) {
        marks(board)
    } else {
        Set::empty().insert(primary)
    }
}

/// What a drag begun on this card carries.
///
/// A marked card brings every marked card with it, in the order the board holds them. One that
/// is not marked is carried alone and becomes the mark - the way dragging one icon out of a
/// selected group does in a file manager - unless cmd or shift is held, which is a card joining
/// the group rather than replacing it.
///
/// Whatever is carried ends up marked, which is what shows where a run of cards landed once it
/// is let go of.
pub fn carried_by(board: &mut BoardState, primary: &String, modifiers: Modifiers) -> (carrying:
    Carrying)
    requires
        well_marked(*old(board)),
    ensures
        well_marked(*final(board)),
        same_but_marks(*final(board), *old(board)),
        marks(*final(board)) == marks_when_carried(*old(board), primary@, modifiers),
        final(board).pages_to_close@ == old(board).pages_to_close@ + let_go(
            old(board).marked@,
            marks(*final(board)),
        ),
        final(board).mark_anchor == (if modifiers.command || modifiers.shift || !marks(
            *old(board),
        ).contains(primary@) {
            Some(*primary)
        } else {
            old(board).mark_anchor
        }),
        carrying.primary == *primary,
        carrying.task_ids@ == marked_in_order(old(board).tasks@, marks(*final(board))),
{
    let was_marked = duplicate_ids(&board.marked);
    if modifiers.command || modifiers.shift {
        if !is_marked(board, primary) {
            toggle(board, primary);
        } else {
            board.mark_anchor = Some(primary.clone());
            assert(marks(*old(board)).insert(primary@) =~= marks(*old(board)));
        }
    } else if !is_marked(board, primary) {
        mark_only(board, primary.clone());
    }
    pages_of_cards_let_go(board, was_marked);
    let task_ids = marked_tasks(board);
    Carrying { primary: primary.clone(), task_ids }
}

/// Cmd+clicking a card twice leaves the marks as they were: the first click puts the card in
/// or takes it out, and the second undoes it - whatever else is marked.
pub proof fn law_cmd_click_twice_restores(
    before: BoardState,
    between: BoardState,
    id: Seq<char>,
    modifiers: Modifiers,
)
    requires
        modifiers.command,
        marks(between) == marks_after_click(before, id, modifiers),
    ensures
        marks_after_click(between, id, modifiers) == marks(before),
{
    law_toggle_twice_restores(marks(before), id);
}

/// Whether a card of the board goes by this id, stands in this column and is one the query
/// shows.
pub open spec fn a_card_showing(tasks: Seq<TaskView>, id: Seq<char>, status: Seq<char>, query: Seq<char>) -> bool {
    exists|t: int|
        0 <= t < tasks.len() && #[trigger] tasks[t].id@ == id && tasks[t].status@ == status && shows(
            query,
            tasks[t],
        )
}

proof fn lemma_showing_ids_show(tasks: Seq<TaskView>, status: Seq<char>, query: Seq<char>, k: int)
    requires
        0 <= k < showing_ids(tasks, status, query).len(),
    ensures
        a_card_showing(tasks, showing_ids(tasks, status, query)[k]@, status, query),
    decreases tasks.len(),
{
    let head = if tasks[0].status@ == status && shows(query, tasks[0]) {
        seq![tasks[0].id]
    } else {
        Seq::<String>::empty()
    };
    let rest = tasks.drop_first();
    let all = showing_ids(tasks, status, query);
    assert(all == head + showing_ids(rest, status, query));
    if k < head.len() {
        assert(tasks[0].id@ == all[k]@);
    } else {
        lemma_showing_ids_show(rest, status, query, k - head.len());
        let t = choose|t: int|
            0 <= t < rest.len() && #[trigger] rest[t].id@ == all[k]@ && rest[t].status@ == status
                && shows(query, rest[t]);
        assert(tasks[t + 1] == rest[t]);
    }
}

/// A shift+click marks only cards the board's filter is showing, all in the column of the card
/// clicked: the run is read down that column among the cards on screen, so a card the filter
/// hides between the two ends is not marked, and cannot be dragged or acted on with them.
pub proof fn law_a_shift_click_marks_only_cards_on_screen(
    board: BoardState,
    id: Seq<char>,
    modifiers: Modifiers,
    marked: Seq<char>,
)
    requires
        modifiers.shift && !modifiers.command,
        marks_after_click(board, id, modifiers).contains(marked),
    ensures
        status_of(board.tasks@, id) matches Some(status) && a_card_showing(
            board.tasks@,
            marked,
            status@,
            lowercase_of(trimmed(board.filter@)),
        ),
{
    let showing = column_showing_ids(board, id);
    let run = run_of(showing, anchor_of(board), id);
    assert(holds_id(run, marked));
    let k = choose|k: int| 0 <= k < run.len() && #[trigger] run[k]@ == marked;
    lemma_first_index_bound(showing, id);
    match anchor_of(board) {
        Some(a) => lemma_first_index_bound(showing, a),
        None => {},
    }
    let clicked = first_index(showing, id)->0;
    let from = match anchor_of(board) {
        Some(a) => match first_index(showing, a) {
            Some(at) => at,
            None => clicked,
        },
        None => clicked,
    };
    let low = if from < clicked { from } else { clicked };
    assert(run[k] == showing[low + k]);
    match status_of(board.tasks@, id) {
        Some(status) => {
            lemma_showing_ids_show(
                board.tasks@,
                status@,
                lowercase_of(trimmed(board.filter@)),
                low + k,
            );
        },
        None => {},
    }
}

} // verus!
