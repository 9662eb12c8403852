//! Cards arriving in a column: which end of it they go to, and the move that puts them there
//! when nothing says where in it they were let go of.

use vstd::prelude::*;

use crate::board::cards::{column_cards_of, column_index_of, column_of, place_in, placed, place_of_nth_showing};
use crate::board::filter::Filter;
use crate::text::{lowercase_of, trimmed};
use crate::board::columns::{find_column, position_of};
use crate::model::{
    holds_id, ids_hold, duplicate_ids, BoardColumn, BoardState, ColumnEnd, ColumnId, Landing,
    PendingPlace, TaskView,
};

verus! {

/// Whether any of these cards is coming from another column rather than being shuffled about
/// within this one.
pub open spec fn arriving(tasks: Seq<TaskView>, status: Seq<char>, ids: Seq<String>) -> bool {
    exists|i: int|
        0 <= i < tasks.len() && (#[trigger] tasks[i]).status@ != status && holds_id(ids, tasks[i].id@)
}

/// The end a column insists arrivals go to, if it insists and the cards are arriving.
pub open spec fn arrivals_end_spec(
    tasks: Seq<TaskView>,
    columns: Seq<BoardColumn>,
    status: Seq<char>,
    ids: Seq<String>,
) -> Option<ColumnEnd> {
    if !arriving(tasks, status, ids) {
        None
    } else {
        match position_of(columns, status) {
            Some(at) => columns[at].arrivals,
            None => None,
        }
    }
}

/// Where in the column the arrivals land, counted the way the server counts it: the top, or
/// past every card of the column they are not themselves.
pub open spec fn arrivals_place_spec(
    tasks: Seq<TaskView>,
    columns: Seq<BoardColumn>,
    status: Seq<char>,
    ids: Seq<String>,
) -> Option<int> {
    match arrivals_end_spec(tasks, columns, status, ids) {
        Some(ColumnEnd::Top) => Some(0),
        Some(ColumnEnd::Bottom) => Some(column_of(tasks, status, ids).len() as int),
        None => None,
    }
}

fn any_arriving(tasks: &Vec<TaskView>, status: &ColumnId, task_ids: &Vec<String>) -> (yes: bool)
    ensures
        yes == arriving(tasks@, status@, task_ids@),
{
    let mut i: usize = 0;
    while i < tasks.len()
        invariant
            i <= tasks.len(),
            forall|k: int|
                0 <= k < i ==> !((#[trigger] tasks@[k]).status@ != status@ && holds_id(
                    task_ids@,
                    tasks@[k].id@,
                )),
        decreases tasks.len() - i,
    {
        if !tasks[i].status.is(status) && ids_hold(task_ids, &tasks[i].id) {
            return true;
        }
        i = i + 1;
    }
    false
}

/// Which end a column insists cards go to, if it insists at all and if these cards are
/// arriving from another column rather than being shuffled about within this one.
pub fn arrivals_end(board: &BoardState, status: &ColumnId, task_ids: &Vec<String>) -> (end: Option<ColumnEnd>)
    ensures
        end == arrivals_end_spec(board.tasks@, board.columns@, status@, task_ids@),
{
    if !any_arriving(&board.tasks, status, task_ids) {
        return None;
    }
    match find_column(&board.columns, status) {
        Some(at) => board.columns[at].arrivals,
        None => None,
    }
}

/// Where in the column itself those cards will land, counted the way the server counts it.
pub fn arrivals_place(board: &BoardState, status: &ColumnId, task_ids: &Vec<String>) -> (place: Option<usize>)
    ensures
        match place {
            Some(p) => arrivals_place_spec(board.tasks@, board.columns@, status@, task_ids@)
                == Some(p as int),
            None => arrivals_place_spec(board.tasks@, board.columns@, status@, task_ids@) is None,
        },
{
    match arrivals_end(board, status, task_ids) {
        Some(ColumnEnd::Top) => Some(0),
        Some(ColumnEnd::Bottom) => Some(column_cards_of(&board.tasks, status, task_ids).len()),
        None => None,
    }
}

/// Cards sent to a column with no place in it said. Cards shuffled about within the column
/// stay where they are, and `None` says nothing is to be sent. Cards arriving from another
/// column are moved into it at the end its arrivals go to - the bottom when it names none -
/// drawn there at once, and noted as a move the server has yet to answer for; the place they
/// went in at is handed back for the server to be told.
pub fn arrive_in_column(board: &mut BoardState, status: &ColumnId, task_ids: &Vec<String>) -> (sent: Option<usize>)
    ensures
        if !arriving(old(board).tasks@, status@, task_ids@) {
            sent is None && final(board).tasks@ == old(board).tasks@ && final(board).pending_place
                == old(board).pending_place
        } else {
            let into = match arrivals_place_spec(
                old(board).tasks@,
                old(board).columns@,
                status@,
                task_ids@,
            ) {
                Some(p) => p,
                None => column_of(old(board).tasks@, status@, task_ids@).len() as int,
            };
            &&& sent == Some(into as usize)
            &&& final(board).pending_place matches Some(p) && p.task_ids@ == task_ids@ && p.status
                == *status && p.index as int == into
            &&& final(board).tasks@ == placed(old(board).tasks@, task_ids@, *status, into)
        },
        *final(board) == (BoardState {
            tasks: final(board).tasks,
            pending_place: final(board).pending_place,
            ..*old(board)
        }),
{
    if !any_arriving(&board.tasks, status, task_ids) {
        return None;
    }
    let into = match arrivals_place(board, status, task_ids) {
        Some(p) => p,
        None => column_cards_of(&board.tasks, status, task_ids).len(),
    };
    board.pending_place = Some(
        PendingPlace { task_ids: duplicate_ids(task_ids), status: status.duplicate(), index: into },
    );
    place_in(&mut board.tasks, task_ids, status, into);
    Some(into)
}

/// The slot the cards being held over a column stand in: where the pointer is among the
/// column's `slots` cards, unless the column takes arrivals to one end, in which case the gap
/// opens at that end however far down the column they are held.
pub open spec fn held_at(board: BoardState, status: Seq<char>, ids: Seq<String>, at: int, slots: int) -> int {
    match arrivals_end_spec(board.tasks@, board.columns@, status, ids) {
        Some(ColumnEnd::Top) => 0,
        Some(ColumnEnd::Bottom) => slots,
        None => at,
    }
}

/// Where in the column itself a drop held at `at` among the cards showing goes: the column's
/// arrivals end when it names one, and otherwise the place the cards showing put it at.
pub open spec fn drop_into(board: BoardState, status: Seq<char>, ids: Seq<String>, at: int) -> int {
    match arrivals_place_spec(board.tasks@, board.columns@, status, ids) {
        Some(p) => p,
        None => {
            let query = lowercase_of(trimmed(board.filter@));
            if query.len() == 0 {
                at
            } else {
                place_of_nth_showing(column_of(board.tasks@, status, ids), query, at)
            }
        },
    }
}

/// The cards being carried, held over a column at slot `at` of its `slots` - the pointer's
/// place among the cards it shows. They are drawn there from the next frame on. When they are
/// let go of, the drop is made: in a column that keeps an order of its own it is an arrival,
/// with no place said; otherwise the cards go in where they were held - counted in the column
/// itself, filter or no filter - and the move is kept until the server has it. Answers the
/// place the server is to be told of, when there is one.
pub fn hold_over_column(
    board: &mut BoardState,
    status: &ColumnId,
    at: usize,
    slots: usize,
    released: bool,
    sorted: bool,
) -> (sent: Option<(Vec<String>, usize)>)
    requires
        old(board).carrying is Some,
    ensures
        ({
            let ids = old(board).carrying->0.task_ids@;
            let held = held_at(*old(board), status@, ids, at as int, slots as int);
            if !released {
                &&& sent is None
                &&& final(board).landing matches Some(l) && l.status == *status && l.index == held
                &&& final(board).tasks == old(board).tasks
            } else if sorted {
                &&& final(board).landing is None
                &&& if !arriving(old(board).tasks@, status@, ids) {
                    sent is None && final(board).tasks@ == old(board).tasks@
                } else {
                    let into = match arrivals_place_spec(old(board).tasks@, old(board).columns@, status@, ids) {
                        Some(p) => p,
                        None => column_of(old(board).tasks@, status@, ids).len() as int,
                    };
                    &&& sent matches Some((sent_ids, index)) && sent_ids@ == ids && index == into
                    &&& final(board).pending_place matches Some(p) && p.task_ids@ == ids && p.status
                        == *status && p.index == into
                    &&& final(board).tasks@ == placed(old(board).tasks@, ids, *status, into)
                }
            } else {
                let into = drop_into(*old(board), status@, ids, held);
                &&& final(board).landing is None
                &&& sent matches Some((sent_ids, index)) && sent_ids@ == ids && index == into
                &&& final(board).pending_place matches Some(p) && p.task_ids@ == ids && p.status
                    == *status && p.index == into
                &&& final(board).tasks@ == placed(old(board).tasks@, ids, *status, into)
            }
        }),
        *final(board) == (BoardState {
            tasks: final(board).tasks,
            pending_place: final(board).pending_place,
            landing: final(board).landing,
            ..*old(board)
        }),
{
    let ids = match &board.carrying {
        Some(carrying) => duplicate_ids(&carrying.task_ids),
        None => {
            return None;
        },
    };
    let held = match arrivals_end(board, status, &ids) {
        Some(ColumnEnd::Top) => 0,
        Some(ColumnEnd::Bottom) => slots,
        None => at,
    };
    board.landing = Some(Landing { status: status.duplicate(), index: held });
    if !released {
        return None;
    }
    board.landing = None;
    if sorted {
        return match arrive_in_column(board, status, &ids) {
            Some(into) => Some((ids, into)),
            None => None,
        };
    }
    let filter = Filter::of(board.filter.as_str());
    let into = match arrivals_place(board, status, &ids) {
        Some(p) => p,
        None => column_index_of(&board.tasks, &filter, status, &ids, held),
    };
    board.pending_place = Some(
        PendingPlace { task_ids: duplicate_ids(&ids), status: status.duplicate(), index: into },
    );
    place_in(&mut board.tasks, &ids, status, into);
    Some((ids, into))
}

/// What a column with no cards to show says: a column the filter emptied still holds its
/// cards, so it says that rather than that there is nothing in it.
pub fn empty_column_words(board: &BoardState) -> (words: &'static str)
    ensures
        words@ == if lowercase_of(trimmed(board.filter@)).len() > 0 {
            "nothing matching"@
        } else {
            "nothing here"@
        },
{
    if Filter::of(board.filter.as_str()).is_on() {
        "nothing matching"
    } else {
        "nothing here"
    }
}

} // verus!
