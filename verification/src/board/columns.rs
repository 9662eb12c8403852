//! The board's columns: what order they are in, and the drag that changes it.
//!
//! A column is a name cards are in rather than a place on screen, so moving one moves nothing
//! about any card: the cards are drawn wherever their column ends up.

use vstd::prelude::*;

use crate::model::{BoardColumn, BoardState, ColumnId, PendingColumnPlace};

verus! {

/// Whether the `k`th column is the first that goes by `id`.
pub open spec fn first_named(columns: Seq<BoardColumn>, id: Seq<char>, k: int) -> bool {
    &&& 0 <= k < columns.len()
    &&& columns[k].id@ == id
    &&& forall|i: int| 0 <= i < k ==> (#[trigger] columns[i]).id@ != id
}

/// Where the first column that goes by `id` stands, if one does.
pub open spec fn position_of(columns: Seq<BoardColumn>, id: Seq<char>) -> Option<int> {
    if exists|k: int| first_named(columns, id, k) {
        Some(choose|k: int| first_named(columns, id, k))
    } else {
        None
    }
}

/// The smaller of two places.
pub open spec fn at_most(index: int, bound: int) -> int {
    if index < bound {
        index
    } else {
        bound
    }
}

/// The columns once the one that goes by `id` has been taken out and put back in at `index`
/// among the others - at their end, when `index` is past it. A name no column goes by moves
/// nothing.
pub open spec fn column_placed(columns: Seq<BoardColumn>, id: Seq<char>, index: int) -> Seq<BoardColumn> {
    match position_of(columns, id) {
        None => columns,
        Some(at) => {
            let rest = columns.remove(at);
            rest.insert(at_most(index, rest.len() as int), columns[at])
        },
    }
}

/// Whether no two columns go by one name.
pub open spec fn names_differ(columns: Seq<BoardColumn>) -> bool {
    forall|i: int, j: int|
        0 <= i < columns.len() && 0 <= j < columns.len() && i != j ==> (#[trigger] columns[i]).id@
            != (#[trigger] columns[j]).id@
}

/// Whether a move the server was told of is where the server's columns have it: the column
/// stands at the place it was moved to, or last when that place is past the end.
pub open spec fn move_landed(columns: Seq<BoardColumn>, pending: PendingColumnPlace) -> bool {
    position_of(columns, pending.column@) == Some(
        at_most(pending.index as int, if columns.len() > 0 { columns.len() - 1 } else { 0 }),
    )
}

proof fn lemma_first_named_is_one(columns: Seq<BoardColumn>, id: Seq<char>, j: int, k: int)
    requires
        first_named(columns, id, j),
        first_named(columns, id, k),
    ensures
        j == k,
{
    if j < k {
        assert(columns[j].id@ == id);
    } else if k < j {
        assert(columns[k].id@ == id);
    }
}

/// Where the first column that goes by `id` stands.
pub fn find_column(columns: &Vec<BoardColumn>, id: &ColumnId) -> (at: Option<usize>)
    ensures
        match at {
            Some(k) => position_of(columns@, id@) == Some(k as int),
            None => position_of(columns@, id@) is None,
        },
{
    let mut i: usize = 0;
    while i < columns.len()
        invariant
            i <= columns.len(),
            forall|k: int| 0 <= k < i ==> (#[trigger] columns@[k]).id@ != id@,
        decreases columns.len() - i,
    {
        if columns[i].id.is(id) {
            proof {
                assert(first_named(columns@, id@, i as int));
                let k = choose|k: int| first_named(columns@, id@, k);
                lemma_first_named_is_one(columns@, id@, i as int, k);
            }
            return Some(i);
        }
        i = i + 1;
    }
    proof {
        assert forall|k: int| !first_named(columns@, id@, k) by {
            if 0 <= k < columns@.len() {
                assert(columns@[k].id@ != id@);
            }
        }
    }
    None
}

/// Move a column on the board being drawn, ahead of the server being told about it.
pub fn place_column_in(columns: &mut Vec<BoardColumn>, moved: &ColumnId, index: usize)
    ensures
        final(columns)@ == column_placed(old(columns)@, moved@, index as int),
{
    let at = match find_column(columns, moved) {
        None => {
            return;
        },
        Some(at) => at,
    };
    let column = columns.remove(at);
    let len = columns.len();
    let into = if index < len {
        index
    } else {
        len
    };
    columns.insert(into, column);
}

/// The columns in the order they are drawn, with the one being dragged already moved to where
/// it is being held - so the columns around it are out of the way before it is let go of.
pub fn ordered_columns(board: &BoardState, dragged: Option<&ColumnId>) -> (order: Vec<BoardColumn>)
    ensures
        order@ == match (board.column_landing, dragged) {
            (Some(landing), Some(id)) => column_placed(board.columns@, id@, landing as int),
            _ => board.columns@,
        },
{
    let mut columns: Vec<BoardColumn> = Vec::new();
    let mut i: usize = 0;
    while i < board.columns.len()
        invariant
            i <= board.columns.len(),
            columns@ == board.columns@.take(i as int),
        decreases board.columns.len() - i,
    {
        columns.push(board.columns[i].duplicate());
        i = i + 1;
        assert(columns@ =~= board.columns@.take(i as int));
    }
    assert(board.columns@.take(board.columns.len() as int) =~= board.columns@);
    match (board.column_landing, dragged) {
        (Some(landing), Some(id)) => {
            place_column_in(&mut columns, id, landing);
        },
        _ => {},
    }
    columns
}

/// Let go of a column being dragged at `at`: it is drawn there at once, and kept there until
/// the server's columns have it there too.
pub fn drop_column(board: &mut BoardState, dragged: &ColumnId, at: usize)
    ensures
        final(board).column_landing is None,
        final(board).pending_column_place matches Some(p) && p.column@ == dragged@ && p.index == at,
        final(board).columns@ == column_placed(old(board).columns@, dragged@, at as int),
        *final(board) == (BoardState {
            columns: final(board).columns,
            column_landing: None,
            pending_column_place: final(board).pending_column_place,
            ..*old(board)
        }),
{
    board.column_landing = None;
    board.pending_column_place = Some(PendingColumnPlace { column: dragged.duplicate(), index: at });
    place_column_in(&mut board.columns, dragged, at);
}

/// Take the columns the server answered with, keeping a move it may not have seen yet: while
/// the moved column is not where it was put, it is put there again, and once it is, the move
/// is done with.
pub fn accept_columns(board: &mut BoardState, columns: Vec<BoardColumn>)
    ensures
        match old(board).pending_column_place {
            None => final(board).columns@ == columns@ && final(board).pending_column_place is None,
            Some(pending) => if move_landed(columns@, pending) {
                final(board).columns@ == columns@ && final(board).pending_column_place is None
            } else {
                &&& final(board).columns@ == column_placed(columns@, pending.column@, pending.index as int)
                &&& final(board).pending_column_place == old(board).pending_column_place
            },
        },
        *final(board) == (BoardState {
            columns: final(board).columns,
            pending_column_place: final(board).pending_column_place,
            ..*old(board)
        }),
{
    let mut columns = columns;
    let mut landed = false;
    let mut place: Option<(ColumnId, usize)> = None;
    match &board.pending_column_place {
        None => {},
        Some(pending) => {
            let last = if columns.len() > 0 {
                columns.len() - 1
            } else {
                0
            };
            let want = if pending.index < last {
                pending.index
            } else {
                last
            };
            landed = match find_column(&columns, &pending.column) {
                Some(at) => at == want,
                None => false,
            };
            if !landed {
                place = Some((pending.column.duplicate(), pending.index));
            }
        },
    }
    if landed {
        board.pending_column_place = None;
    }
    match place {
        Some((column, index)) => {
            place_column_in(&mut columns, &column, index);
        },
        None => {},
    }
    board.columns = columns;
}

/// Moving a column keeps every column: the board has the same columns afterwards, each as
/// many times as before, only in another order.
pub proof fn law_a_column_move_keeps_every_column(columns: Seq<BoardColumn>, id: Seq<char>, index: int)
    requires
        0 <= index,
    ensures
        column_placed(columns, id, index).to_multiset() == columns.to_multiset(),
{
    broadcast use vstd::multiset::group_multiset_axioms;
    broadcast use vstd::seq_lib::group_to_multiset_ensures;

    match position_of(columns, id) {
        None => {},
        Some(at) => {
            let k = choose|k: int| first_named(columns, id, k);
            assert(first_named(columns, id, k));
            assert(columns.contains(columns[at]));
            let rest = columns.remove(at);
            vstd::seq_lib::to_multiset_remove(columns, at);
            vstd::seq_lib::to_multiset_insert(rest, at_most(index, rest.len() as int), columns[at]);
            assert(columns.to_multiset().remove(columns[at]).insert(columns[at])
                =~= columns.to_multiset());
        },
    }
}

/// A move the server has not answered for stays drawn: whatever order the server's columns
/// come in, once they are taken the moved column stands where it was put - or last, when that
/// place is past the end. (Columns are told apart by name, so no two go by one.)
pub proof fn law_a_column_move_stays_drawn_until_the_server_has_it(
    columns: Seq<BoardColumn>,
    pending: PendingColumnPlace,
)
    requires
        names_differ(columns),
        position_of(columns, pending.column@) is Some,
    ensures
        move_landed(column_placed(columns, pending.column@, pending.index as int), pending),
{
    let id = pending.column@;
    let at = position_of(columns, id)->0;
    let witness = choose|k: int| first_named(columns, id, k);
    assert(first_named(columns, id, witness));
    let rest = columns.remove(at);
    let into = at_most(pending.index as int, rest.len() as int);
    let placed = rest.insert(into, columns[at]);
    assert(placed.len() == columns.len());
    assert(placed[into] == columns[at]);
    assert forall|i: int| 0 <= i < into implies (#[trigger] placed[i]).id@ != id by {
        assert(placed[i] == rest[i]);
        if i < at {
            assert(rest[i] == columns[i]);
        } else {
            assert(rest[i] == columns[i + 1]);
            assert(columns[i + 1].id@ != columns[at].id@);
        }
    }
    assert(first_named(placed, id, into));
    let k = choose|k: int| first_named(placed, id, k);
    lemma_first_named_is_one(placed, id, into, k);
    assert(position_of(placed, id) == Some(into));
}

} // verus!
