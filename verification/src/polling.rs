//! How often the window reads again what it is showing, so changes made elsewhere - staging
//! from a shell, an agent moving a card - show up without anyone asking.

use vstd::prelude::*;

use crate::model::{holds_id, ids_hold};

verus! {

/// How often an open review reads its repo again while the window is focused, in milliseconds.
pub const POLL_INTERVAL_MS: u64 = 900;

/// The same, for a window that is not focused.
pub const BACKGROUND_POLL_INTERVAL_MS: u64 = 5000;

/// How often an open board reads its tasks again: a directory walk, and a card moves at the
/// pace an agent works rather than a keystroke.
pub const BOARD_POLL_INTERVAL_MS: u64 = 1500;

/// Which of the open reviews read their repo again this frame, one flag to a review: all of
/// them once an interval has passed since the last round - a shorter one for a focused window -
/// and otherwise those that asked to be read. `restart` says whether the round's clock starts
/// again: it does when the round was due and there is a review to read.
pub struct ReviewReads {
    pub read: Vec<bool>,
    pub restart: bool,
}

pub open spec fn reviews_due(focused: bool, since_last_ms: u64) -> bool {
    since_last_ms >= if focused { POLL_INTERVAL_MS } else { BACKGROUND_POLL_INTERVAL_MS }
}

pub fn reviews_to_read(focused: bool, since_last_ms: u64, requested: &Vec<bool>) -> (reads: ReviewReads)
    ensures
        reads.read@.len() == requested@.len(),
        forall|i: int|
            0 <= i < requested@.len() ==> #[trigger] reads.read@[i] == (reviews_due(focused, since_last_ms)
                || requested@[i]),
        reads.restart == (reviews_due(focused, since_last_ms) && requested@.len() > 0),
{
    let interval = if focused {
        POLL_INTERVAL_MS
    } else {
        BACKGROUND_POLL_INTERVAL_MS
    };
    let due = since_last_ms >= interval;
    let mut read: Vec<bool> = Vec::new();
    let mut i: usize = 0;
    while i < requested.len()
        invariant
            i <= requested.len(),
            due == reviews_due(focused, since_last_ms),
            read@.len() == i,
            forall|m: int| 0 <= m < i ==> #[trigger] read@[m] == (due || requested@[m]),
        decreases requested.len() - i,
    {
        read.push(due || requested[i]);
        i = i + 1;
    }
    let restart = due && requested.len() > 0;
    ReviewReads { read, restart }
}

/// Whether the board reads its tasks again this frame, and whether its clock starts again.
#[derive(Clone, Copy, PartialEq, Eq, Debug, Structural)]
pub enum BoardRead {
    /// Not now.
    Skip,
    /// Read them; the clock starts again when the interval had passed, and not for a read
    /// asked for sooner.
    Read { restart: bool },
}

/// Whether the board reads its tasks again: only while a board is open on a session, once the
/// interval has passed or when something asked for it.
pub fn board_read(open: bool, has_session: bool, since_last_ms: u64, requested: bool) -> (read: BoardRead)
    ensures
        read == if !open || !has_session {
            BoardRead::Skip
        } else if since_last_ms >= BOARD_POLL_INTERVAL_MS {
            BoardRead::Read { restart: true }
        } else if requested {
            BoardRead::Read { restart: false }
        } else {
            BoardRead::Skip
        },
{
    if !open || !has_session {
        return BoardRead::Skip;
    }
    let due = since_last_ms >= BOARD_POLL_INTERVAL_MS;
    if !due && !requested {
        return BoardRead::Skip;
    }
    BoardRead::Read { restart: due }
}

/// The hunk a review keeps active once a fresh diff has been read: the one it had, while the
/// diff still has a hunk of that id, and none otherwise - an active hunk the diff no longer
/// holds would leave the keys acting on nothing.
pub fn active_hunk_after(active: Option<String>, hunk_ids: &Vec<String>) -> (kept: Option<String>)
    ensures
        match active {
            Some(a) => kept == if holds_id(hunk_ids@, a@) {
                Some(a)
            } else {
                None
            },
            None => kept is None,
        },
{
    match active {
        Some(a) => if ids_hold(hunk_ids, &a) {
            Some(a)
        } else {
            None
        },
        None => None,
    }
}

} // verus!
