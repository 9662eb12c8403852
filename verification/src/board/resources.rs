//! What a card lists under its title: the runs and files a task has, and what pressing one of
//! them does.

use vstd::prelude::*;

use crate::board::actions::Amend;

verus! {

/// What a run or a file on a card is.
#[derive(Clone, Copy, PartialEq, Eq, Debug, Structural)]
pub enum TaskResourceKind {
    File,
    Shell,
    Agent,
}

/// What a row says when the pointer rests on it.
pub open spec fn hover_spec(kind: TaskResourceKind) -> Seq<char> {
    match kind {
        TaskResourceKind::File => "Open this file in a pane"@,
        TaskResourceKind::Shell | TaskResourceKind::Agent => "Open this shell in a tab"@,
    }
}

/// What a run's or a file's row says when the pointer rests on it.
pub fn hover_of(kind: TaskResourceKind) -> (hover: &'static str)
    ensures
        hover@ == hover_spec(kind),
{
    match kind {
        TaskResourceKind::File => "Open this file in a pane",
        TaskResourceKind::Shell | TaskResourceKind::Agent => "Open this shell in a tab",
    }
}

/// How one repo a task asks to have looked at reads on its card.
#[derive(Debug)]
pub struct RequestRow {
    /// Whether it is still waiting: not crossed off, its task not finished, and the repo with
    /// changed files to commit.
    pub pending: bool,
    /// What the row is called.
    pub name_label: String,
    /// The menu's way to cross the line off or put it back, what it says when the pointer
    /// rests on it, and what it does.
    pub toggle_label: &'static str,
    pub toggle_hover: &'static str,
    pub toggle: Amend,
}

/// How one repo a task asks to have looked at reads on its card: pending, or reviewed - three
/// ways to be finished with, the repo committed, the line crossed off, the task finished - and
/// the menu's way to cross it off or put it back.
pub fn request_row(name: &str, done: bool, task_finished: bool, changed_files: u64) -> (row: RequestRow)
    ensures
        row.pending == (!done && !task_finished && changed_files > 0),
        row.name_label@ == if row.pending {
            "pending "@ + name@ + " review"@
        } else {
            name@ + " reviewed"@
        },
        row.toggle == Amend::Done(!done),
        row.toggle_label@ == if done {
            "mark as pending"@
        } else {
            "mark as completed"@
        },
        row.toggle_hover@ == if done {
            "Put this line back on the list"@
        } else {
            "Cross this line off - the work is committed and wants no more looking at"@
        },
{
    let pending = !done && !task_finished && changed_files > 0;
    let name_label = if pending {
        let mut label = String::from_str("pending ");
        label.append(name);
        label.append(" review");
        label
    } else {
        let mut label = String::from_str(name);
        label.append(" reviewed");
        label
    };
    if done {
        RequestRow {
            pending,
            name_label,
            toggle_label: "mark as pending",
            toggle_hover: "Put this line back on the list",
            toggle: Amend::Done(false),
        }
    } else {
        RequestRow {
            pending,
            name_label,
            toggle_label: "mark as completed",
            toggle_hover: "Cross this line off - the work is committed and wants no more looking at",
            toggle: Amend::Done(true),
        }
    }
}

} // verus!
