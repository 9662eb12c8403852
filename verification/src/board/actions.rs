//! What the board does once a card is clicked, dragged or typed into: what changes on the board
//! at once, what the window is asked to open, and what the backend is asked to do - and what
//! its answer changes. Collected while drawing and acted on afterwards, so nothing changes the
//! pane tree or the task list while either is being read.

use vstd::prelude::*;

use crate::board::resources::TaskResourceKind;
use crate::board::selection::{let_go_of_all, mark_only, marks, well_marked};
use crate::model::{
    creating_set, put_draft, remove_draft, set_creating, with_draft, without_draft, BoardState,
    ColumnEnd, ColumnId, TaskDraft, TaskPaneBox,
};
use crate::text::{same_text, trim, trimmed};

verus! {

/// How a line of a task's review requests is changed.
#[derive(Clone, Copy, PartialEq, Eq, Debug, Structural)]
pub enum Amend {
    /// Crossed off - the work is committed and wants no more looking at - or put back on.
    Done(bool),
    /// Taken out of the list: the line should not have been written.
    Dismiss,
}

/// What a click on the board asked for.
#[derive(Debug)]
pub enum BoardAction {
    /// Open a pane to write a new task on, joining this column at the end whose `+` was
    /// pressed, under the draft the window named for it.
    OpenNewTask { column: ColumnId, joins: ColumnEnd, draft_id: String },
    /// Make the task a new-task pane has been named.
    Create { draft_id: String, column: ColumnId, joins: ColumnEnd, title: String, notes: String },
    /// Cards let go of in a column, at the place among its cards they were dropped.
    Place { task_ids: Vec<String>, status: ColumnId, index: usize },
    /// A column let go of on the board, at the place among the others it was dropped.
    PlaceColumn { column: ColumnId, index: usize },
    AddColumn { label: String },
    RenameColumn { column: ColumnId, label: String },
    /// Which end of a column a card moved into it goes to, or `None` for where it was dropped.
    SetColumnArrivals { column: ColumnId, arrivals: Option<ColumnEnd> },
    CancelColumnRename,
    DeleteColumn { column: ColumnId },
    CloseColumnComposer,
    Delete { task_id: String },
    Rename { task_id: String, title: String },
    CancelRename,
    /// Turn the palette into the file finder, picking a file to put on the task's card.
    PickFile { task_id: String },
    /// Open a file linked to a card.
    OpenFile { task_id: String, file_path: String },
    /// Start a shell, or an agent by its label, in the task.
    Start { task_id: String, kind: TaskResourceKind, agent: Option<String> },
    /// Resume a run of the task; `command` is the agent it ran, if any.
    Resume { task_id: String, resource_id: String, command: Option<String> },
    OpenAttachPicker { task_id: String, task_title: String },
    CloseAttachPicker,
    /// Put a picked session of an agent on the task, and open a shell resumed on it.
    Attach { task_id: String, agent: String, agent_session_id: String },
    Stop { task_id: String, resource_id: String },
    DeleteResource { task_id: String, resource_id: String },
    ArmResourceDelete { resource_id: String },
    CancelResourceDelete,
    /// Bring a task's shell on screen, in a tab of its own.
    OpenShell { terminal_id: String, command: Option<String>, task_id: String },
    /// Open the review of what the task has changed.
    OpenReview { repo_path: String, title: String },
    /// Change one line of a task's review requests.
    AmendReviewRequest { task_id: String, index: usize, amend: Amend },
    /// Write what has been typed into a task's notes.
    SaveNotes { task_id: String, notes: String },
    /// Open the task's own pane.
    OpenStart { task_id: String, title: String, opens_on: TaskPaneBox },
}

/// A pane the board asks the window to open.
#[derive(Debug, PartialEq)]
pub enum PaneRequest {
    NewTask { column: ColumnId, joins: ColumnEnd, draft_id: String },
    AttachTerminal { terminal_id: String, command: Option<String>, task_id: String },
    TaskStart { task_id: String, title: String },
    ReviewRepo { repo_path: String, title: String },
}

/// What the backend is asked to do for the board.
#[derive(Debug, PartialEq)]
pub enum BoardCall {
    CreateTask { draft_id: String, title: String, column: ColumnId, joins: ColumnEnd, notes: String },
    PlaceTasks { task_ids: Vec<String>, status: ColumnId, index: usize },
    DeleteTask { task_id: String },
    StartResource { task_id: String, kind: TaskResourceKind, agent: Option<String> },
    ResumeResource { task_id: String, resource_id: String, command: Option<String> },
    ListAgentSessions,
    AttachResource { task_id: String, agent: String, agent_session_id: String },
    StopResource { task_id: String, resource_id: String },
    DeleteResource { task_id: String, resource_id: String },
    RenameTask { task_id: String, title: String },
    AddColumn { label: String },
    RenameColumn { column: ColumnId, label: String },
    SetColumnArrivals { column: ColumnId, arrivals: Option<ColumnEnd> },
    DeleteColumn { column: ColumnId },
    PlaceColumn { column: ColumnId, index: usize },
    SaveNotes { task_id: String, notes: String },
    /// Change one line of the task's request for review, in the file the repo keeps it in.
    AmendReviewRequest { repo_path: String, task_id: String, index: usize, amend: Amend },
}

/// What the window does after an action has changed the board.
#[derive(Debug, PartialEq)]
pub enum BoardWork {
    Nothing,
    Open(PaneRequest),
    Call(BoardCall),
    /// Turn the palette into the file finder, for the task's card.
    PickFileFor(String),
}

/// The work an action hands the window.
pub open spec fn work_of(action: BoardAction, repo_path: Option<String>) -> BoardWork {
    match action {
        BoardAction::OpenNewTask { column, joins, draft_id } => BoardWork::Open(
            PaneRequest::NewTask { column, joins, draft_id },
        ),
        BoardAction::Create { draft_id, column, joins, title, notes } => BoardWork::Call(
            BoardCall::CreateTask { draft_id, title, column, joins, notes },
        ),
        BoardAction::Place { task_ids, status, index } => BoardWork::Call(
            BoardCall::PlaceTasks { task_ids, status, index },
        ),
        BoardAction::PlaceColumn { column, index } => BoardWork::Call(
            BoardCall::PlaceColumn { column, index },
        ),
        BoardAction::AddColumn { label } => BoardWork::Call(BoardCall::AddColumn { label }),
        BoardAction::RenameColumn { column, label } => BoardWork::Call(
            BoardCall::RenameColumn { column, label },
        ),
        BoardAction::SetColumnArrivals { column, arrivals } => BoardWork::Call(
            BoardCall::SetColumnArrivals { column, arrivals },
        ),
        BoardAction::CancelColumnRename => BoardWork::Nothing,
        BoardAction::DeleteColumn { column } => BoardWork::Call(BoardCall::DeleteColumn { column }),
        BoardAction::CloseColumnComposer => BoardWork::Nothing,
        BoardAction::Delete { task_id } => BoardWork::Call(BoardCall::DeleteTask { task_id }),
        BoardAction::Rename { task_id, title } => BoardWork::Call(
            BoardCall::RenameTask { task_id, title },
        ),
        BoardAction::CancelRename => BoardWork::Nothing,
        BoardAction::PickFile { task_id } => BoardWork::PickFileFor(task_id),
        BoardAction::OpenFile { .. } => BoardWork::Nothing,
        BoardAction::Start { task_id, kind, agent } => BoardWork::Call(
            BoardCall::StartResource { task_id, kind, agent },
        ),
        BoardAction::Resume { task_id, resource_id, command } => BoardWork::Call(
            BoardCall::ResumeResource { task_id, resource_id, command },
        ),
        BoardAction::OpenAttachPicker { .. } => BoardWork::Call(BoardCall::ListAgentSessions),
        BoardAction::CloseAttachPicker => BoardWork::Nothing,
        BoardAction::Attach { task_id, agent, agent_session_id } => BoardWork::Call(
            BoardCall::AttachResource { task_id, agent, agent_session_id },
        ),
        BoardAction::Stop { task_id, resource_id } => BoardWork::Call(
            BoardCall::StopResource { task_id, resource_id },
        ),
        BoardAction::DeleteResource { task_id, resource_id } => BoardWork::Call(
            BoardCall::DeleteResource { task_id, resource_id },
        ),
        BoardAction::ArmResourceDelete { .. } => BoardWork::Nothing,
        BoardAction::CancelResourceDelete => BoardWork::Nothing,
        BoardAction::OpenShell { terminal_id, command, task_id } => BoardWork::Open(
            PaneRequest::AttachTerminal { terminal_id, command, task_id },
        ),
        BoardAction::OpenReview { repo_path, title } => BoardWork::Open(
            PaneRequest::ReviewRepo { repo_path, title },
        ),
        BoardAction::AmendReviewRequest { task_id, index, amend } => match repo_path {
            Some(repo_path) => BoardWork::Call(
                BoardCall::AmendReviewRequest { repo_path, task_id, index, amend },
            ),
            None => BoardWork::Nothing,
        },
        BoardAction::SaveNotes { task_id, notes } => BoardWork::Call(
            BoardCall::SaveNotes { task_id, notes },
        ),
        BoardAction::OpenStart { task_id, title, .. } => BoardWork::Open(
            PaneRequest::TaskStart { task_id, title },
        ),
    }
}

/// What an action changes on the board at once - before anything has been asked of anyone.
/// Every field it does not name is as it was.
pub open spec fn acted(old: BoardState, new: BoardState, action: BoardAction) -> bool {
    match action {
        BoardAction::OpenNewTask { draft_id, .. } => {
            &&& new == BoardState {
                marked: new.marked,
                mark_anchor: new.mark_anchor,
                pages_to_close: new.pages_to_close,
                task_box_focus: Some((draft_id, TaskPaneBox::Title)),
                drafts: new.drafts,
                ..old
            }
            &&& new.drafts@ == with_draft(old.drafts@, draft_id, TaskDraft { creating: false })
            &&& marks(new) == Set::<Seq<char>>::empty()
            &&& new.mark_anchor is None
            &&& new.pages_to_close@ == old.pages_to_close@ + old.marked@
        },
        BoardAction::Create { draft_id, .. } => {
            &&& new == BoardState { filter: new.filter, drafts: new.drafts, ..old }
            &&& new.filter@.len() == 0
            &&& new.drafts@ == creating_set(old.drafts@, draft_id@, true)
        },
        BoardAction::Delete { .. } => new == BoardState { pending_delete: None, ..old },
        BoardAction::Rename { .. } | BoardAction::CancelRename => new == BoardState {
            renaming: None,
            ..old
        },
        BoardAction::AddColumn { .. } | BoardAction::CloseColumnComposer => {
            &&& new == BoardState {
                new_column_label: new.new_column_label,
                column_composer_open: false,
                ..old
            }
            &&& new.new_column_label@.len() == 0
        },
        BoardAction::RenameColumn { .. } | BoardAction::CancelColumnRename => new == BoardState {
            renaming_column: None,
            ..old
        },
        BoardAction::DeleteColumn { .. } => new == BoardState { pending_column_delete: None, ..old },
        BoardAction::OpenFile { task_id, file_path } => new == BoardState {
            opened_file: Some((file_path, task_id)),
            ..old
        },
        BoardAction::OpenAttachPicker { task_id, task_title } => new == BoardState {
            attach_picker: Some((task_id, task_title)),
            ..old
        },
        BoardAction::CloseAttachPicker | BoardAction::Attach { .. } => new == BoardState {
            attach_picker: None,
            ..old
        },
        BoardAction::ArmResourceDelete { resource_id } => new == BoardState {
            pending_resource_delete: Some(resource_id),
            ..old
        },
        BoardAction::CancelResourceDelete | BoardAction::DeleteResource { .. } => new == BoardState {
            pending_resource_delete: None,
            ..old
        },
        BoardAction::OpenStart { task_id, opens_on, .. } => {
            &&& new == BoardState {
                marked: new.marked,
                mark_anchor: Some(task_id),
                task_box_focus: if opens_on == TaskPaneBox::Neither {
                    None
                } else {
                    Some((task_id, opens_on))
                },
                ..old
            }
            &&& new.marked@ == seq![task_id]
        },
        _ => new == old,
    }
}

fn copy_of(s: &String) -> (copy: String)
    ensures
        copy == *s,
{
    s.clone()
}

/// Act on what a click on the board asked for: change the board at once where the action
/// says so, and hand the window the rest - a pane to open, a call to make, the file finder.
/// Opening a new task's pane lets the marks go, since what is in front is a task being
/// written; creating it clears the filter, so the new card is on the board rather than behind
/// a query asked before it existed; opening a task's page marks its card alone. A line of a
/// request for review is changed in the repo the window is open on, `repo_path`, and not at
/// all while there is none.
pub fn apply(board: &mut BoardState, action: BoardAction, repo_path: Option<String>) -> (work: BoardWork)
    requires
        well_marked(*old(board)),
    ensures
        acted(*old(board), *final(board), action),
        work == work_of(action, repo_path),
        well_marked(*final(board)),
{
    match action {
        BoardAction::OpenNewTask { column, joins, draft_id } => {
            let_go_of_all(board);
            put_draft(&mut board.drafts, copy_of(&draft_id), TaskDraft { creating: false });
            board.task_box_focus = Some((copy_of(&draft_id), TaskPaneBox::Title));
            BoardWork::Open(PaneRequest::NewTask { column, joins, draft_id })
        },
        BoardAction::Create { draft_id, column, joins, title, notes } => {
            set_creating(&mut board.drafts, &draft_id, true);
            board.filter = String::new();
            BoardWork::Call(BoardCall::CreateTask { draft_id, title, column, joins, notes })
        },
        BoardAction::Place { task_ids, status, index } => BoardWork::Call(
            BoardCall::PlaceTasks { task_ids, status, index },
        ),
        BoardAction::PlaceColumn { column, index } => BoardWork::Call(
            BoardCall::PlaceColumn { column, index },
        ),
        BoardAction::AddColumn { label } => {
            board.new_column_label = String::new();
            board.column_composer_open = false;
            BoardWork::Call(BoardCall::AddColumn { label })
        },
        BoardAction::CloseColumnComposer => {
            board.column_composer_open = false;
            board.new_column_label = String::new();
            BoardWork::Nothing
        },
        BoardAction::RenameColumn { column, label } => {
            board.renaming_column = None;
            BoardWork::Call(BoardCall::RenameColumn { column, label })
        },
        BoardAction::SetColumnArrivals { column, arrivals } => BoardWork::Call(
            BoardCall::SetColumnArrivals { column, arrivals },
        ),
        BoardAction::CancelColumnRename => {
            board.renaming_column = None;
            BoardWork::Nothing
        },
        BoardAction::DeleteColumn { column } => {
            board.pending_column_delete = None;
            BoardWork::Call(BoardCall::DeleteColumn { column })
        },
        BoardAction::Delete { task_id } => {
            board.pending_delete = None;
            BoardWork::Call(BoardCall::DeleteTask { task_id })
        },
        BoardAction::Rename { task_id, title } => {
            board.renaming = None;
            BoardWork::Call(BoardCall::RenameTask { task_id, title })
        },
        BoardAction::CancelRename => {
            board.renaming = None;
            BoardWork::Nothing
        },
        BoardAction::PickFile { task_id } => BoardWork::PickFileFor(task_id),
        BoardAction::OpenFile { task_id, file_path } => {
            board.opened_file = Some((file_path, task_id));
            BoardWork::Nothing
        },
        BoardAction::Start { task_id, kind, agent } => BoardWork::Call(
            BoardCall::StartResource { task_id, kind, agent },
        ),
        BoardAction::Resume { task_id, resource_id, command } => BoardWork::Call(
            BoardCall::ResumeResource { task_id, resource_id, command },
        ),
        BoardAction::OpenAttachPicker { task_id, task_title } => {
            board.attach_picker = Some((task_id, task_title));
            BoardWork::Call(BoardCall::ListAgentSessions)
        },
        BoardAction::CloseAttachPicker => {
            board.attach_picker = None;
            BoardWork::Nothing
        },
        BoardAction::Attach { task_id, agent, agent_session_id } => {
            board.attach_picker = None;
            BoardWork::Call(BoardCall::AttachResource { task_id, agent, agent_session_id })
        },
        BoardAction::Stop { task_id, resource_id } => BoardWork::Call(
            BoardCall::StopResource { task_id, resource_id },
        ),
        BoardAction::ArmResourceDelete { resource_id } => {
            board.pending_resource_delete = Some(resource_id);
            BoardWork::Nothing
        },
        BoardAction::CancelResourceDelete => {
            board.pending_resource_delete = None;
            BoardWork::Nothing
        },
        BoardAction::DeleteResource { task_id, resource_id } => {
            board.pending_resource_delete = None;
            BoardWork::Call(BoardCall::DeleteResource { task_id, resource_id })
        },
        BoardAction::OpenShell { terminal_id, command, task_id } => BoardWork::Open(
            PaneRequest::AttachTerminal { terminal_id, command, task_id },
        ),
        BoardAction::OpenReview { repo_path, title } => BoardWork::Open(
            PaneRequest::ReviewRepo { repo_path, title },
        ),
        BoardAction::AmendReviewRequest { task_id, index, amend } => match repo_path {
            Some(repo_path) => BoardWork::Call(
                BoardCall::AmendReviewRequest { repo_path, task_id, index, amend },
            ),
            None => BoardWork::Nothing,
        },
        BoardAction::SaveNotes { task_id, notes } => BoardWork::Call(
            BoardCall::SaveNotes { task_id, notes },
        ),
        BoardAction::OpenStart { task_id, title, opens_on } => {
            mark_only(board, copy_of(&task_id));
            board.task_box_focus = if opens_on == TaskPaneBox::Neither {
                None
            } else {
                Some((copy_of(&task_id), opens_on))
            };
            BoardWork::Open(PaneRequest::TaskStart { task_id, title })
        },
    }
}

/// What a failed call says, in front of the error.
pub open spec fn failure_words(call: BoardCall) -> Seq<char> {
    match call {
        BoardCall::CreateTask { .. } => "could not create the task"@,
        BoardCall::PlaceTasks { .. } => "could not move the task"@,
        BoardCall::DeleteTask { .. } => "could not delete the task"@,
        BoardCall::StartResource { .. } => "could not start it"@,
        BoardCall::ResumeResource { .. } => "could not resume it"@,
        BoardCall::ListAgentSessions => "could not list the agents' sessions"@,
        BoardCall::AttachResource { .. } => "could not attach it"@,
        BoardCall::StopResource { .. } => "could not stop it"@,
        BoardCall::DeleteResource { .. } => "could not remove it"@,
        BoardCall::RenameTask { .. } => "could not rename the task"@,
        BoardCall::AddColumn { .. } => "could not add the column"@,
        BoardCall::RenameColumn { .. } => "could not rename the column"@,
        BoardCall::SetColumnArrivals { .. } => "could not change the column"@,
        BoardCall::DeleteColumn { .. } => "could not remove the column"@,
        BoardCall::PlaceColumn { .. } => "could not move the column"@,
        BoardCall::SaveNotes { .. } => "could not write the notes"@,
        BoardCall::AmendReviewRequest { .. } => "could not change the review request"@,
    }
}

/// What a failed call says, in front of the error.
pub fn failure_words_of(call: &BoardCall) -> (words: &'static str)
    ensures
        words@ == failure_words(*call),
{
    match call {
        BoardCall::CreateTask { .. } => "could not create the task",
        BoardCall::PlaceTasks { .. } => "could not move the task",
        BoardCall::DeleteTask { .. } => "could not delete the task",
        BoardCall::StartResource { .. } => "could not start it",
        BoardCall::ResumeResource { .. } => "could not resume it",
        BoardCall::ListAgentSessions => "could not list the agents' sessions",
        BoardCall::AttachResource { .. } => "could not attach it",
        BoardCall::StopResource { .. } => "could not stop it",
        BoardCall::DeleteResource { .. } => "could not remove it",
        BoardCall::RenameTask { .. } => "could not rename the task",
        BoardCall::AddColumn { .. } => "could not add the column",
        BoardCall::RenameColumn { .. } => "could not rename the column",
        BoardCall::SetColumnArrivals { .. } => "could not change the column",
        BoardCall::DeleteColumn { .. } => "could not remove the column",
        BoardCall::PlaceColumn { .. } => "could not move the column",
        BoardCall::SaveNotes { .. } => "could not write the notes",
        BoardCall::AmendReviewRequest { .. } => "could not change the review request",
    }
}

/// What a call's answer changes on the board. Every call that changed the board asks for it
/// to be read again; a move the server would not make is not one to keep drawing; and a shell
/// that was started, resumed or attached is brought on screen. `terminal` is the shell the
/// answer names, for the calls that start one.
pub fn call_answered(board: &mut BoardState, call: &BoardCall, worked: bool, terminal: Option<String>)
    ensures
        final(board).refresh_requested == match *call {
            BoardCall::ListAgentSessions | BoardCall::AmendReviewRequest { .. } => old(board).refresh_requested,
            _ => true,
        },
        final(board).pending_place == match *call {
            BoardCall::PlaceTasks { .. } if !worked => None,
            _ => old(board).pending_place,
        },
        final(board).pending_column_place == match *call {
            BoardCall::PlaceColumn { .. } if !worked => None,
            _ => old(board).pending_column_place,
        },
        final(board).opened_shell == match (*call, worked, terminal) {
            (BoardCall::StartResource { task_id, agent, .. }, true, Some(t)) => Some((t, agent, task_id)),
            (BoardCall::ResumeResource { task_id, command, .. }, true, Some(t)) => Some((t, command, task_id)),
            (BoardCall::AttachResource { task_id, agent, .. }, true, Some(t)) => Some((t, Some(agent), task_id)),
            _ => old(board).opened_shell,
        },
        *final(board) == (BoardState {
            refresh_requested: final(board).refresh_requested,
            pending_place: final(board).pending_place,
            pending_column_place: final(board).pending_column_place,
            opened_shell: final(board).opened_shell,
            drafts: final(board).drafts,
            ..*old(board)
        }),
        final(board).drafts@ == match *call {
            BoardCall::CreateTask { draft_id, .. } if !worked => creating_set(
                old(board).drafts@,
                draft_id@,
                false,
            ),
            _ => old(board).drafts@,
        },
{
    match call {
        BoardCall::ListAgentSessions | BoardCall::AmendReviewRequest { .. } => {},
        _ => {
            board.refresh_requested = true;
        },
    }
    if !worked {
        match call {
            BoardCall::PlaceTasks { .. } => {
                board.pending_place = None;
            },
            BoardCall::PlaceColumn { .. } => {
                board.pending_column_place = None;
            },
            BoardCall::CreateTask { draft_id, .. } => {
                set_creating(&mut board.drafts, draft_id, false);
            },
            _ => {},
        }
        return;
    }
    let terminal_id = match terminal {
        Some(t) => t,
        None => {
            return;
        },
    };
    match call {
        BoardCall::StartResource { task_id, agent, .. } => {
            let agent = match agent {
                Some(a) => Some(copy_of(a)),
                None => None,
            };
            board.opened_shell = Some((terminal_id, agent, copy_of(task_id)));
        },
        BoardCall::ResumeResource { task_id, command, .. } => {
            let command = match command {
                Some(c) => Some(copy_of(c)),
                None => None,
            };
            board.opened_shell = Some((terminal_id, command, copy_of(task_id)));
        },
        BoardCall::AttachResource { task_id, agent, .. } => {
            board.opened_shell = Some((terminal_id, Some(copy_of(agent)), copy_of(task_id)));
        },
        _ => {},
    }
}

/// A task made from a new-task pane: the draft it was written on is done with, its card is
/// marked, the way it is for a page opened from the board, and - for a title answered for with
/// Enter - the keyboard goes on to its notes.
pub fn task_created(board: &mut BoardState, draft_id: &String, task_id: String, keyboard_goes_to_notes: bool)
    ensures
        final(board).marked@ == seq![task_id],
        final(board).task_box_focus == if keyboard_goes_to_notes {
            Some((task_id, TaskPaneBox::Notes))
        } else {
            old(board).task_box_focus
        },
        final(board).mark_anchor == Some(task_id),
        *final(board) == (BoardState {
            marked: final(board).marked,
            mark_anchor: final(board).mark_anchor,
            task_box_focus: final(board).task_box_focus,
            drafts: final(board).drafts,
            ..*old(board)
        }),
        final(board).drafts@ == without_draft(old(board).drafts@, draft_id@),
        well_marked(*final(board)),
{
    remove_draft(&mut board.drafts, draft_id);
    mark_only(board, copy_of(&task_id));
    if keyboard_goes_to_notes {
        board.task_box_focus = Some((task_id, TaskPaneBox::Notes));
    }
}

/// What a name being edited in place comes to this frame - a card's title, a column's name.
#[derive(Debug, PartialEq)]
pub enum Renamed {
    /// Still being typed.
    Editing,
    /// Kept: the box was left, by Enter or a click away, with a name in it that is new.
    Keep(String),
    /// Put away: Escape, or left with nothing new in it.
    Cancel,
}

/// What a name being edited in place comes to: leaving the box keeps what is in it, unless it
/// is blank or the name it already had, and Escape throws it away.
pub fn renamed(typed: &str, current: &str, left_the_box: bool, escape: bool) -> (outcome: Renamed)
    ensures
        ({
            let kept = left_the_box && !escape && trimmed(typed@).len() > 0 && typed@ != current@;
            match outcome {
                Renamed::Keep(name) => kept && name@ == typed@,
                Renamed::Cancel => !kept && (escape || left_the_box),
                Renamed::Editing => !kept && !escape && !left_the_box,
            }
        }),
{
    let keep = left_the_box && !escape;
    if keep && trim(typed).unicode_len() > 0 && !same_text(typed, current) {
        Renamed::Keep(String::from_str(typed))
    } else if escape || keep {
        Renamed::Cancel
    } else {
        Renamed::Editing
    }
}

/// What the box a new column is named in asks for this frame: the column, by its name
/// trimmed, once `[add]` is pressed or Enter leaves the box with a name in it; the box put
/// away, on its close mark or Escape; nothing, otherwise.
pub fn column_composed(label: &str, add_pressed: bool, entered: bool, close: bool) -> (asked: Option<BoardAction>)
    ensures
        ({
            let ready = trimmed(label@).len() > 0;
            if (add_pressed && ready) || (entered && ready) {
                asked matches Some(BoardAction::AddColumn { label: name }) && name@ == trimmed(label@)
            } else if close {
                asked matches Some(BoardAction::CloseColumnComposer)
            } else {
                asked is None
            }
        }),
{
    let name = trim(label);
    let ready = name.unicode_len() > 0;
    if (add_pressed && ready) || (entered && ready) {
        return Some(BoardAction::AddColumn { label: String::from_str(name) });
    }
    if close {
        return Some(BoardAction::CloseColumnComposer);
    }
    None
}

} // verus!
