//! What the board holds: its tasks, the columns they stand in, and the marks and moves that
//! are in flight over them.

use vstd::prelude::*;
use vstd::std_specs::cmp::PartialEqSpecImpl;
use crate::board::gesture::Press;

verus! {

/// The name a column is known by in a task's record - `todo`, `in_progress`, `done`.
#[derive(Debug)]
pub struct ColumnId(pub String);

impl ColumnId {
    pub fn new(id: &str) -> (column: ColumnId)
        ensures
            column@ == id@,
    {
        ColumnId(String::from_str(id))
    }

    pub fn as_str(&self) -> (s: &str)
        ensures
            s@ == self@,
    {
        self.0.as_str()
    }

    /// The same name, owned again.
    pub fn duplicate(&self) -> (copy: ColumnId)
        ensures
            copy == *self,
    {
        ColumnId(self.0.clone())
    }

    /// Whether two columns are the one column.
    pub fn is(&self, other: &ColumnId) -> (same: bool)
        ensures
            same == (self@ == other@),
    {
        self.0 == other.0
    }
}

impl View for ColumnId {
    type V = Seq<char>;

    open spec fn view(&self) -> Seq<char> {
        self.0@
    }
}

impl PartialEq for ColumnId {
    fn eq(&self, other: &Self) -> (same: bool) {
        self.0 == other.0
    }
}

impl PartialEqSpecImpl for ColumnId {
    open spec fn obeys_eq_spec() -> bool {
        true
    }

    open spec fn eq_spec(&self, other: &ColumnId) -> bool {
        self.0@ == other.0@
    }
}

/// One task, as the board draws it: a card.
#[derive(Debug)]
pub struct TaskView {
    pub id: String,
    pub title: String,
    /// The column the card stands in.
    pub status: ColumnId,
    pub created_at_unix: u64,
    /// Where the task keeps its notes and whatever was left in it.
    pub dir_path: String,
    pub repo_path: String,
    /// What its `notes.md` says.
    pub notes: String,
    /// What the card is marked with, each tag in the one spelling the store keeps it in -
    /// shared by every copy of the card the board makes, since a copy never changes them.
    pub tags: std::sync::Arc<Vec<String>>,
}

impl TaskView {
    /// The same card, owned again.
    pub fn duplicate(&self) -> (copy: TaskView)
        ensures
            copy == *self,
    {
        TaskView {
            id: self.id.clone(),
            title: self.title.clone(),
            status: self.status.duplicate(),
            created_at_unix: self.created_at_unix,
            dir_path: self.dir_path.clone(),
            repo_path: self.repo_path.clone(),
            notes: self.notes.clone(),
            tags: self.tags.clone(),
        }
    }
}

/// Whether a list of ids holds this one.
pub open spec fn holds_id(ids: Seq<String>, id: Seq<char>) -> bool {
    exists|k: int| 0 <= k < ids.len() && #[trigger] ids[k]@ == id
}

pub fn ids_hold(ids: &Vec<String>, id: &String) -> (yes: bool)
    ensures
        yes == holds_id(ids@, id@),
{
    let mut k: usize = 0;
    while k < ids.len()
        invariant
            k <= ids.len(),
            forall|m: int| 0 <= m < k ==> ids@[m]@ != id@,
        decreases ids.len() - k,
    {
        if ids[k] == *id {
            return true;
        }
        k = k + 1;
    }
    false
}

/// A copy of a list of ids.
pub fn duplicate_ids(ids: &Vec<String>) -> (copy: Vec<String>)
    ensures
        copy@ == ids@,
{
    let mut copy: Vec<String> = Vec::new();
    let mut k: usize = 0;
    while k < ids.len()
        invariant
            k <= ids.len(),
            copy@ == ids@.take(k as int),
        decreases ids.len() - k,
    {
        copy.push(ids[k].clone());
        k = k + 1;
        assert(copy@ =~= ids@.take(k as int));
    }
    assert(ids@.take(ids.len() as int) =~= ids@);
    copy
}

/// A copy of a list of cards.
pub fn duplicate_tasks(tasks: &Vec<TaskView>) -> (copy: Vec<TaskView>)
    ensures
        copy@ == tasks@,
{
    let mut copy: Vec<TaskView> = Vec::new();
    let mut k: usize = 0;
    while k < tasks.len()
        invariant
            k <= tasks.len(),
            copy@ == tasks@.take(k as int),
        decreases tasks.len() - k,
    {
        copy.push(tasks[k].duplicate());
        k = k + 1;
        assert(copy@ =~= tasks@.take(k as int));
    }
    assert(tasks@.take(tasks.len() as int) =~= tasks@);
    copy
}

/// A drop the board has made and the server may not have answered for yet: these cards, as a
/// run, at this place in that column.
#[derive(Debug)]
pub struct PendingPlace {
    pub task_ids: Vec<String>,
    pub status: ColumnId,
    pub index: usize,
}

/// What a drag begun on a card carries: the card under the pointer, and the run it brings.
#[derive(Debug)]
pub struct Carrying {
    pub primary: String,
    pub task_ids: Vec<String>,
}

impl Carrying {
    /// Whether this card is one of the run.
    pub fn carries(&self, task_id: &String) -> (yes: bool)
        ensures
            yes == holds_id(self.task_ids@, task_id@),
    {
        ids_hold(&self.task_ids, task_id)
    }
}

/// Where the cards being carried would land if let go of now: this place among the cards
/// showing in that column.
#[derive(Debug)]
pub struct Landing {
    pub status: ColumnId,
    pub index: usize,
}

/// Which end of a column cards arriving in it go to.
#[derive(Clone, Copy, PartialEq, Eq, Debug, Structural)]
pub enum ColumnEnd {
    Top,
    Bottom,
}

/// One of the board's columns: the name its cards carry, and the end of it that cards arriving
/// from another column go to, when it insists on one.
#[derive(Debug)]
pub struct BoardColumn {
    pub id: ColumnId,
    pub arrivals: Option<ColumnEnd>,
}

impl BoardColumn {
    pub fn duplicate(&self) -> (copy: BoardColumn)
        ensures
            copy == *self,
    {
        BoardColumn { id: self.id.duplicate(), arrivals: self.arrivals }
    }
}

/// A column move the board has made and the server may not have answered for yet.
#[derive(Debug)]
pub struct PendingColumnPlace {
    pub column: ColumnId,
    pub index: usize,
}

/// The board as the window keeps it between frames.
pub struct BoardState {
    /// Every card, in the order the board holds them; a column is the cards of its status.
    pub tasks: Vec<TaskView>,
    /// What is typed in the filter box.
    pub filter: String,
    /// The cards marked, each once.
    pub marked: Vec<String>,
    /// The card a shift+click measures its run from.
    pub mark_anchor: Option<String>,
    /// Task pages to put away once the window has drawn.
    pub pages_to_close: Vec<String>,
    /// A drop the server may not have answered for yet.
    pub pending_place: Option<PendingPlace>,
    /// Where the cards being carried would land.
    pub landing: Option<Landing>,
    /// What is being carried, once a press has carried far enough.
    pub carrying: Option<Carrying>,
    /// The columns, in the order they are drawn.
    pub columns: Vec<BoardColumn>,
    /// Where the column being dragged would land if let go of now.
    pub column_landing: Option<usize>,
    /// A column move the server may not have answered for yet.
    pub pending_column_place: Option<PendingColumnPlace>,
    /// The press the pointer is making on the board, while it lasts.
    pub press: Option<Press>,
    /// Whether the board is to be read again at once, rather than on its next round.
    pub refresh_requested: bool,
    /// The card whose title is open for renaming.
    pub renaming: Option<String>,
    /// The card whose delete mark has been pressed once, waiting for the second press.
    pub pending_delete: Option<String>,
    /// The run or file whose delete mark has been pressed once.
    pub pending_resource_delete: Option<String>,
    /// The column whose name is open for renaming.
    pub renaming_column: Option<ColumnId>,
    /// The column whose remove mark has been pressed once.
    pub pending_column_delete: Option<ColumnId>,
    /// Whether the box a new column is named in is open, and what is typed in it.
    pub column_composer_open: bool,
    pub new_column_label: String,
    /// The task whose picker of agents' past sessions is open: its id and its title.
    pub attach_picker: Option<(String, String)>,
    /// A file a card linked, to be opened once the window has drawn: its path and its task.
    pub opened_file: Option<(String, String)>,
    /// A shell a card started, to be brought on screen: its terminal, the agent running in
    /// it if any, and its task.
    pub opened_shell: Option<(String, Option<String>, String)>,
    /// The task pane and the box in it the keyboard goes to as it opens.
    pub task_box_focus: Option<(String, TaskPaneBox)>,
    /// The tasks being written on new-task panes, by the id of the draft each is written on.
    pub drafts: Vec<(String, TaskDraft)>,
}

/// A task being written on its pane before it exists.
#[derive(Clone, Copy, PartialEq, Eq, Debug, Structural)]
pub struct TaskDraft {
    /// Whether the task has been asked for and is being made: the pane keeps drawing what was
    /// typed, and does not ask for it a second time.
    pub creating: bool,
}

/// Where the first draft that goes by `id` stands, from `from` on.
pub open spec fn draft_at(drafts: Seq<(String, TaskDraft)>, id: Seq<char>, from: int) -> Option<int>
    decreases drafts.len() - from,
{
    if from < 0 || from >= drafts.len() {
        None
    } else if drafts[from].0@ == id {
        Some(from)
    } else {
        draft_at(drafts, id, from + 1)
    }
}

/// The drafts with this one kept under `id`: in place of the one already going by it, or
/// after the rest.
pub open spec fn with_draft(drafts: Seq<(String, TaskDraft)>, id: String, draft: TaskDraft) -> Seq<
    (String, TaskDraft),
> {
    match draft_at(drafts, id@, 0) {
        Some(k) => drafts.update(k, (drafts[k].0, draft)),
        None => drafts.push((id, draft)),
    }
}

/// The drafts with the one going by `id`, if there is one, marked as being made or not.
pub open spec fn creating_set(drafts: Seq<(String, TaskDraft)>, id: Seq<char>, creating: bool) -> Seq<
    (String, TaskDraft),
> {
    match draft_at(drafts, id, 0) {
        Some(k) => drafts.update(k, (drafts[k].0, TaskDraft { creating })),
        None => drafts,
    }
}

/// The drafts with every one going by `id` taken out.
pub open spec fn without_draft(drafts: Seq<(String, TaskDraft)>, id: Seq<char>) -> Seq<
    (String, TaskDraft),
>
    decreases drafts.len(),
{
    if drafts.len() == 0 {
        Seq::empty()
    } else {
        without_draft(drafts.drop_last(), id) + if drafts.last().0@ == id {
            Seq::empty()
        } else {
            seq![drafts.last()]
        }
    }
}

/// Where the first draft that goes by `id` stands.
pub fn find_draft(drafts: &Vec<(String, TaskDraft)>, id: &String) -> (at: Option<usize>)
    ensures
        match at {
            Some(k) => k < drafts.len() && draft_at(drafts@, id@, 0) == Some(k as int),
            None => draft_at(drafts@, id@, 0) is None,
        },
{
    let mut i: usize = 0;
    while i < drafts.len()
        invariant
            i <= drafts.len(),
            draft_at(drafts@, id@, 0) == draft_at(drafts@, id@, i as int),
        decreases drafts.len() - i,
    {
        if drafts[i].0 == *id {
            return Some(i);
        }
        i = i + 1;
    }
    None
}

/// Keep this draft under `id`.
pub fn put_draft(drafts: &mut Vec<(String, TaskDraft)>, id: String, draft: TaskDraft)
    ensures
        final(drafts)@ == with_draft(old(drafts)@, id, draft),
{
    match find_draft(drafts, &id) {
        Some(k) => {
            let key = drafts[k].0.clone();
            drafts.set(k, (key, draft));
        },
        None => {
            drafts.push((id, draft));
        },
    }
}

/// Mark the draft going by `id`, if there is one, as being made or not.
pub fn set_creating(drafts: &mut Vec<(String, TaskDraft)>, id: &String, creating: bool)
    ensures
        final(drafts)@ == creating_set(old(drafts)@, id@, creating),
{
    match find_draft(drafts, id) {
        Some(k) => {
            let key = drafts[k].0.clone();
            drafts.set(k, (key, TaskDraft { creating }));
        },
        None => {},
    }
}

/// Take every draft going by `id` out.
pub fn remove_draft(drafts: &mut Vec<(String, TaskDraft)>, id: &String)
    ensures
        final(drafts)@ == without_draft(old(drafts)@, id@),
{
    let mut kept: Vec<(String, TaskDraft)> = Vec::new();
    let mut i: usize = 0;
    while i < drafts.len()
        invariant
            i <= drafts.len(),
            drafts@ == old(drafts)@,
            kept@ == without_draft(drafts@.take(i as int), id@),
        decreases drafts.len() - i,
    {
        assert(drafts@.take(i + 1).drop_last() =~= drafts@.take(i as int));
        if drafts[i].0 != *id {
            let key = drafts[i].0.clone();
            kept.push((key, drafts[i].1));
        }
        assert(kept@ =~= without_draft(drafts@.take(i + 1), id@));
        i = i + 1;
    }
    assert(drafts@.take(drafts.len() as int) =~= drafts@);
    *drafts = kept;
}

/// Which of a task pane's boxes the keyboard is in when the pane opens.
#[derive(Clone, Copy, PartialEq, Eq, Debug, Structural)]
pub enum TaskPaneBox {
    /// Neither: the pane was opened to be read as much as written.
    Neither,
    /// The notes, for a click on a card's notes.
    Notes,
    /// The title, for a task just created.
    Title,
}

impl BoardState {
    /// A board with these cards on it and nothing else going on.
    pub fn with_tasks(tasks: Vec<TaskView>) -> (board: BoardState)
        ensures
            board.tasks@ == tasks@,
            board.filter@.len() == 0,
            board.marked@.len() == 0,
            board.mark_anchor is None,
            board.pages_to_close@.len() == 0,
            board.pending_place is None,
            board.landing is None,
            board.carrying is None,
            board.columns@.len() == 0,
            board.column_landing is None,
            board.pending_column_place is None,
            board.press is None,
            !board.refresh_requested,
            board.renaming is None,
            board.pending_delete is None,
            board.pending_resource_delete is None,
            board.renaming_column is None,
            board.pending_column_delete is None,
            !board.column_composer_open,
            board.new_column_label@.len() == 0,
            board.attach_picker is None,
            board.opened_file is None,
            board.opened_shell is None,
            board.task_box_focus is None,
            board.drafts@.len() == 0,
    {
        BoardState {
            tasks,
            filter: String::new(),
            marked: Vec::new(),
            mark_anchor: None,
            pages_to_close: Vec::new(),
            pending_place: None,
            landing: None,
            carrying: None,
            columns: Vec::new(),
            column_landing: None,
            pending_column_place: None,
            press: None,
            refresh_requested: false,
            renaming: None,
            pending_delete: None,
            pending_resource_delete: None,
            renaming_column: None,
            pending_column_delete: None,
            column_composer_open: false,
            new_column_label: String::new(),
            attach_picker: None,
            opened_file: None,
            opened_shell: None,
            task_box_focus: None,
            drafts: Vec::new(),
        }
    }
}

} // verus!
