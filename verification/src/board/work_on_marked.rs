//! One task made to do several at once: the marked cards, handed to a single new card.
//!
//! An agent is often given a handful of small tasks in one go. The new card is what that agent
//! works under, and its notes point at the folders of the tasks it is to do - each one keeps
//! its own notes and whatever was left in it, so the new card says where they are rather than
//! copying what they say.

use vstd::prelude::*;

use crate::model::{ColumnId, TaskView};

verus! {

/// The new card, made out of the marked ones.
#[derive(Debug, PartialEq)]
pub struct WorkOnMarked {
    pub title: String,
    pub notes: String,
    /// The column the first of the marked cards is in: the new card joins the tasks it is for.
    pub column: ColumnId,
}

/// The titles of these cards, joined by ` + `.
pub open spec fn joined_titles(tasks: Seq<TaskView>) -> Seq<char>
    decreases tasks.len(),
{
    if tasks.len() == 0 {
        Seq::empty()
    } else if tasks.len() == 1 {
        tasks[0].title@
    } else {
        joined_titles(tasks.drop_last()) + " + "@ + tasks.last().title@
    }
}

/// A line per card, saying where its folder is: `- title: folder`.
pub open spec fn folder_lines(tasks: Seq<TaskView>) -> Seq<char>
    decreases tasks.len(),
{
    if tasks.len() == 0 {
        Seq::empty()
    } else {
        folder_lines(tasks.drop_last()) + "- "@ + tasks.last().title@ + ": "@
            + tasks.last().dir_path@ + "\n"@
    }
}

/// What the new card's notes open with, before the folders.
pub open spec fn work_on_marked_preamble() -> Seq<char> {
    "Work on these tasks together. Each folder holds that task's notes.md and anything left in it.\n\n"@
}

/// The card for these marked tasks, read in the order the board holds them. `None` for fewer
/// than two: one task is worked on from its own card.
pub fn from_marked(marked: &Vec<TaskView>) -> (card: Option<WorkOnMarked>)
    ensures
        marked.len() < 2 ==> card is None,
        marked.len() >= 2 ==> (card matches Some(c) && c.title@ == "Work on "@ + joined_titles(
            marked@,
        ) && c.notes@ == work_on_marked_preamble() + folder_lines(marked@) && c.column
            == marked@[0].status),
{
    if marked.len() < 2 {
        return None;
    }
    let mut titles = String::new();
    let mut folders = String::new();
    let mut i: usize = 0;
    while i < marked.len()
        invariant
            i <= marked.len(),
            titles@ == joined_titles(marked@.take(i as int)),
            folders@ == folder_lines(marked@.take(i as int)),
        decreases marked.len() - i,
    {
        let ghost next = marked@.take(i + 1);
        assert(next.drop_last() =~= marked@.take(i as int));
        assert(next.last() == marked@[i as int]);
        if i > 0 {
            titles.append(" + ");
        }
        titles.append(marked[i].title.as_str());
        folders.append("- ");
        folders.append(marked[i].title.as_str());
        folders.append(": ");
        folders.append(marked[i].dir_path.as_str());
        folders.append("\n");
        i = i + 1;
        proof {
            if i == 1 {
                assert(titles@ =~= joined_titles(marked@.take(i as int)));
            } else {
                assert(titles@ =~= joined_titles(marked@.take(i as int)));
            }
            assert(folders@ =~= folder_lines(marked@.take(i as int)));
        }
    }
    assert(marked@.take(marked.len() as int) =~= marked@);
    let mut title = String::from_str("Work on ");
    title.append(titles.as_str());
    let mut notes = String::from_str(
        "Work on these tasks together. Each folder holds that task's notes.md and anything left in it.\n\n",
    );
    notes.append(folders.as_str());
    Some(WorkOnMarked { title, notes, column: marked[0].status.duplicate() })
}

} // verus!
