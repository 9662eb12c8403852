//! The filter over the board: one query, and the cards it leaves showing.
//!
//! It filters rather than jumps: every column keeps its place and shows the cards that match,
//! so a task is still where it was and can be dragged from there while the filter is on.

use vstd::prelude::*;

use crate::model::TaskView;
use crate::text::{
    contains, decimal, has_substring, lowercase_of, push_decimal, to_lowercase, trim, trimmed,
};

verus! {

/// The query the board is being filtered by, ready to match cards against: trimmed and folded
/// to lowercase once here rather than once per card.
pub struct Filter(String);

impl View for Filter {
    type V = Seq<char>;

    closed spec fn view(&self) -> Seq<char> {
        self.0@
    }
}

/// Whether one of a card's tags holds the query once it is in lowercase.
pub open spec fn tagged_with(query: Seq<char>, tags: Seq<String>) -> bool {
    exists|k: int| 0 <= k < tags.len() && has_substring(lowercase_of(#[trigger] tags[k]@), query)
}

/// Whether a card is one a query asks for: everything is, for an empty query, and otherwise
/// a card whose title, notes or one of whose tags hold the query once in lowercase - a tag is
/// on a card to be found by.
pub open spec fn shows(query: Seq<char>, task: TaskView) -> bool {
    ||| query.len() == 0
    ||| has_substring(lowercase_of(task.title@), query)
    ||| has_substring(lowercase_of(task.notes@), query)
    ||| tagged_with(query, task.tags@)
}

/// How many of these cards a query leaves showing.
pub open spec fn count_showing(query: Seq<char>, tasks: Seq<TaskView>) -> nat
    decreases tasks.len(),
{
    if tasks.len() == 0 {
        0
    } else {
        (if shows(query, tasks[0]) {
            1nat
        } else {
            0nat
        }) + count_showing(query, tasks.drop_first())
    }
}

/// What the tally says, for `showing` cards out of `total`.
pub open spec fn tally_text(showing: nat, total: nat) -> Seq<char> {
    if showing == 0 {
        "no task matches"@
    } else {
        decimal(showing) + " of "@ + decimal(total) + " tasks"@
    }
}

proof fn lemma_count_showing_split(query: Seq<char>, tasks: Seq<TaskView>, i: int)
    requires
        0 <= i < tasks.len(),
    ensures
        count_showing(query, tasks.skip(i)) == (if shows(query, tasks[i]) {
            1nat
        } else {
            0nat
        }) + count_showing(query, tasks.skip(i + 1)),
{
    assert(tasks.skip(i).drop_first() =~= tasks.skip(i + 1));
}

/// A card shows whenever the query is in its title, its notes or one of its tags once those
/// are folded to lowercase - whatever case they were written in: the query is folded too, so
/// the filter ignores case on both sides.
pub proof fn law_the_filter_ignores_case(query: Seq<char>, task: TaskView)
    ensures
        has_substring(lowercase_of(task.title@), query) ==> shows(query, task),
        has_substring(lowercase_of(task.notes@), query) ==> shows(query, task),
        (exists|k: int| 0 <= k < task.tags@.len() && has_substring(lowercase_of(#[trigger] task.tags@[k]@), query))
            ==> shows(query, task),
        query.len() == 0 ==> shows(query, task),
{
}

impl Filter {
    /// The filter a query typed in the box makes: trimmed, and read ignoring case. A query with
    /// anything but spaces in it switches the filter on; a blank one leaves every card showing.
    pub fn of(query: &str) -> (filter: Filter)
        ensures
            filter@ == lowercase_of(trimmed(query@)),
            (filter@.len() > 0) == (trimmed(query@).len() > 0),
    {
        Filter(to_lowercase(trim(query)))
    }

    /// Whether the query is leaving anything out at all.
    pub fn is_on(&self) -> (on: bool)
        ensures
            on == (self@.len() > 0),
    {
        self.0.as_str().unicode_len() > 0
    }

    /// Whether the query finds this card: by its title, by what its notes say, or by a tag.
    pub fn matches(&self, task: &TaskView) -> (yes: bool)
        ensures
            yes == shows(self@, *task),
    {
        if !self.is_on() {
            return true;
        }
        let title = to_lowercase(task.title.as_str());
        if contains(title.as_str(), self.0.as_str()) {
            return true;
        }
        let notes = to_lowercase(task.notes.as_str());
        if contains(notes.as_str(), self.0.as_str()) {
            return true;
        }
        let mut k: usize = 0;
        while k < task.tags.len()
            invariant
                k <= task.tags.len(),
                forall|j: int|
                    0 <= j < k ==> !has_substring(lowercase_of(#[trigger] task.tags@[j]@), self@),
            decreases task.tags.len() - k,
        {
            let tag = to_lowercase(task.tags[k].as_str());
            if contains(tag.as_str(), self.0.as_str()) {
                return true;
            }
            k = k + 1;
        }
        false
    }
}

/// What the query is showing, out of what the board holds - so a board that has gone quiet is
/// a filter that matched little rather than a repo that lost its tasks.
pub fn tally(tasks: &Vec<TaskView>, filter: &Filter) -> (said: String)
    requires
        tasks.len() <= u64::MAX,
    ensures
        said@ == tally_text(count_showing(filter@, tasks@), tasks@.len()),
{
    let mut showing: u64 = 0;
    let mut i: usize = 0;
    assert(tasks@.skip(0) =~= tasks@);
    while i < tasks.len()
        invariant
            i <= tasks.len() <= u64::MAX,
            showing + count_showing(filter@, tasks@.skip(i as int)) == count_showing(
                filter@,
                tasks@,
            ),
            showing <= i,
        decreases tasks.len() - i,
    {
        proof {
            lemma_count_showing_split(filter@, tasks@, i as int);
        }
        if filter.matches(&tasks[i]) {
            showing = showing + 1;
        }
        i = i + 1;
    }
    proof {
        assert(tasks@.skip(0) =~= tasks@);
        assert(tasks@.skip(tasks.len() as int).len() == 0);
    }
    if showing == 0 {
        return String::from_str("no task matches");
    }
    let mut said = String::new();
    push_decimal(&mut said, showing);
    said.append(" of ");
    push_decimal(&mut said, tasks.len() as u64);
    said.append(" tasks");
    said
}

} // verus!
