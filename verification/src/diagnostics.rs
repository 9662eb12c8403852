//! What the language server behind a file tab found wrong with it: counted in the tab's
//! header, said worst first, and asked for again on a timer.

use vstd::prelude::*;

use crate::text::{chars_of, push_decimal};

verus! {

/// How often a tab on screen asks what its server has found, in milliseconds. A `cargo check`
/// takes seconds, so a second is well inside the time anybody waits for one to show.
pub const ASKED_EVERY_MS: u64 = 1000;

/// How bad a diagnostic is.
#[derive(Clone, Copy, PartialEq, Eq, Debug, Structural)]
pub enum LspSeverity {
    Error,
    Warning,
    Information,
    Hint,
}

/// A place in a file: a line counted from zero, and a column into it.
#[derive(Clone, Copy, PartialEq, Eq, Debug, Structural)]
pub struct LspPosition {
    pub line: usize,
    pub column: usize,
}

/// One thing a server found wrong.
#[derive(Debug, PartialEq)]
pub struct LspDiagnostic {
    pub start: LspPosition,
    pub end: LspPosition,
    pub severity: LspSeverity,
    pub message: String,
    pub source: Option<String>,
}

/// Worst first: an error is 0.
pub open spec fn rank_spec(severity: LspSeverity) -> nat {
    match severity {
        LspSeverity::Error => 0,
        LspSeverity::Warning => 1,
        LspSeverity::Information => 2,
        LspSeverity::Hint => 3,
    }
}

pub fn rank_of(severity: LspSeverity) -> (rank: usize)
    ensures
        rank == rank_spec(severity),
{
    match severity {
        LspSeverity::Error => 0,
        LspSeverity::Warning => 1,
        LspSeverity::Information => 2,
        LspSeverity::Hint => 3,
    }
}

/// The stretch of a text a diagnostic is about, from the character at `start` up to the one
/// at `end`, when the server's places for it fit the text as it stands. A diagnostic about a
/// point - a missing `;` - is widened to the character after it, or the one before it at the
/// end of a line, so there is something to draw a line under; a point between two line ends
/// has nothing to widen to.
pub open spec fn stretch_of(text: Seq<char>, start: int, end: int) -> Option<(int, int)> {
    if end > start {
        Some((start, end))
    } else if start < text.len() && text[start] != '\n' {
        Some((start, start + 1))
    } else if start > 0 && text[start - 1] != '\n' {
        Some((start - 1, start))
    } else {
        None
    }
}

/// The stretch of `text` a diagnostic is about - see [`stretch_of`] - given where in the text
/// its start and its end fall, counted in characters, or `None` for a place that no longer
/// fits the text (typed into since the server said it). `None` when either does not fit.
pub fn range_in(text: &str, start: Option<usize>, end: Option<usize>) -> (stretch: Option<(usize, usize)>)
    requires
        start matches Some(s) ==> s <= text@.len(),
        end matches Some(e) ==> e <= text@.len(),
    ensures
        match (start, end) {
            (Some(s), Some(e)) => match stretch_of(text@, s as int, e as int) {
                Some((from, to)) => stretch == Some((from as usize, to as usize)),
                None => stretch is None,
            },
            _ => stretch is None,
        },
{
    let (start, end) = match (start, end) {
        (Some(s), Some(e)) => (s, e),
        _ => {
            return None;
        },
    };
    if end > start {
        return Some((start, end));
    }
    let chars = chars_of(text);
    if start < chars.len() && chars[start] != '\n' {
        return Some((start, start + 1));
    }
    if start > 0 && chars[start - 1] != '\n' {
        return Some((start - 1, start));
    }
    None
}

/// The places, among the first `n` diagnostics, of those of this grade that `keep` keeps, in
/// the order they were found.
pub open spec fn of_grade(found: Seq<LspDiagnostic>, keep: Seq<bool>, grade: nat, n: int) -> Seq<usize>
    decreases n,
{
    if n <= 0 {
        Seq::empty()
    } else {
        of_grade(found, keep, grade, n - 1) + if keep[n - 1] && rank_spec(found[n - 1].severity)
            == grade {
            seq![(n - 1) as usize]
        } else {
            Seq::empty()
        }
    }
}

/// Whether a diagnostic's stretch, if it has one, holds the character at `offset`.
pub open spec fn holds_offset(stretch: Option<(usize, usize)>, offset: usize) -> bool {
    stretch matches Some((from, to)) && from <= offset && offset < to
}

fn push_of_grade(
    found: &Vec<LspDiagnostic>,
    keep: &Vec<bool>,
    grade: usize,
    out: &mut Vec<usize>,
)
    requires
        keep.len() == found.len(),
    ensures
        final(out)@ == old(out)@ + of_grade(found@, keep@, grade as nat, found.len() as int),
{
    let mut i: usize = 0;
    while i < found.len()
        invariant
            i <= found.len() == keep.len(),
            out@ == old(out)@ + of_grade(found@, keep@, grade as nat, i as int),
        decreases found.len() - i,
    {
        let ghost before = out@;
        if keep[i] && rank_of(found[i].severity) == grade {
            out.push(i);
        }
        assert(out@ =~= old(out)@ + of_grade(found@, keep@, grade as nat, i + 1));
        i = i + 1;
    }
}

/// The diagnostics about the character at `offset`, by their places in `found`, worst first
/// and in the order they were found within a grade - what the tooltip over it says.
/// `stretches` holds each diagnostic's stretch, by [`range_in`].
pub fn at(found: &Vec<LspDiagnostic>, stretches: &Vec<Option<(usize, usize)>>, offset: usize) -> (here: Vec<usize>)
    requires
        stretches.len() == found.len(),
    ensures
        ({
            let keep = Seq::new(found.len() as nat, |j: int| holds_offset(stretches@[j], offset));
            here@ == of_grade(found@, keep, 0, found.len() as int) + of_grade(found@, keep, 1, found.len() as int)
                + of_grade(found@, keep, 2, found.len() as int) + of_grade(found@, keep, 3, found.len() as int)
        }),
{
    let mut keep: Vec<bool> = Vec::new();
    let mut j: usize = 0;
    while j < stretches.len()
        invariant
            j <= stretches.len() == found.len(),
            keep@ == Seq::new(j as nat, |k: int| holds_offset(stretches@[k], offset)),
        decreases stretches.len() - j,
    {
        let holds = match stretches[j] {
            Some((from, to)) => from <= offset && offset < to,
            None => false,
        };
        keep.push(holds);
        assert(keep@ =~= Seq::new((j + 1) as nat, |k: int| holds_offset(stretches@[k], offset)));
        j = j + 1;
    }
    let mut here: Vec<usize> = Vec::new();
    push_of_grade(found, &keep, 0, &mut here);
    push_of_grade(found, &keep, 1, &mut here);
    push_of_grade(found, &keep, 2, &mut here);
    push_of_grade(found, &keep, 3, &mut here);
    assert(here@ =~= Seq::empty() + of_grade(found@, keep@, 0, found.len() as int) + of_grade(
        found@,
        keep@,
        1,
        found.len() as int,
    ) + of_grade(found@, keep@, 2, found.len() as int) + of_grade(found@, keep@, 3, found.len() as int));
    here
}

/// What the editor underlines, by the diagnostics' places in `found`: those whose stretch fits
/// the text, worst last so it is drawn over anything quieter it overlaps, and in the order
/// they were found within a grade. `stretches` holds each diagnostic's stretch, by
/// [`range_in`].
pub fn underlines(found: &Vec<LspDiagnostic>, stretches: &Vec<Option<(usize, usize)>>) -> (drawn: Vec<usize>)
    requires
        stretches.len() == found.len(),
    ensures
        ({
            let keep = Seq::new(found.len() as nat, |j: int| stretches@[j] is Some);
            drawn@ == of_grade(found@, keep, 3, found.len() as int) + of_grade(found@, keep, 2, found.len() as int)
                + of_grade(found@, keep, 1, found.len() as int) + of_grade(found@, keep, 0, found.len() as int)
        }),
{
    let mut keep: Vec<bool> = Vec::new();
    let mut j: usize = 0;
    while j < stretches.len()
        invariant
            j <= stretches.len() == found.len(),
            keep@ == Seq::new(j as nat, |k: int| stretches@[k] is Some),
        decreases stretches.len() - j,
    {
        keep.push(stretches[j].is_some());
        assert(keep@ =~= Seq::new((j + 1) as nat, |k: int| stretches@[k] is Some));
        j = j + 1;
    }
    let mut drawn: Vec<usize> = Vec::new();
    push_of_grade(found, &keep, 3, &mut drawn);
    push_of_grade(found, &keep, 2, &mut drawn);
    push_of_grade(found, &keep, 1, &mut drawn);
    push_of_grade(found, &keep, 0, &mut drawn);
    assert(drawn@ =~= Seq::empty() + of_grade(found@, keep@, 3, found.len() as int) + of_grade(
        found@,
        keep@,
        2,
        found.len() as int,
    ) + of_grade(found@, keep@, 1, found.len() as int) + of_grade(found@, keep@, 0, found.len() as int));
    drawn
}

/// How many of these diagnostics are of this grade.
pub open spec fn count_of(found: Seq<LspDiagnostic>, severity: LspSeverity) -> nat
    decreases found.len(),
{
    if found.len() == 0 {
        0
    } else {
        (if found[0].severity == severity {
            1nat
        } else {
            0nat
        }) + count_of(found.drop_first(), severity)
    }
}

/// `1 error`, `2 errors`: a count and the thing counted.
pub open spec fn counted(count: nat, thing: Seq<char>) -> Seq<char> {
    if count == 1 {
        "1 "@ + thing
    } else {
        crate::text::decimal(count) + " "@ + thing + "s"@
    }
}

/// What the header says: the errors and the warnings, each only when there are any, with a
/// dot between.
pub open spec fn header_words(errors: nat, warnings: nat) -> Seq<char> {
    if errors > 0 && warnings > 0 {
        counted(errors, "error"@) + " \u{b7} "@ + counted(warnings, "warning"@)
    } else if errors > 0 {
        counted(errors, "error"@)
    } else {
        counted(warnings, "warning"@)
    }
}

proof fn lemma_count_step(found: Seq<LspDiagnostic>, severity: LspSeverity, i: int)
    requires
        0 <= i < found.len(),
    ensures
        count_of(found.skip(i), severity) == (if found[i].severity == severity {
            1nat
        } else {
            0nat
        }) + count_of(found.skip(i + 1), severity),
{
    assert(found.skip(i).drop_first() =~= found.skip(i + 1));
}

fn count_in(found: &Vec<LspDiagnostic>, severity: LspSeverity) -> (count: usize)
    ensures
        count == count_of(found@, severity),
{
    let mut count: usize = 0;
    let mut i: usize = 0;
    assert(found@.skip(0) =~= found@);
    while i < found.len()
        invariant
            i <= found.len(),
            count <= i,
            count + count_of(found@.skip(i as int), severity) == count_of(found@, severity),
        decreases found.len() - i,
    {
        proof {
            lemma_count_step(found@, severity, i as int);
        }
        if found[i].severity == severity {
            count = count + 1;
        }
        i = i + 1;
    }
    count
}

fn push_counted(out: &mut String, count: usize, thing: &str)
    ensures
        final(out)@ == old(out)@ + counted(count as nat, thing@),
{
    if count == 1 {
        out.append("1 ");
        out.append(thing);
    } else {
        push_decimal(out, count as u64);
        out.append(" ");
        out.append(thing);
        out.append("s");
    }
}

/// What the tab's header says about what was found, and the grade of the worst of it. `None`
/// for a file with no errors or warnings: information and hints are there to be found by
/// pointing at them, not counted at the top of every file.
pub fn said_in_header(found: &Vec<LspDiagnostic>) -> (said: Option<(String, LspSeverity)>)
    ensures
        ({
            let errors = count_of(found@, LspSeverity::Error);
            let warnings = count_of(found@, LspSeverity::Warning);
            match said {
                None => errors == 0 && warnings == 0,
                Some((words, worst)) => (errors > 0 || warnings > 0) && words@ == header_words(
                    errors,
                    warnings,
                ) && worst == (if errors == 0 {
                    LspSeverity::Warning
                } else {
                    LspSeverity::Error
                }),
            }
        }),
{
    let errors = count_in(found, LspSeverity::Error);
    let warnings = count_in(found, LspSeverity::Warning);
    if errors == 0 && warnings == 0 {
        return None;
    }
    let mut words = String::new();
    if errors > 0 {
        push_counted(&mut words, errors, "error");
    }
    if errors > 0 && warnings > 0 {
        words.append(" \u{b7} ");
    }
    if warnings > 0 {
        push_counted(&mut words, warnings, "warning");
    }
    assert(words@ =~= header_words(errors as nat, warnings as nat));
    let worst = if errors == 0 {
        LspSeverity::Warning
    } else {
        LspSeverity::Error
    };
    Some((words, worst))
}

/// What a tab's server last said is wrong with it, and when it was last asked.
pub struct Diagnosed {
    found: Vec<LspDiagnostic>,
    /// When the last answer came in, in milliseconds.
    asked_at: Option<u64>,
    asking: bool,
}

/// A tab's diagnostics, as the spec reads them.
pub struct DiagnosedView {
    pub found: Seq<LspDiagnostic>,
    pub asked_at: Option<u64>,
    pub asking: bool,
}

impl View for Diagnosed {
    type V = DiagnosedView;

    closed spec fn view(&self) -> DiagnosedView {
        DiagnosedView { found: self.found@, asked_at: self.asked_at, asking: self.asking }
    }
}

/// Whether a tab is due to ask again at `now`: nothing is out, and the last answer - if there
/// was one - has been in for a whole interval.
pub open spec fn due_at(d: DiagnosedView, now: u64) -> bool {
    !d.asking && match d.asked_at {
        None => true,
        Some(at) => now >= at && now - at >= ASKED_EVERY_MS,
    }
}

impl Diagnosed {
    /// A tab that has asked nothing yet.
    pub fn new() -> (d: Diagnosed)
        ensures
            d@.found.len() == 0,
            d@.asked_at is None,
            !d@.asking,
    {
        Diagnosed { found: Vec::new(), asked_at: None, asking: false }
    }

    pub fn found(&self) -> (found: &Vec<LspDiagnostic>)
        ensures
            found@ == self@.found,
    {
        &self.found
    }

    /// Whether it is time to ask again, marking the question out if it is. Never twice at
    /// once, and not again until the last answer has been in for [`ASKED_EVERY_MS`].
    pub fn due(&mut self, now: u64) -> (due: bool)
        ensures
            due == due_at(old(self)@, now),
            final(self)@.asking == (old(self)@.asking || due),
            final(self)@.found == old(self)@.found,
            final(self)@.asked_at == old(self)@.asked_at,
    {
        let recent = match self.asked_at {
            Some(at) => !(now >= at && now - at >= ASKED_EVERY_MS),
            None => false,
        };
        if self.asking || recent {
            return false;
        }
        self.asking = true;
        true
    }

    /// The answer, as it comes back. A question that could not be answered keeps what was
    /// last found rather than wiping it: a link that blinks is not a file that was fixed.
    pub fn answered(&mut self, found: Option<Vec<LspDiagnostic>>, now: u64)
        ensures
            !final(self)@.asking,
            final(self)@.asked_at == Some(now),
            final(self)@.found == match found {
                Some(f) => f@,
                None => old(self)@.found,
            },
    {
        self.asking = false;
        self.asked_at = Some(now);
        if let Some(found) = found {
            self.found = found;
        }
    }
}


/// One question at a time: once a tab has been found due and its question is out, it is due
/// at no moment at all until the answer comes in - and after the answer, not again until a
/// whole interval has passed.
pub proof fn law_one_question_at_a_time(d: DiagnosedView, now: u64, later: u64, answered_at: u64)
    requires
        due_at(d, now),
    ensures
        !due_at(DiagnosedView { asking: true, ..d }, later),
        later < answered_at + ASKED_EVERY_MS ==> !due_at(
            DiagnosedView { asking: false, asked_at: Some(answered_at), ..d },
            later,
        ),
{
}

} // verus!
