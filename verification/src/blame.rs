//! Who last touched each line of a file tab, in a column beside the lines.
//!
//! The column gathers the lines into stretches, one per commit, with the short sha, the day
//! and the author at the top of each and the commit's summary on the row under. A click on
//! the hash opens the review on that commit - on the local changes, for a stretch nothing has
//! committed. A click anywhere else on the stretch steps back to the file as it was before.
//!
//! The blame follows the typing at a distance. While the column is up the text is hashed once
//! every [`CHECK_INTERVAL_MS`], and asked about again once it has held still for one interval
//! and is not what the column was worked out from.

use vstd::prelude::*;

use std::hash::{Hash, Hasher};
use crate::text::chars_of;

verus! {

/// How often a tab with its blame up reads its text again to see whether the blame is still
/// of it, in milliseconds.
pub const CHECK_INTERVAL_MS: u64 = 1000;

/// What the column reads at the top of a stretch no commit has.
pub open spec fn not_yet_committed_title() -> Seq<char> {
    "not committed yet"@
}

/// How many characters of a sha the column shows: what `git log --oneline` shows.
pub const SHORT_SHA: usize = 7;

/// A half-open run of line numbers, `start..end`.
#[derive(Clone, Copy, PartialEq, Eq, Debug, Structural)]
pub struct LineRange {
    pub start: usize,
    pub end: usize,
}

/// The commit that last touched a stretch.
#[derive(Debug, PartialEq)]
pub struct BlamedCommit {
    pub sha: String,
    pub author: String,
    pub authored_on: String,
    pub summary: String,
}

/// Who a stretch is blamed on.
#[derive(Debug, PartialEq)]
pub enum Blamed {
    Committed(BlamedCommit),
    NotYetCommitted,
}

/// The version of the file just before the change a stretch names.
#[derive(Debug, PartialEq)]
pub struct BlameBefore {
    pub file_path: String,
    pub sha: String,
}

/// One stretch of lines last touched by the same change.
#[derive(Debug, PartialEq)]
pub struct BlameChunk {
    pub lines: LineRange,
    pub blamed: Blamed,
    pub before: Option<BlameBefore>,
    pub line_in_commit: usize,
}

/// A colour, as the theme hands it over.
#[derive(Clone, Copy, PartialEq, Eq, Debug, Structural)]
pub struct Ink {
    pub r: u8,
    pub g: u8,
    pub b: u8,
    pub a: u8,
}

/// What the column draws for a stretch.
#[derive(Debug, PartialEq)]
pub struct LineNote {
    pub lines: LineRange,
    pub title: String,
    pub detail: String,
    pub ink: Option<Ink>,
    /// The stretch of the title, in characters, that opens the review.
    pub link: Option<LineRange>,
}

/// Where a click on a note landed: which note, and the row and column within it.
#[derive(Clone, Copy, PartialEq, Eq, Debug, Structural)]
pub struct NoteClick {
    pub note: usize,
    pub row: usize,
    pub column: usize,
}

/// What a click on a stretch of the blame asks for, by where on the stretch it landed.
#[derive(Clone, Copy, PartialEq, Eq, Debug, Structural)]
pub enum ClickAsks {
    /// The review, on the commit the stretch names: a click on the note's link.
    TheCommit,
    /// The file as it was just before that change, with its blame: a click anywhere else.
    TheVersionBefore,
}

/// The stretch of a note's title that opens the review: the hash, or the whole of "not
/// committed yet", which names the local changes the way a hash names a commit.
pub open spec fn link_range(chunk: BlameChunk) -> LineRange {
    match chunk.blamed {
        Blamed::Committed(_) => LineRange { start: 0, end: 7 },
        Blamed::NotYetCommitted => LineRange { start: 0, end: 17 },
    }
}

pub fn link_of(chunk: &BlameChunk) -> (link: LineRange)
    ensures
        link == link_range(*chunk),
{
    match &chunk.blamed {
        Blamed::Committed(_) => LineRange { start: 0, end: SHORT_SHA },
        Blamed::NotYetCommitted => LineRange { start: 0, end: 17 },
    }
}

/// Where on a stretch a click landed, read as what it asks for: the link is the commit, the
/// rest of the stretch the step back.
pub fn what_a_click_asks(chunk: &BlameChunk, click: NoteClick) -> (asks: ClickAsks)
    ensures
        asks == (if click.row == 0 && link_range(*chunk).start <= click.column < link_range(
            *chunk,
        ).end {
            ClickAsks::TheCommit
        } else {
            ClickAsks::TheVersionBefore
        }),
{
    let link = link_of(chunk);
    if click.row == 0 && link.start <= click.column && click.column < link.end {
        ClickAsks::TheCommit
    } else {
        ClickAsks::TheVersionBefore
    }
}

/// How many bytes a character takes in UTF-8.
pub open spec fn utf8_width(c: char) -> nat {
    let n = c as u32;
    if n < 0x80 {
        1
    } else if n < 0x800 {
        2
    } else if n < 0x10000 {
        3
    } else {
        4
    }
}

/// How many bytes a text takes in UTF-8.
pub open spec fn utf8_len(s: Seq<char>) -> nat
    decreases s.len(),
{
    if s.len() == 0 {
        0
    } else {
        utf8_len(s.drop_last()) + utf8_width(s.last())
    }
}

/// The longest beginning of a text that takes no more than `budget` bytes.
pub open spec fn within_bytes(s: Seq<char>, budget: nat) -> Seq<char>
    decreases s.len(),
{
    if s.len() == 0 || utf8_width(s[0]) > budget {
        Seq::empty()
    } else {
        seq![s[0]] + within_bytes(s.drop_first(), (budget - utf8_width(s[0])) as nat)
    }
}

/// What a short sha is cut to: its first seven bytes, or all of a shorter one.
pub open spec fn short_sha_of(sha: Seq<char>) -> Seq<char> {
    within_bytes(sha, 7)
}

/// Whether a sha can be cut after its seventh byte: it is no longer than that, or a character
/// ends there - always so of a sha, which is hex.
pub open spec fn short_sha_cuts(sha: Seq<char>) -> bool {
    utf8_len(sha) <= 7 || utf8_len(short_sha_of(sha)) == 7
}

fn utf8_width_of(c: char) -> (width: u32)
    ensures
        width == utf8_width(c),
{
    let n = c as u32;
    if n < 0x80 {
        1
    } else if n < 0x800 {
        2
    } else if n < 0x10000 {
        3
    } else {
        4
    }
}

/// The first seven bytes of a sha, or all of a shorter one.
pub fn short_sha(sha: &str) -> (short: &str)
    requires
        short_sha_cuts(sha@),
    ensures
        short@ == short_sha_of(sha@),
{
    let chars = chars_of(sha);
    let mut k: usize = 0;
    let mut used: u32 = 0;
    assert(sha@.skip(0) =~= sha@);
    assert(sha@.take(0) =~= Seq::<char>::empty());
    while k < chars.len()
        invariant
            k <= chars.len(),
            chars@ == sha@,
            used <= 7,
            short_sha_of(sha@) == sha@.take(k as int) + within_bytes(sha@.skip(k as int), (7 - used) as nat),
        ensures
            within_bytes(sha@.skip(k as int), (7 - used) as nat) =~= Seq::<char>::empty(),
        decreases chars.len() - k,
    {
        let w = utf8_width_of(chars[k]);
        let ghost rest = sha@.skip(k as int);
        assert(rest[0] == sha@[k as int]);
        if w > 7 - used {
            break;
        }
        assert(rest.drop_first() =~= sha@.skip(k + 1));
        assert(sha@.take(k as int) + seq![sha@[k as int]] =~= sha@.take(k + 1));
        used = used + w;
        k = k + 1;
    }
    assert(short_sha_of(sha@) =~= sha@.take(k as int));
    sha.substring_char(0, k)
}

/// What the note of a stretch says: the short sha, the day and the author at the top, and the
/// commit's summary under - or that nothing has committed the lines yet, in the ink new lines
/// are marked with.
pub open spec fn note_spec(chunk: BlameChunk, uncommitted_ink: Ink) -> (Seq<char>, Seq<char>, Option<
    Ink,
>) {
    match chunk.blamed {
        Blamed::Committed(commit) => (
            short_sha_of(commit.sha@) + " "@ + commit.authored_on@ + " "@ + commit.author@,
            commit.summary@,
            None,
        ),
        Blamed::NotYetCommitted => (not_yet_committed_title(), Seq::empty(), Some(uncommitted_ink)),
    }
}

/// Whether a note says what [`note_spec`] says of its stretch.
pub open spec fn note_of_chunk(note: LineNote, chunk: BlameChunk, uncommitted_ink: Ink) -> bool {
    let (title, detail, ink) = note_spec(chunk, uncommitted_ink);
    &&& note.lines == chunk.lines
    &&& note.title@ == title
    &&& note.detail@ == detail
    &&& note.ink == ink
    &&& note.link == Some(link_range(chunk))
}

/// The shas a blame can name: ones whose short form can be cut after seven bytes.
pub open spec fn chunk_is_readable(chunk: BlameChunk) -> bool {
    match chunk.blamed {
        Blamed::Committed(commit) => short_sha_cuts(commit.sha@),
        Blamed::NotYetCommitted => true,
    }
}

pub fn note_of(chunk: &BlameChunk, uncommitted_ink: Ink) -> (note: LineNote)
    requires
        chunk_is_readable(*chunk),
    ensures
        note_of_chunk(note, *chunk, uncommitted_ink),
{
    match &chunk.blamed {
        Blamed::Committed(commit) => {
            let mut title = String::from_str(short_sha(commit.sha.as_str()));
            title.append(" ");
            title.append(commit.authored_on.as_str());
            title.append(" ");
            title.append(commit.author.as_str());
            LineNote {
                lines: chunk.lines,
                title,
                detail: commit.summary.clone(),
                ink: None,
                link: Some(link_of(chunk)),
            }
        },
        Blamed::NotYetCommitted => LineNote {
            lines: chunk.lines,
            title: String::from_str("not committed yet"),
            detail: String::new(),
            ink: Some(uncommitted_ink),
            link: Some(link_of(chunk)),
        },
    }
}

/// The number `DefaultHasher` makes of a text. std leaves its algorithm unsaid, and free to
/// change between releases; what it does say is that every hasher `DefaultHasher::new` makes
/// is the same one, so within one build the same text always comes to the same number.
pub uninterp spec fn default_hash_of(text: Seq<char>) -> u64;

/// `std::hash::DefaultHasher` over a string. Trusted: the number is claimed to be
/// [`default_hash_of`] the text and nothing more - not which number, nor that two texts never
/// share one.
#[verifier::external_body]
fn default_hash(text: &str) -> (hash: u64)
    ensures
        hash == default_hash_of(text@),
{
    let mut hasher = std::collections::hash_map::DefaultHasher::new();
    text.hash(&mut hasher);
    hasher.finish()
}

/// The text's hash, which a check compares with the last one to see whether it held still.
pub fn hash_of(text: &str) -> (hash: u64)
    ensures
        hash == default_hash_of(text@),
{
    default_hash(text)
}

/// The blame of one file tab: whether it is up, what it shows, and what it takes to keep that
/// true of the text as it is typed into.
pub struct Blaming {
    on: bool,
    /// The stretches on screen, with the hash of the text they were asked about.
    shown: Option<(u64, Vec<BlameChunk>)>,
    /// The notes drawn from what is shown, kept between frames rather than built again on
    /// each, with the ink the uncommitted ones were drawn in.
    notes: Option<(Ink, Vec<LineNote>)>,
    /// When the text was last checked, in milliseconds, and its hash then.
    last_check: Option<(u64, u64)>,
    /// Whether a blame is out, so a second is not sent before the first is back.
    asking: bool,
}

/// A tab's blame, as the spec reads it.
pub struct BlamingView {
    pub on: bool,
    pub shown: Option<(u64, Seq<BlameChunk>)>,
    pub notes_built: bool,
    pub last_check: Option<(u64, u64)>,
    pub asking: bool,
}

impl Blaming {
    /// The notes kept are the notes of what is shown, in the ink they were built with.
    #[verifier::type_invariant]
    spec fn notes_follow_shown(self) -> bool {
        match self.notes {
            None => true,
            Some((ink, notes)) => match self.shown {
                None => notes@.len() == 0,
                Some((_, chunks)) => notes@.len() == chunks@.len() && forall|k: int|
                    0 <= k < chunks@.len() ==> note_of_chunk(
                        #[trigger] notes@[k],
                        chunks@[k],
                        ink,
                    ),
            },
        }
    }
}

impl View for Blaming {
    type V = BlamingView;

    closed spec fn view(&self) -> BlamingView {
        BlamingView {
            on: self.on,
            shown: match self.shown {
                Some((hash, chunks)) => Some((hash, chunks@)),
                None => None,
            },
            notes_built: self.notes is Some,
            last_check: self.last_check,
            asking: self.asking,
        }
    }
}

/// Whether the next check is due at `now`: none has been made, or the last was an interval ago.
pub open spec fn check_due(blaming: BlamingView, now: u64) -> bool {
    match blaming.last_check {
        None => true,
        Some((at, _)) => now >= at && now - at >= CHECK_INTERVAL_MS,
    }
}

/// Whether the text, hashed to `text_hash`, is due a blame: the column is up, nothing is out,
/// and what is shown - if anything - is not of this text, which held still since the last check.
pub open spec fn blame_wanted(blaming: BlamingView, text_hash: u64) -> bool {
    let shows_this_text = match blaming.shown {
        Some((hash, _)) => hash == text_hash,
        None => false,
    };
    let held_still = match blaming.last_check {
        Some((_, hash)) => hash == text_hash,
        None => false,
    };
    blaming.on && !blaming.asking && !shows_this_text && (blaming.shown is None || held_still)
}

impl Blaming {
    /// A tab's blame before anything has been asked: down, with nothing shown.
    pub fn new() -> (blaming: Blaming)
        ensures
            !blaming@.on,
            blaming@.shown is None,
            blaming@.last_check is None,
            !blaming@.asking,
            !blaming@.notes_built,
    {
        Blaming { on: false, shown: None, notes: None, last_check: None, asking: false }
    }

    pub fn is_on(&self) -> (on: bool)
        ensures
            on == self@.on,
    {
        self.on
    }

    /// Put the column up or take it down. Coming up it starts from nothing: what was shown
    /// before it went down may be of a text long since typed over.
    pub fn toggle(&mut self)
        ensures
            final(self)@.on == !old(self)@.on,
            final(self)@.shown is None,
            !final(self)@.notes_built,
            final(self)@.last_check is None,
            final(self)@.asking == old(self)@.asking,
    {
        self.notes = None;
        self.on = !self.on;
        self.shown = None;
        self.last_check = None;
    }

    /// A blame is out.
    pub fn start_asking(&mut self)
        ensures
            final(self)@.asking,
            final(self)@.on == old(self)@.on,
            final(self)@.shown == old(self)@.shown,
            final(self)@.notes_built == old(self)@.notes_built,
            final(self)@.last_check == old(self)@.last_check,
    {
        proof {
            use_type_invariant(&*self);
        }
        self.asking = true;
    }

    /// The column is taken down when a blame fails: the error says why, and a column that
    /// stayed up empty would be a column asking every second and failing every second.
    pub fn failed(&mut self)
        ensures
            !final(self)@.asking,
            !final(self)@.on,
            final(self)@.shown is None,
            !final(self)@.notes_built,
            final(self)@.last_check == old(self)@.last_check,
    {
        proof {
            use_type_invariant(&*self);
        }
        self.asking = false;
        self.take_down();
    }

    fn take_down(&mut self)
        ensures
            !final(self)@.on,
            final(self)@.shown is None,
            !final(self)@.notes_built,
            final(self)@.last_check == old(self)@.last_check,
            final(self)@.asking == old(self)@.asking,
    {
        self.notes = None;
        self.on = false;
        self.shown = None;
    }

    /// Whether the text, as hashed now, is due a blame: the column is up, nothing is out, and
    /// what is shown - if anything - is not of this text, which has held still since the last
    /// check. A column with nothing in it yet is asked at once, because there is no typing to
    /// wait for the end of. The check is remembered either way, unless the column is down or
    /// an ask is out.
    pub fn wants_to_ask(&mut self, text_hash: u64, now: u64) -> (ask: bool)
        ensures
            if !old(self)@.on || old(self)@.asking {
                !ask && final(self)@ == old(self)@
            } else {
                let shows_this_text = match old(self)@.shown {
                    Some((hash, _)) => hash == text_hash,
                    None => false,
                };
                let held_still = match old(self)@.last_check {
                    Some((_, hash)) => hash == text_hash,
                    None => false,
                };
                &&& ask == (!shows_this_text && (old(self)@.shown is None || held_still))
                &&& final(self)@.last_check == Some((now, text_hash))
                &&& final(self)@.on == old(self)@.on
                &&& final(self)@.shown == old(self)@.shown
                &&& final(self)@.notes_built == old(self)@.notes_built
                &&& final(self)@.asking == old(self)@.asking
            },
    {
        proof {
            use_type_invariant(&*self);
        }
        if !self.on || self.asking {
            return false;
        }
        let shows_this_text = match &self.shown {
            Some((hash, _)) => *hash == text_hash,
            None => false,
        };
        let held_still = match self.last_check {
            Some((_, hash)) => hash == text_hash,
            None => false,
        };
        self.last_check = Some((now, text_hash));
        !shows_this_text && (self.shown.is_none() || held_still)
    }

    /// Whether the next check is due: none has been made, or the last was an interval ago.
    pub fn check_is_due(&self, now: u64) -> (due: bool)
        ensures
            due == match self@.last_check {
                None => true,
                Some((at, _)) => now >= at && now - at >= CHECK_INTERVAL_MS,
            },
    {
        match self.last_check {
            None => true,
            Some((at, _)) => now >= at && now - at >= CHECK_INTERVAL_MS,
        }
    }

    /// What came back for the text hashed to `text_hash`.
    pub fn answered(&mut self, text_hash: u64, chunks: Vec<BlameChunk>)
        ensures
            !final(self)@.asking,
            final(self)@.shown == Some((text_hash, chunks@)),
            !final(self)@.notes_built,
            final(self)@.on == old(self)@.on,
            final(self)@.last_check == old(self)@.last_check,
    {
        self.notes = None;
        self.asking = false;
        self.shown = Some((text_hash, chunks));
    }

    /// The stretch a note is about, by the note's index - the two are one to one.
    pub fn chunk(&self, note: usize) -> (chunk: Option<&BlameChunk>)
        ensures
            chunk == match self@.shown {
                Some((_, chunks)) => if note < chunks.len() {
                    Some(&chunks[note as int])
                } else {
                    None
                },
                None => None,
            },
    {
        match &self.shown {
            Some((_, chunks)) => if note < chunks.len() {
                Some(&chunks[note])
            } else {
                None
            },
            None => None,
        }
    }

    /// The stretches on screen.
    pub fn chunks_shown(&self) -> (chunks: Option<&Vec<BlameChunk>>)
        ensures
            match self@.shown {
                Some((_, shown)) => chunks matches Some(c) && c@ == shown,
                None => chunks is None,
            },
    {
        match &self.shown {
            Some((_, chunks)) => Some(chunks),
            None => None,
        }
    }

    /// The notes the column draws, one per stretch, built again only when what is shown or
    /// the ink of the uncommitted ones has changed.
    pub fn notes(&mut self, uncommitted_ink: Ink) -> (notes: &Vec<LineNote>)
        requires
            match old(self)@.shown {
                Some((_, chunks)) => forall|k: int|
                    0 <= k < chunks.len() ==> chunk_is_readable(#[trigger] chunks[k]),
                None => true,
            },
        ensures
            match old(self)@.shown {
                Some((_, chunks)) => notes@.len() == chunks.len() && forall|k: int|
                    0 <= k < chunks.len() ==> note_of_chunk(
                        #[trigger] notes@[k],
                        chunks[k],
                        uncommitted_ink,
                    ),
                None => notes@.len() == 0,
            },
            final(self)@.on == old(self)@.on,
            final(self)@.shown == old(self)@.shown,
            final(self)@.last_check == old(self)@.last_check,
            final(self)@.asking == old(self)@.asking,
    {
        proof {
            use_type_invariant(&*self);
        }
        let rebuild = match &self.notes {
            Some((ink, _)) => *ink != uncommitted_ink,
            None => true,
        };
        if self.shown.is_none() {
            self.notes = Some((uncommitted_ink, Vec::new()));
        } else if rebuild {
            let built = match &self.shown {
                Some((hash, chunks)) => {
                    assert(old(self)@.shown == Some((*hash, chunks@)));
                    assert forall|m: int| 0 <= m < chunks.len() implies chunk_is_readable(
                        #[trigger] chunks@[m],
                    ) by {
                        let shown = old(self)@.shown;
                        match shown {
                            Some((_, c)) => {
                                assert(c == chunks@);
                                assert(chunk_is_readable(c[m]));
                            },
                            None => {},
                        }
                    }
                    let mut built: Vec<LineNote> = Vec::new();
                    let mut k: usize = 0;
                    while k < chunks.len()
                        invariant
                            k <= chunks.len(),
                            forall|m: int|
                                0 <= m < chunks.len() ==> chunk_is_readable(#[trigger] chunks@[m]),
                            built@.len() == k,
                            forall|m: int|
                                0 <= m < k ==> note_of_chunk(
                                    #[trigger] built@[m],
                                    chunks@[m],
                                    uncommitted_ink,
                                ),
                        decreases chunks.len() - k,
                    {
                        built.push(note_of(&chunks[k], uncommitted_ink));
                        k = k + 1;
                    }
                    built
                },
                None => Vec::new(),
            };
            self.notes = Some((uncommitted_ink, built));
        }
        proof {
            use_type_invariant(&*self);
        }
        match &self.notes {
            Some((_, notes)) => notes,
            None => vstd::pervasive::unreached(),
        }
    }
}

/// Where a click that steps back through the history goes: the file as it was just before the
/// change a stretch names, on the line the stretch started at - or, where nothing comes
/// before, what is said instead.
#[derive(Debug, PartialEq)]
pub enum StepBack {
    To { file_path: String, revision: String, line: usize },
    Refused(String),
}

/// The step back from a stretch. The commit that brought the file in has nothing before it,
/// and neither has a file no commit has yet; each says so.
pub fn version_before(chunk: &BlameChunk) -> (step: StepBack)
    requires
        chunk_is_readable(*chunk),
    ensures
        match chunk.before {
            Some(before) => step == (StepBack::To {
                file_path: before.file_path,
                revision: before.sha,
                line: chunk.line_in_commit,
            }),
            None => match chunk.blamed {
                Blamed::Committed(commit) => step matches StepBack::Refused(said) && said@
                    == short_sha_of(commit.sha@) + " brought the file in - there is no version before it"@,
                Blamed::NotYetCommitted => step matches StepBack::Refused(said) && said@
                    == "no commit has this file yet - there is no version before it"@,
            },
        },
{
    match &chunk.before {
        Some(before) => StepBack::To {
            file_path: before.file_path.clone(),
            revision: before.sha.clone(),
            line: chunk.line_in_commit,
        },
        None => match &chunk.blamed {
            Blamed::Committed(commit) => {
                let mut said = String::from_str(short_sha(commit.sha.as_str()));
                said.append(" brought the file in - there is no version before it");
                StepBack::Refused(said)
            },
            Blamed::NotYetCommitted => StepBack::Refused(
                String::from_str("no commit has this file yet - there is no version before it"),
            ),
        },
    }
}

/// The commit a click on a stretch's link opens the review on: its own, or - for lines no
/// commit has - none, which is the local changes.
pub fn commit_of(chunk: &BlameChunk) -> (sha: Option<String>)
    ensures
        match chunk.blamed {
            Blamed::Committed(commit) => sha == Some(commit.sha),
            Blamed::NotYetCommitted => sha is None,
        },
{
    match &chunk.blamed {
        Blamed::Committed(commit) => Some(commit.sha.clone()),
        Blamed::NotYetCommitted => None,
    }
}

/// What the whole of a note says, under what the column had room for, of what a click does
/// where.
pub open spec fn hover_hint_spec(chunk: BlameChunk) -> Seq<char> {
    match chunk.blamed {
        Blamed::Committed(_) => if chunk.before is Some {
            "Click the hash for the review on this commit, elsewhere for the file as it was before it"@
        } else {
            "Click the hash for the review on this commit. It brought the file in: nothing comes before it"@
        },
        Blamed::NotYetCommitted => if chunk.before is Some {
            "Click the words for the review on the local changes, elsewhere on the stretch for the file as the last commit has it"@
        } else {
            "Click the words for the review on the local changes. No commit has this file yet"@
        },
    }
}

pub fn hover_hint(chunk: &BlameChunk) -> (hint: &'static str)
    ensures
        hint@ == hover_hint_spec(*chunk),
{
    match &chunk.blamed {
        Blamed::Committed(_) => if chunk.before.is_some() {
            "Click the hash for the review on this commit, elsewhere for the file as it was before it"
        } else {
            "Click the hash for the review on this commit. It brought the file in: nothing comes before it"
        },
        Blamed::NotYetCommitted => if chunk.before.is_some() {
            "Click the words for the review on the local changes, elsewhere on the stretch for the file as the last commit has it"
        } else {
            "Click the words for the review on the local changes. No commit has this file yet"
        },
    }
}


/// Typing holds a blame back: a text that changed since the last check is not asked about,
/// whatever the column shows - only once it has held still for a whole check is it.
pub proof fn law_typing_holds_the_blame_back(blaming: BlamingView, last_hash: u64, text_hash: u64, at: u64)
    requires
        blaming.shown is Some,
        blaming.last_check == Some((at, last_hash)),
        last_hash != text_hash,
    ensures
        !blame_wanted(blaming, text_hash),
{
}

/// A text the column already shows the blame of is not asked about again, and a second blame
/// never goes out while one is still out.
pub proof fn law_a_blame_is_asked_once_per_text(blaming: BlamingView, text_hash: u64)
    requires
        blaming.asking || (blaming.shown matches Some((shown_hash, _)) && shown_hash == text_hash),
    ensures
        !blame_wanted(blaming, text_hash),
{
}

} // verus!
