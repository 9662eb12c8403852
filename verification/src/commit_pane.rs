//! Committing what a review has staged, and pushing it, without leaving the window: what the
//! pane holds, what it says about a run, which message goes in its box, and what it does as
//! each answer comes back. Running git, reading the repo and asking an agent for a message are
//! the window's to do; each answer is handed to the pane here.

use vstd::prelude::*;

use crate::text::{trim, trimmed};

verus! {

/// How often an open commit pane rereads what is staged, in milliseconds.
pub const STATE_POLL_INTERVAL_MS: u64 = 1000;

/// How often the pane asks how a run is going, in milliseconds.
pub const OUTCOME_ASK_INTERVAL_MS: u64 = 300;

/// Stands in for the status of a run the server could not be asked about at all. Reads as a
/// failure, which is what not being able to find out means here.
pub const OUTCOME_UNREAD: i32 = -1;

/// Which of the three things a run is.
#[derive(Clone, Copy, PartialEq, Eq, Debug, Structural)]
pub enum RunKind {
    Commit,
    Push,
    OpenPr,
}

/// What the pane says about a run.
#[derive(Clone, Copy)]
pub struct RunWords {
    pub running: &'static str,
    pub worked: &'static str,
    pub failed: &'static str,
}

/// What the pane says of each kind of run: while it goes, when it worked, when it did not.
pub open spec fn words_spec(kind: RunKind) -> (Seq<char>, Seq<char>, Seq<char>) {
    match kind {
        RunKind::Commit => ("committing…"@, "committed"@, "git would not commit - see below"@),
        RunKind::Push => ("pushing…"@, "pushed"@, "git would not push - see below"@),
        RunKind::OpenPr => (
            "opening the pull request…"@,
            "pull request opened in the browser"@,
            "gh would not open a pull request - see below"@,
        ),
    }
}

pub fn words_for(kind: RunKind) -> (words: RunWords)
    ensures
        (words.running@, words.worked@, words.failed@) == words_spec(kind),
{
    match kind {
        RunKind::Commit => RunWords {
            running: "committing…",
            worked: "committed",
            failed: "git would not commit - see below",
        },
        RunKind::Push => RunWords {
            running: "pushing…",
            worked: "pushed",
            failed: "git would not push - see below",
        },
        RunKind::OpenPr => RunWords {
            running: "opening the pull request…",
            worked: "pull request opened in the browser",
            failed: "gh would not open a pull request - see below",
        },
    }
}

/// What the pane is asked to run.
pub enum CommitAction {
    /// Commit what is staged, with this message.
    Commit { message: String },
    Push,
    OpenPr,
}

pub fn kind_of(action: &CommitAction) -> (kind: RunKind)
    ensures
        kind == match *action {
            CommitAction::Commit { .. } => RunKind::Commit,
            CommitAction::Push => RunKind::Push,
            CommitAction::OpenPr => RunKind::OpenPr,
        },
{
    match action {
        CommitAction::Commit { .. } => RunKind::Commit,
        CommitAction::Push => RunKind::Push,
        CommitAction::OpenPr => RunKind::OpenPr,
    }
}

/// How a staged file changed.
#[derive(Clone, Copy, PartialEq, Eq, Debug, Structural)]
pub enum FileChangeKind {
    Added,
    Deleted,
    Modified,
}

/// The mark a staged file's row starts with.
pub open spec fn change_mark_spec(change_kind: FileChangeKind) -> Seq<char> {
    match change_kind {
        FileChangeKind::Added => "+"@,
        FileChangeKind::Deleted => "−"@,
        FileChangeKind::Modified => "~"@,
    }
}

pub fn change_mark(change_kind: FileChangeKind) -> (mark: &'static str)
    ensures
        mark@ == change_mark_spec(change_kind),
{
    match change_kind {
        FileChangeKind::Added => "+",
        FileChangeKind::Deleted => "−",
        FileChangeKind::Modified => "~",
    }
}

/// A commit message as it was written: a subject line, and a paragraph under it.
pub struct CommitSuggestion {
    pub subject: String,
    pub paragraph: String,
}

impl View for CommitSuggestion {
    type V = (Seq<char>, Seq<char>);

    open spec fn view(&self) -> (Seq<char>, Seq<char>) {
        (self.subject@, self.paragraph@)
    }
}

/// The text a written message puts in the box: the subject, then, after a blank line, the
/// paragraph - or the subject alone when there is no paragraph.
pub open spec fn message_of(suggestion: (Seq<char>, Seq<char>)) -> Seq<char> {
    if suggestion.1.len() == 0 {
        suggestion.0
    } else {
        suggestion.0 + "\n\n"@ + suggestion.1
    }
}

impl CommitSuggestion {
    pub fn duplicate(&self) -> (copy: CommitSuggestion)
        ensures
            copy@ == self@,
    {
        CommitSuggestion { subject: self.subject.clone(), paragraph: self.paragraph.clone() }
    }

    /// The text the message puts in the box.
    pub fn as_message(&self) -> (message: String)
        ensures
            message@ == message_of(self@),
    {
        let mut message = self.subject.clone();
        if self.paragraph.unicode_len() > 0 {
            proof {
                reveal_strlit("\n\n");
            }
            message.append("\n\n");
            message.append(self.paragraph.as_str());
        }
        message
    }

    /// Whether two messages are word for word the same.
    pub fn is(&self, other: &CommitSuggestion) -> (same: bool)
        ensures
            same == (self@ == other@),
    {
        let subject = self.subject == other.subject;
        let paragraph = self.paragraph == other.paragraph;
        subject && paragraph
    }
}

/// What git says about the repo a pane is committing.
pub struct CommitState {
    /// The paths of the files a commit would take in.
    pub staged_files: Vec<String>,
    /// How many changed files are not staged.
    pub unstaged_count: u64,
    /// How many commits the branch is ahead of where a push would go.
    pub ahead: u64,
    /// The branch the repo is on; `None` on a detached HEAD.
    pub branch_name: Option<String>,
    /// Whether the agent that writes messages is there to be asked.
    pub opencode_installed: bool,
    /// Whether `gh` is there to open a pull request with.
    pub gh_installed: bool,
}

/// How far a review has got, which decides the buttons the pane shows: a commit is what there
/// is to push, and a push is what there is to open a pull request on.
#[derive(Clone, Copy, PartialEq, Eq, Debug, Structural)]
pub enum Reached {
    Nothing,
    Committed,
    Pushed,
}

/// A commit or a push running in its shell.
pub struct CommitRun {
    pub terminal_id: String,
    pub kind: RunKind,
    /// `None` while the command is going, the status it ended on once it is over.
    pub exit_code: Option<i32>,
    /// When the pane last asked how it went, in milliseconds.
    pub last_ask: Option<u64>,
}

impl CommitRun {
    pub fn worked(&self) -> (worked: bool)
        ensures
            worked == (self.exit_code == Some(0i32)),
    {
        match self.exit_code {
            Some(code) => code == 0,
            None => false,
        }
    }
}

/// One review's commit pane. Kept per review rather than per tab, so closing the tab does not
/// throw away a message that was half written.
pub struct CommitPane {
    pub message: String,
    /// What git says the repo looks like, once it has been read.
    pub state: Option<CommitState>,
    /// Set when that reading is known to be out of date, which reads it again at once.
    pub stale: bool,
    /// When it was last read, in milliseconds.
    pub last_read: Option<u64>,
    /// The last run, kept after it ends so its output stays on screen until the next one.
    pub run: Option<CommitRun>,
    pub error: Option<String>,
    /// The message an agent wrote for what is staged, waiting under the box for `[use]`.
    pub suggestion: Option<CommitSuggestion>,
    /// Why there is no such message, when asking for one did not work out.
    pub suggestion_error: Option<String>,
    /// Whether one has been asked for since the pane last had nothing to commit.
    pub suggestion_asked: bool,
    /// The message a board task wrote for this repo that was last put in the box.
    pub requested_commit_put_in: Option<CommitSuggestion>,
    /// Set when a commit has just worked, and answered by the next reading of the repo.
    pub closes_review: bool,
    pub reached: Reached,
}

/// Which answers a reading of the repo will be the one to give: taken as the reading starts,
/// so a reading already in flight when a run ended does not answer for it.
#[derive(Clone, Copy)]
pub struct Reading {
    pub answers_a_commit: bool,
    pub answers_for_the_push: bool,
}

/// What a pane has to say after hearing how its run went.
#[derive(Clone, Copy, PartialEq, Eq, Debug, Structural)]
pub enum RunOutcome {
    /// Nothing new: no run, or the run is still going.
    Going,
    /// The run is over; the review beside the pane is to read the repo again, and when the run
    /// opened the pull request, the review's panes and this one close.
    Ended { closes_panes: bool },
}

/// The branch a pane's repo is on, once git has said.
pub open spec fn branch_of(pane: CommitPane) -> Option<Seq<char>> {
    match pane.state {
        Some(state) => match state.branch_name {
            Some(b) => Some(b@),
            None => None,
        },
        None => None,
    }
}

/// Every field but the ones a step names is as it was.
pub open spec fn same_but_message_and_put_in(a: CommitPane, b: CommitPane) -> bool {
    &&& b.state == a.state
    &&& b.stale == a.stale
    &&& b.last_read == a.last_read
    &&& b.run == a.run
    &&& b.error == a.error
    &&& b.suggestion == a.suggestion
    &&& b.suggestion_error == a.suggestion_error
    &&& b.suggestion_asked == a.suggestion_asked
    &&& b.closes_review == a.closes_review
    &&& b.reached == a.reached
}

impl CommitPane {
    /// A pane that has read nothing yet: the reading is due at once.
    pub fn new() -> (pane: CommitPane)
        ensures
            pane.message@ == Seq::<char>::empty(),
            pane.state is None,
            pane.stale,
            pane.last_read is None,
            pane.run is None,
            pane.error is None,
            pane.suggestion is None,
            pane.suggestion_error is None,
            !pane.suggestion_asked,
            pane.requested_commit_put_in is None,
            !pane.closes_review,
            pane.reached == Reached::Nothing,
    {
        CommitPane {
            message: String::new(),
            state: None,
            stale: true,
            last_read: None,
            run: None,
            error: None,
            suggestion: None,
            suggestion_error: None,
            suggestion_asked: false,
            requested_commit_put_in: None,
            closes_review: false,
            reached: Reached::Nothing,
        }
    }

    /// Put a written message under the box, the way an answer from the agent does.
    pub fn set_suggestion_for_test(&mut self, suggestion: CommitSuggestion)
        ensures
            *final(self) == (CommitPane {
                suggestion: Some(suggestion),
                suggestion_asked: true,
                ..*old(self)
            }),
    {
        self.suggestion = Some(suggestion);
        self.suggestion_asked = true;
    }

    /// How many files a commit would take in, once git has been asked.
    pub fn staged_count_for_test(&self) -> (count: Option<usize>)
        ensures
            count == match self.state {
                Some(state) => Some(state.staged_files.len()),
                None => None,
            },
    {
        match &self.state {
            Some(state) => Some(state.staged_files.len()),
            None => None,
        }
    }

    /// Whether the command is going right now, which is when the buttons are off.
    pub fn is_running(&self) -> (running: bool)
        ensures
            running == (self.run matches Some(run) && run.exit_code is None),
    {
        match &self.run {
            Some(run) => run.exit_code.is_none(),
            None => false,
        }
    }

    /// The branch the repo is on, once git has been asked. `None` until then, and on a
    /// detached HEAD.
    pub fn branch(&self) -> (branch: Option<&String>)
        ensures
            match branch {
                Some(b) => branch_of(*self) == Some(b@),
                None => branch_of(*self) is None,
            },
    {
        match &self.state {
            Some(state) => match &state.branch_name {
                Some(b) => Some(b),
                None => None,
            },
            None => None,
        }
    }
}

/// Whether a reading of the repo is due at `now`: never read, or read an interval ago.
pub open spec fn reading_is_due(pane: CommitPane, now: u64) -> bool {
    match pane.last_read {
        None => true,
        Some(last) => now - last >= STATE_POLL_INTERVAL_MS,
    }
}

/// What starting a reading at `now` does: nothing when the pane is up to date and not due;
/// otherwise the pane is marked read at `now`, and the reading takes with it whether it is the
/// one to answer for a commit and for a push.
pub open spec fn reading_started(old: CommitPane, new: CommitPane, now: u64, reading: Option<Reading>) -> bool {
    if !old.stale && !reading_is_due(old, now) {
        reading is None && new == old
    } else {
        &&& reading == Some(
            Reading {
                answers_a_commit: old.closes_review,
                answers_for_the_push: old.reached == Reached::Pushed,
            },
        )
        &&& !new.stale
        &&& new.last_read == Some(now)
        &&& new.message == old.message
        &&& new.state == old.state
        &&& new.run == old.run
        &&& new.error == old.error
        &&& new.suggestion == old.suggestion
        &&& new.suggestion_error == old.suggestion_error
        &&& new.suggestion_asked == old.suggestion_asked
        &&& new.requested_commit_put_in == old.requested_commit_put_in
        &&& new.closes_review == old.closes_review
        &&& new.reached == old.reached
    }
}

/// What a reading's answer does. A reading that worked is kept and clears the error; one that
/// answers for a commit says the review is over when the commit took the whole of the working
/// tree, and one that answers for a push hands the push button its job back when commits have
/// turned up since. A reading that failed leaves its error. Either way a reading that answers
/// for a commit has done so.
pub open spec fn reading_taken(
    old: CommitPane,
    new: CommitPane,
    reading: Reading,
    result: Result<CommitState, String>,
    review_is_over: bool,
) -> bool {
    &&& new.closes_review == (old.closes_review && !reading.answers_a_commit)
    &&& new.message == old.message
    &&& new.stale == old.stale
    &&& new.last_read == old.last_read
    &&& new.run == old.run
    &&& new.suggestion == old.suggestion
    &&& new.suggestion_error == old.suggestion_error
    &&& new.suggestion_asked == old.suggestion_asked
    &&& new.requested_commit_put_in == old.requested_commit_put_in
    &&& match result {
        Ok(state) => {
            &&& review_is_over == (reading.answers_a_commit && state.staged_files.len() == 0
                && state.unstaged_count == 0)
            &&& new.reached == if reading.answers_for_the_push && old.reached == Reached::Pushed
                && state.ahead > 0 {
                Reached::Committed
            } else {
                old.reached
            }
            &&& new.state == Some(state)
            &&& new.error is None
        },
        Err(error) => {
            &&& !review_is_over
            &&& new.reached == old.reached
            &&& new.state == old.state
            &&& new.error == Some(error)
        },
    }
}

impl CommitPane {
    /// Start a reading of the repo at `now`, when one is due: see [`reading_started`]. `None`
    /// when the pane is up to date.
    pub fn start_reading(&mut self, now: u64) -> (reading: Option<Reading>)
        ensures
            reading_started(*old(self), *final(self), now, reading),
    {
        let due = match self.last_read {
            None => true,
            Some(last) => now >= last && now - last >= STATE_POLL_INTERVAL_MS,
        };
        if !self.stale && !due {
            return None;
        }
        self.stale = false;
        self.last_read = Some(now);
        Some(
            Reading {
                answers_a_commit: self.closes_review,
                answers_for_the_push: self.reached == Reached::Pushed,
            },
        )
    }

    /// Take the answer of a reading: see [`reading_taken`]. Says whether the review beside the
    /// pane is over.
    pub fn reading_answered(&mut self, reading: Reading, result: Result<CommitState, String>) -> (review_is_over: bool)
        ensures
            reading_taken(*old(self), *final(self), reading, result, review_is_over),
    {
        let mut review_is_over = false;
        match result {
            Ok(state) => {
                review_is_over = reading.answers_a_commit && state.staged_files.len() == 0
                    && state.unstaged_count == 0;
                if reading.answers_for_the_push && self.reached == Reached::Pushed && state.ahead
                    > 0 {
                    self.reached = Reached::Committed;
                }
                self.state = Some(state);
                self.error = None;
            },
            Err(error) => {
                self.error = Some(error);
            },
        }
        if reading.answers_a_commit {
            self.closes_review = false;
        }
        review_is_over
    }

    /// Take the answer of staging the whole working tree: what it left staged is read again.
    pub fn staged_all(&mut self, result: Result<(), String>)
        ensures
            *final(self) == match result {
                Ok(()) => CommitPane { error: None, stale: true, ..*old(self) },
                Err(error) => CommitPane { error: Some(error), ..*old(self) },
            },
    {
        match result {
            Ok(()) => {
                self.error = None;
                self.stale = true;
            },
            Err(error) => {
                self.error = Some(error);
            },
        }
    }

    /// A message is being asked of the agent.
    pub fn asking_for_a_message(&mut self)
        ensures
            *final(self) == (CommitPane {
                suggestion_asked: true,
                suggestion_error: None,
                ..*old(self)
            }),
    {
        self.suggestion_asked = true;
        self.suggestion_error = None;
    }

    /// Take the agent's answer: the message it wrote, or why it wrote none.
    pub fn message_answered(&mut self, result: Result<CommitSuggestion, String>)
        ensures
            *final(self) == match result {
                Ok(suggestion) => CommitPane {
                    suggestion: Some(suggestion),
                    suggestion_error: None,
                    ..*old(self)
                },
                Err(error) => CommitPane {
                    suggestion: None,
                    suggestion_error: Some(error),
                    ..*old(self)
                },
            },
    {
        match result {
            Ok(suggestion) => {
                self.suggestion = Some(suggestion);
                self.suggestion_error = None;
            },
            Err(error) => {
                self.suggestion = None;
                self.suggestion_error = Some(error);
            },
        }
    }
}

/// Where `reached` goes when a run of `kind` worked: a commit is something to push, a push
/// something to open a pull request on, and opening one moves nothing.
pub open spec fn reached_after(reached: Reached, kind: RunKind) -> Reached {
    match kind {
        RunKind::Commit => Reached::Committed,
        RunKind::Push => Reached::Pushed,
        RunKind::OpenPr => reached,
    }
}

/// What hearing how a run went does. With no run, or a run still going, nothing. Otherwise the
/// run ends on the status heard - or, when the server could not be asked, on
/// [`OUTCOME_UNREAD`] with its error said. A run that worked moves the pane on; a commit that
/// worked also empties the box, lets the message it used go, and asks the next reading whether
/// the review is over. Either way the repo is read again.
pub open spec fn outcome_taken(
    old: CommitPane,
    new: CommitPane,
    result: Result<Option<i32>, String>,
    outcome: RunOutcome,
) -> bool {
    match old.run {
        None => outcome == RunOutcome::Going && new == old,
        Some(run) => match result {
            Ok(None) => outcome == RunOutcome::Going && new == old,
            _ => {
                let code: i32 = match result {
                    Ok(Some(code)) => code,
                    _ => OUTCOME_UNREAD,
                };
                let worked = code == 0;
                let commit_worked = worked && run.kind == RunKind::Commit;
                &&& new.run == Some(CommitRun { exit_code: Some(code), ..run })
                &&& new.error == match result {
                    Err(error) => Some(error),
                    _ => old.error,
                }
                &&& new.stale
                &&& new.reached == if worked {
                    reached_after(old.reached, run.kind)
                } else {
                    old.reached
                }
                &&& outcome == RunOutcome::Ended {
                    closes_panes: worked && run.kind == RunKind::OpenPr,
                }
                &&& if commit_worked {
                    &&& new.message@ == Seq::<char>::empty()
                    &&& new.suggestion is None
                    &&& new.suggestion_error is None
                    &&& !new.suggestion_asked
                    &&& new.closes_review
                } else {
                    &&& new.message == old.message
                    &&& new.suggestion == old.suggestion
                    &&& new.suggestion_error == old.suggestion_error
                    &&& new.suggestion_asked == old.suggestion_asked
                    &&& new.closes_review == old.closes_review
                }
                &&& new.state == old.state
                &&& new.last_read == old.last_read
                &&& new.requested_commit_put_in == old.requested_commit_put_in
            },
        },
    }
}

impl CommitPane {
    /// Get ready for a run of `action`: the run before it has had its say, and its terminal,
    /// handed back, goes with it.
    pub fn start_run(&mut self, action: &CommitAction) -> (started: (RunKind, Option<String>))
        ensures
            started.0 == match *action {
                CommitAction::Commit { .. } => RunKind::Commit,
                CommitAction::Push => RunKind::Push,
                CommitAction::OpenPr => RunKind::OpenPr,
            },
            match old(self).run {
                Some(run) => started.1 == Some(run.terminal_id),
                None => started.1 is None,
            },
            *final(self) == (CommitPane { run: None, error: None, ..*old(self) }),
    {
        let kind = kind_of(action);
        let mut previous: Option<CommitRun> = None;
        std::mem::swap(&mut previous, &mut self.run);
        self.error = None;
        match previous {
            Some(run) => (kind, Some(run.terminal_id)),
            None => (kind, None),
        }
    }

    /// Take the answer of starting a run: the terminal it goes in, or why it would not start.
    pub fn run_started(&mut self, kind: RunKind, result: Result<String, String>)
        ensures
            *final(self) == match result {
                Ok(terminal_id) => CommitPane {
                    run: Some(CommitRun { terminal_id, kind, exit_code: None, last_ask: None }),
                    ..*old(self)
                },
                Err(error) => CommitPane { error: Some(error), ..*old(self) },
            },
    {
        match result {
            Ok(terminal_id) => {
                self.run = Some(CommitRun { terminal_id, kind, exit_code: None, last_ask: None });
            },
            Err(error) => {
                self.error = Some(error);
            },
        }
    }

    /// Whether to ask at `now` how the run is going: a run that has not ended, not asked about
    /// within the interval. When it is, the asking is noted and the run's terminal handed back.
    pub fn outcome_is_due(&mut self, now: u64) -> (ask: Option<String>)
        ensures
            match old(self).run {
                Some(run) => if run.exit_code is None && (run.last_ask matches Some(last) ==> now
                    - last >= OUTCOME_ASK_INTERVAL_MS) {
                    &&& ask == Some(run.terminal_id)
                    &&& *final(self) == (CommitPane {
                        run: Some(CommitRun { last_ask: Some(now), ..run }),
                        ..*old(self)
                    })
                } else {
                    ask is None && *final(self) == *old(self)
                },
                None => ask is None && *final(self) == *old(self),
            },
    {
        let mut taken: Option<CommitRun> = None;
        std::mem::swap(&mut taken, &mut self.run);
        match taken {
            None => None,
            Some(mut run) => {
                let due = match run.last_ask {
                    None => true,
                    Some(last) => now >= last && now - last >= OUTCOME_ASK_INTERVAL_MS,
                };
                if run.exit_code.is_some() || !due {
                    self.run = Some(run);
                    return None;
                }
                run.last_ask = Some(now);
                let terminal_id = run.terminal_id.clone();
                self.run = Some(run);
                Some(terminal_id)
            },
        }
    }

    /// Take what the server said of how the run went: see [`outcome_taken`].
    pub fn outcome_answered(&mut self, result: Result<Option<i32>, String>) -> (outcome: RunOutcome)
        ensures
            outcome_taken(*old(self), *final(self), result, outcome),
    {
        let mut taken: Option<CommitRun> = None;
        std::mem::swap(&mut taken, &mut self.run);
        let mut run = match taken {
            None => {
                return RunOutcome::Going;
            },
            Some(run) => run,
        };
        match result {
            Ok(None) => {
                self.run = Some(run);
                return RunOutcome::Going;
            },
            Ok(Some(code)) => {
                run.exit_code = Some(code);
            },
            Err(error) => {
                self.error = Some(error);
                run.exit_code = Some(OUTCOME_UNREAD);
            },
        }
        let worked = run.worked();
        let kind = run.kind;
        self.run = Some(run);
        if worked && kind == RunKind::Commit {
            self.message = String::new();
            self.suggestion = None;
            self.suggestion_error = None;
            self.suggestion_asked = false;
            self.closes_review = true;
        }
        if worked {
            self.reached = match kind {
                RunKind::Commit => Reached::Committed,
                RunKind::Push => Reached::Pushed,
                RunKind::OpenPr => self.reached,
            };
        }
        self.stale = true;
        RunOutcome::Ended { closes_panes: worked && kind == RunKind::OpenPr }
    }
}

/// A line one of the board's tasks wrote, asking for the work in a repo to be looked at.
pub struct ReviewRequestView {
    /// The repo the line names, as the working copy it resolves to.
    pub repo_path: String,
    /// The branch the line names, if it names one.
    pub branch: Option<String>,
    /// Whether the line has been crossed off by hand.
    pub done: bool,
    /// Whether the task that wrote it is in the finished column.
    pub task_finished: bool,
    /// The commit message the line wrote, if it wrote one.
    pub suggestion: Option<CommitSuggestion>,
}

/// A line that asks about `repo`, from a task not yet finished.
pub open spec fn asks_about(request: ReviewRequestView, repo: Seq<char>) -> bool {
    request.repo_path@ == repo && !request.task_finished
}

/// A line that names `branch`.
pub open spec fn names_branch(request: ReviewRequestView, branch: Seq<char>) -> bool {
    request.branch matches Some(b) && b@ == branch
}

/// Whether the `j`th line is the one a pane on `repo`, on `branch`, answers for: the first line
/// about the repo that names the branch, or, when none names it, the first line about the repo.
pub open spec fn is_the_request(
    requests: Seq<ReviewRequestView>,
    repo: Seq<char>,
    branch: Option<Seq<char>>,
    j: int,
) -> bool {
    &&& 0 <= j < requests.len()
    &&& asks_about(requests[j], repo)
    &&& match branch {
        Some(b) => if exists|i: int|
            0 <= i < requests.len() && #[trigger] asks_about(requests[i], repo) && names_branch(
                requests[i],
                b,
            ) {
            &&& names_branch(requests[j], b)
            &&& forall|i: int|
                0 <= i < j ==> !(#[trigger] asks_about(requests[i], repo) && names_branch(
                    requests[i],
                    b,
                ))
        } else {
            forall|i: int| 0 <= i < j ==> !#[trigger] asks_about(requests[i], repo)
        },
        None => forall|i: int| 0 <= i < j ==> !#[trigger] asks_about(requests[i], repo),
    }
}

/// The line a pane on `repo`, on `branch`, answers for, if any line asks about the repo.
pub open spec fn the_request(
    requests: Seq<ReviewRequestView>,
    repo: Seq<char>,
    branch: Option<Seq<char>>,
) -> Option<int> {
    if exists|j: int| is_the_request(requests, repo, branch, j) {
        Some(choose|j: int| is_the_request(requests, repo, branch, j))
    } else {
        None
    }
}

/// The line whose commit the pane is about to make: the line it answers for, unless that line
/// is crossed off or names another branch than the one the repo is on.
pub open spec fn the_requested_commit(
    requests: Seq<ReviewRequestView>,
    repo: Seq<char>,
    branch: Option<Seq<char>>,
) -> Option<int> {
    match the_request(requests, repo, branch) {
        None => None,
        Some(j) => if requests[j].done {
            None
        } else {
            match requests[j].branch {
                Some(b) => if branch == Some(b@) {
                    Some(j)
                } else {
                    None
                },
                None => Some(j),
            }
        },
    }
}

/// The message the line whose commit the pane is about to make wrote, if it wrote one.
pub open spec fn written_for(
    pane: CommitPane,
    requests: Seq<ReviewRequestView>,
    repo: Seq<char>,
) -> Option<CommitSuggestion> {
    match the_requested_commit(requests, repo, branch_of(pane)) {
        Some(j) => requests[j].suggestion,
        None => None,
    }
}

/// What filling in the requested commit does. Once git has said which branch the repo is on,
/// the message the requested commit wrote goes in an empty box, and is noted as put in, unless
/// it is the one already put in once; anything else leaves the pane as it was.
pub open spec fn filled_in(
    old: CommitPane,
    new: CommitPane,
    requests: Seq<ReviewRequestView>,
    repo: Seq<char>,
) -> bool {
    match written_for(old, requests, repo) {
        Some(written) => if old.state is Some && !(old.requested_commit_put_in matches Some(p)
            && p@ == written@) && trimmed(old.message@).len() == 0 {
            &&& new.message@ == message_of(written@)
            &&& new.requested_commit_put_in matches Some(p) && p@ == written@
            &&& same_but_message_and_put_in(old, new)
        } else {
            new == old
        },
        None => new == old,
    }
}

proof fn lemma_the_request_is_one(
    requests: Seq<ReviewRequestView>,
    repo: Seq<char>,
    branch: Option<Seq<char>>,
    j: int,
    k: int,
)
    requires
        is_the_request(requests, repo, branch, j),
        is_the_request(requests, repo, branch, k),
    ensures
        j == k,
{
    if j < k {
        assert(asks_about(requests[j], repo));
    } else if k < j {
        assert(asks_about(requests[k], repo));
    }
}

fn names_the_branch(request: &ReviewRequestView, branch: &String) -> (yes: bool)
    ensures
        yes == names_branch(*request, branch@),
{
    match &request.branch {
        Some(b) => {
            let same = *b == *branch;
            same
        },
        None => false,
    }
}

impl CommitPane {
    /// The line one of the board's tasks wrote about the repo this pane is committing, if any
    /// did: the first that names the branch the repo is on, else the first about the repo. A
    /// line from a finished task is not among them.
    pub fn requested_review_of(&self, requests: &Vec<ReviewRequestView>, repo_path: &String) -> (picked: Option<usize>)
        ensures
            match picked {
                Some(j) => the_request(requests@, repo_path@, branch_of(*self)) == Some(j as int),
                None => the_request(requests@, repo_path@, branch_of(*self)) is None,
            },
    {
        let branch = self.branch();
        let ghost b = branch_of(*self);
        let mut first: Option<usize> = None;
        let mut i: usize = 0;
        while i < requests.len()
            invariant
                i <= requests.len(),
                b == branch_of(*self),
                match branch {
                    Some(x) => b == Some(x@),
                    None => b is None,
                },
                match first {
                    None => forall|k: int| 0 <= k < i ==> !#[trigger] asks_about(requests@[k], repo_path@),
                    Some(f) => f < i && asks_about(requests@[f as int], repo_path@) && forall|k: int|
                        0 <= k < f ==> !#[trigger] asks_about(requests@[k], repo_path@),
                },
                match b {
                    Some(bb) => forall|k: int|
                        0 <= k < i ==> !(#[trigger] asks_about(requests@[k], repo_path@)
                            && names_branch(requests@[k], bb)),
                    None => true,
                },
            decreases requests.len() - i,
        {
            let request = &requests[i];
            let same_repo = request.repo_path == *repo_path;
            if same_repo && !request.task_finished {
                if first.is_none() {
                    first = Some(i);
                }
                match branch {
                    Some(x) => {
                        if names_the_branch(request, x) {
                            proof {
                                assert(asks_about(requests@[i as int], repo_path@));
                                assert(names_branch(requests@[i as int], x@));
                                assert(is_the_request(requests@, repo_path@, b, i as int));
                                if exists|j: int| is_the_request(requests@, repo_path@, b, j) {
                                    let j = choose|j: int| is_the_request(requests@, repo_path@, b, j);
                                    lemma_the_request_is_one(requests@, repo_path@, b, i as int, j);
                                }
                            }
                            return Some(i);
                        }
                    },
                    None => {},
                }
            }
            i = i + 1;
        }
        match first {
            None => {
                proof {
                    assert forall|j: int| !is_the_request(requests@, repo_path@, b, j) by {
                        if 0 <= j < requests@.len() {
                            assert(!asks_about(requests@[j], repo_path@));
                        }
                    }
                }
                None
            },
            Some(f) => {
                proof {
                    match b {
                        Some(bb) => {
                            assert(!exists|k: int|
                                0 <= k < requests@.len() && #[trigger] asks_about(requests@[k], repo_path@)
                                    && names_branch(requests@[k], bb));
                        },
                        None => {},
                    }
                    assert(is_the_request(requests@, repo_path@, b, f as int));
                    let j = choose|j: int| is_the_request(requests@, repo_path@, b, j);
                    lemma_the_request_is_one(requests@, repo_path@, b, f as int, j);
                }
                Some(f)
            },
        }
    }

    /// The line whose commit this pane is about to make, which is the one whose message goes
    /// in the box: the line the pane answers for, unless it is crossed off or names a branch
    /// the repo is not on.
    pub fn requested_commit_of(&self, requests: &Vec<ReviewRequestView>, repo_path: &String) -> (picked: Option<usize>)
        ensures
            match picked {
                Some(j) => the_requested_commit(requests@, repo_path@, branch_of(*self)) == Some(
                    j as int,
                ),
                None => the_requested_commit(requests@, repo_path@, branch_of(*self)) is None,
            },
    {
        let j = match self.requested_review_of(requests, repo_path) {
            None => {
                return None;
            },
            Some(j) => j,
        };
        let request = &requests[j];
        if request.done {
            return None;
        }
        match &request.branch {
            Some(b) => match self.branch() {
                Some(on) => {
                    let same = *b == *on;
                    if same {
                        Some(j)
                    } else {
                        None
                    }
                },
                None => None,
            },
            None => Some(j),
        }
    }

    /// Put the commit a board task wrote for this repo in the box: see [`filled_in`]. Only
    /// ever into an empty box, and each message only ever once, so a message someone is
    /// writing is never argued with, and neither is a box they have emptied on purpose.
    pub fn fill_in_the_requested_commit(&mut self, requests: &Vec<ReviewRequestView>, repo_path: &String)
        ensures
            filled_in(*old(self), *final(self), requests@, repo_path@),
    {
        if self.state.is_none() {
            return;
        }
        let j = match self.requested_commit_of(requests, repo_path) {
            None => {
                return;
            },
            Some(j) => j,
        };
        let written = match &requests[j].suggestion {
            None => {
                return;
            },
            Some(written) => written,
        };
        let already = match &self.requested_commit_put_in {
            Some(put_in) => put_in.is(written),
            None => false,
        };
        if already || trim(self.message.as_str()).unicode_len() > 0 {
            return;
        }
        self.message = written.as_message();
        self.requested_commit_put_in = Some(written.duplicate());
    }

    /// The one time the pane asks for a message on its own: something is staged, nothing has
    /// been written in the box, no message has been asked for since there was last nothing to
    /// commit, no run is going, and the agent is there to ask. A pane with nothing staged lets
    /// the message written for what was staged before go.
    pub fn auto_ask_for_commit_message(&mut self) -> (ask: bool)
        ensures
            match old(self).state {
                None => !ask && *final(self) == *old(self),
                Some(state) => if state.staged_files.len() == 0 {
                    &&& !ask
                    &&& *final(self) == (CommitPane {
                        suggestion: None,
                        suggestion_error: None,
                        suggestion_asked: false,
                        ..*old(self)
                    })
                } else {
                    &&& ask == (!old(self).suggestion_asked && trimmed(old(self).message@).len()
                        == 0 && !(old(self).run matches Some(run) && run.exit_code is None)
                        && state.opencode_installed)
                    &&& *final(self) == *old(self)
                },
            },
    {
        let (nothing_staged, installed) = match &self.state {
            None => {
                return false;
            },
            Some(state) => (state.staged_files.len() == 0, state.opencode_installed),
        };
        if nothing_staged {
            self.suggestion = None;
            self.suggestion_error = None;
            self.suggestion_asked = false;
            return false;
        }
        if self.suggestion_asked || trim(self.message.as_str()).unicode_len() > 0
            || self.is_running() {
            return false;
        }
        installed
    }
}

/// A message a board task wrote goes in the box once: filling in again, with the same lines,
/// leaves the pane as the first filling left it - whether that put the message in or not.
pub proof fn law_a_requested_commit_goes_in_once(
    first: CommitPane,
    second: CommitPane,
    third: CommitPane,
    requests: Seq<ReviewRequestView>,
    repo: Seq<char>,
)
    requires
        filled_in(first, second, requests, repo),
        filled_in(second, third, requests, repo),
    ensures
        third == second,
{
    assert(branch_of(second) == branch_of(first));
    assert(written_for(second, requests, repo) == written_for(first, requests, repo));
}

/// A commit that worked asks the repo again at once, and the reading that answers says the
/// review is over exactly when the commit took the whole of the working tree; the box is
/// empty, the pane has something to push, and the commit has been answered for.
pub proof fn law_a_commit_that_worked_ends_the_review_when_it_took_everything(
    before: CommitPane,
    ended: CommitPane,
    reading_out: CommitPane,
    read: CommitPane,
    outcome: RunOutcome,
    now: u64,
    reading: Option<Reading>,
    state: CommitState,
    review_is_over: bool,
)
    requires
        before.run matches Some(run) && run.kind == RunKind::Commit && run.exit_code is None,
        outcome_taken(before, ended, Ok(Some(0i32)), outcome),
        reading_started(ended, reading_out, now, reading),
        reading matches Some(r) && reading_taken(reading_out, read, r, Ok(state), review_is_over),
    ensures
        outcome == (RunOutcome::Ended { closes_panes: false }),
        ended.message@ == Seq::<char>::empty(),
        review_is_over == (state.staged_files.len() == 0 && state.unstaged_count == 0),
        read.reached == Reached::Committed,
        !read.closes_review,
{
}

/// A push that worked leaves the pane with a pull request to open, and the reading it asks
/// for at once gives the push button its job back when commits have turned up since.
pub proof fn law_a_push_that_worked_hands_the_button_back_once_commits_turn_up(
    before: CommitPane,
    ended: CommitPane,
    reading_out: CommitPane,
    read: CommitPane,
    outcome: RunOutcome,
    now: u64,
    reading: Option<Reading>,
    state: CommitState,
    review_is_over: bool,
)
    requires
        before.run matches Some(run) && run.kind == RunKind::Push && run.exit_code is None,
        outcome_taken(before, ended, Ok(Some(0i32)), outcome),
        reading_started(ended, reading_out, now, reading),
        reading matches Some(r) && reading_taken(reading_out, read, r, Ok(state), review_is_over),
    ensures
        ended.reached == Reached::Pushed,
        read.reached == if state.ahead > 0 {
            Reached::Committed
        } else {
            Reached::Pushed
        },
{
}

/// Hearing how a run went always lets the pane read the repo again at once - the reading is
/// started whatever `now` is - unless nothing was heard.
pub proof fn law_a_run_heard_of_is_read_about_at_once(
    before: CommitPane,
    ended: CommitPane,
    result: Result<Option<i32>, String>,
    outcome: RunOutcome,
    now: u64,
    reading_out: CommitPane,
    reading: Option<Reading>,
)
    requires
        outcome_taken(before, ended, result, outcome),
        outcome != RunOutcome::Going,
        reading_started(ended, reading_out, now, reading),
    ensures
        reading is Some,
{
}

/// The ink a run's note is said in.
#[derive(Clone, Copy, PartialEq, Eq, Debug, Structural)]
pub enum RunInk {
    /// While it goes.
    Muted,
    /// It worked.
    Added,
    /// It did not.
    Warn,
}

/// What the pane offers: which of its buttons are there, and which of those can be pressed.
#[derive(Clone, Copy, Debug)]
pub struct Buttons {
    /// Whether the message box takes typing: not while git is going.
    pub message_editable: bool,
    /// How many changed files are not staged, which `[stage all]` says.
    pub unstaged: u64,
    pub stage_all: bool,
    pub commit: bool,
    /// `[push]`, when there is anything it could push, and whether it can be pressed.
    pub push: Option<bool>,
    /// `[open PR]`, when there is a push to open one on, and whether it can be pressed.
    pub open_pr: Option<bool>,
    /// `[close]`, once the branch is sent.
    pub close: bool,
    /// What the last run says of itself, and in what ink.
    pub run_note: Option<(&'static str, RunInk)>,
}

/// What the pane says of its last run: its words while it goes, when it worked, when not.
pub open spec fn run_note_spec(run: Option<CommitRun>) -> Option<(Seq<char>, RunInk)> {
    match run {
        None => None,
        Some(run) => {
            let (running, worked, failed) = words_spec(run.kind);
            match run.exit_code {
                None => Some((running, RunInk::Muted)),
                Some(code) => if code == 0 {
                    Some((worked, RunInk::Added))
                } else {
                    Some((failed, RunInk::Warn))
                },
            }
        },
    }
}

/// Under the box: the message the agent is writing, the one it wrote with `[use]` beside it,
/// why none came, or nothing.
#[derive(Clone, Copy, PartialEq, Eq, Debug, Structural)]
pub enum SuggestedRow {
    /// A line saying a message is being written.
    Writing,
    /// The message written, with `[use]` - pressable when `usable` - and its paragraph under
    /// it when it has one with more than spaces in it.
    Offer { usable: bool, paragraph_shown: bool },
    /// Why no message came, with nothing to press.
    SaysWhy,
    Nothing,
}

/// What the row under the box shows.
pub fn suggested_row(
    suggestion: Option<&CommitSuggestion>,
    error: Option<&String>,
    writing: bool,
    usable: bool,
) -> (row: SuggestedRow)
    ensures
        row == if writing {
            SuggestedRow::Writing
        } else if suggestion is Some {
            SuggestedRow::Offer {
                usable,
                paragraph_shown: trimmed(suggestion->0.paragraph@).len() > 0,
            }
        } else if error is Some {
            SuggestedRow::SaysWhy
        } else {
            SuggestedRow::Nothing
        },
{
    if writing {
        return SuggestedRow::Writing;
    }
    match suggestion {
        Some(suggestion) => SuggestedRow::Offer {
            usable,
            paragraph_shown: trim(suggestion.paragraph.as_str()).unicode_len() > 0,
        },
        None => match error {
            Some(_) => SuggestedRow::SaysWhy,
            None => SuggestedRow::Nothing,
        },
    }
}

impl CommitPane {
    /// What the pane offers, while git is `starting` a run or not. Nothing can be pressed while
    /// a run is going or starting. A commit takes a staged change and a message. Each of the
    /// other buttons waits for the thing it acts on to exist: something committed - or a
    /// branch that arrived ahead of its upstream - to push, and a push to open a pull request
    /// on, where `gh` is there to open one with; a push that worked took everything there was.
    pub fn buttons(&self, starting: bool) -> (buttons: Buttons)
        ensures
            ({
                let running = starting || (self.run matches Some(run) && run.exit_code is None);
                let unstaged: u64 = match self.state {
                    Some(state) => state.unstaged_count,
                    None => 0,
                };
                let ahead: u64 = match self.state {
                    Some(state) => state.ahead,
                    None => 0,
                };
                &&& buttons.message_editable == !running
                &&& buttons.unstaged == unstaged
                &&& buttons.stage_all == (!running && unstaged > 0)
                &&& buttons.commit == (!running && trimmed(self.message@).len() > 0 && (
                self.state matches Some(state) && state.staged_files.len() > 0))
                &&& buttons.push == if ahead > 0 || self.reached != Reached::Nothing {
                    Some(!running && self.reached != Reached::Pushed)
                } else {
                    None
                }
                &&& buttons.open_pr == if (self.state matches Some(state) && state.gh_installed)
                    && self.reached == Reached::Pushed {
                    Some(!running)
                } else {
                    None
                }
                &&& buttons.close == (self.reached == Reached::Pushed)
                &&& match buttons.run_note {
                    Some((note, ink)) => run_note_spec(self.run) == Some((note@, ink)),
                    None => run_note_spec(self.run) is None,
                }
            }),
    {
        let running = starting || self.is_running();
        let (unstaged, ahead, staged, gh_installed) = match &self.state {
            Some(state) => (
                state.unstaged_count,
                state.ahead,
                state.staged_files.len() > 0,
                state.gh_installed,
            ),
            None => (0, 0, false, false),
        };
        let has_message = trim(self.message.as_str()).unicode_len() > 0;
        let push = if ahead > 0 || self.reached != Reached::Nothing {
            Some(!running && self.reached != Reached::Pushed)
        } else {
            None
        };
        let open_pr = if gh_installed && self.reached == Reached::Pushed {
            Some(!running)
        } else {
            None
        };
        let run_note = match &self.run {
            None => None,
            Some(run) => {
                let words = words_for(run.kind);
                match run.exit_code {
                    None => Some((words.running, RunInk::Muted)),
                    Some(code) => if code == 0 {
                        Some((words.worked, RunInk::Added))
                    } else {
                        Some((words.failed, RunInk::Warn))
                    },
                }
            },
        };
        Buttons {
            message_editable: !running,
            unstaged,
            stage_all: !running && unstaged > 0,
            commit: !running && has_message && staged,
            push,
            open_pr,
            close: self.reached == Reached::Pushed,
            run_note,
        }
    }

    /// `[use]` was pressed: the message written goes in the box, and is edited from there.
    pub fn use_suggestion(&mut self)
        ensures
            match old(self).suggestion {
                Some(suggestion) => final(self).message@ == message_of(suggestion@)
                    && *final(self) == (CommitPane {
                    message: final(self).message,
                    suggestion: None,
                    ..*old(self)
                }),
                None => *final(self) == *old(self),
            },
    {
        let mut taken: Option<CommitSuggestion> = None;
        std::mem::swap(&mut taken, &mut self.suggestion);
        match taken {
            Some(suggestion) => {
                self.message = suggestion.as_message();
            },
            None => {},
        }
    }
}

} // verus!
