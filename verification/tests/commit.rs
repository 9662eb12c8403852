use moon_native::commit_pane::{
    change_mark, kind_of, suggested_row, words_for, CommitAction, CommitPane, CommitRun, CommitState,
    CommitSuggestion, FileChangeKind, Reached, ReviewRequestView, RunInk, RunKind, RunOutcome,
    SuggestedRow, OUTCOME_UNREAD,
};

fn written(subject: &str, paragraph: &str) -> CommitSuggestion {
    CommitSuggestion { subject: subject.to_string(), paragraph: paragraph.to_string() }
}

fn state(staged: usize, unstaged: u64, ahead: u64, branch: Option<&str>) -> CommitState {
    CommitState {
        staged_files: (0..staged).map(|k| format!("src/file{k}.rs")).collect(),
        unstaged_count: unstaged,
        ahead,
        branch_name: branch.map(str::to_string),
        opencode_installed: true,
        gh_installed: true,
    }
}

fn request(repo: &str, branch: Option<&str>, message: Option<(&str, &str)>) -> ReviewRequestView {
    ReviewRequestView {
        repo_path: repo.to_string(),
        branch: branch.map(str::to_string),
        done: false,
        task_finished: false,
        suggestion: message.map(|(subject, paragraph)| written(subject, paragraph)),
    }
}

/// A pane that has read the repo, on this branch, with this much staged.
fn pane_on(branch: Option<&str>, staged: usize) -> CommitPane {
    let mut pane = CommitPane::new();
    let reading = pane.start_reading(0).expect("a new pane reads at once");
    pane.reading_answered(reading, Ok(state(staged, 0, 0, branch)));
    pane
}

/// Run `action` to the end, on this status.
fn run_to_the_end(pane: &mut CommitPane, action: CommitAction, status: i32) -> RunOutcome {
    let (kind, _) = pane.start_run(&action);
    pane.run_started(kind, Ok("terminal-1".to_string()));
    pane.outcome_answered(Ok(Some(status)))
}

/// The commit button is the pane's own, and unlike push it is there from the first frame: push
/// waits for something to have been committed.
#[test]
fn the_commit_button_opens_a_pane_beside_the_review() {
    let pane = CommitPane::new();
    let buttons = pane.buttons(false);

    assert!(!buttons.commit, "the commit button is there, and off until there is a message and a staged change");
    assert!(buttons.push.is_none(), "nothing has been committed, so there is nothing to push yet");
    assert!(buttons.open_pr.is_none());
    assert!(!buttons.close);
}

#[test]
fn a_commit_takes_a_staged_change_and_a_message() {
    let mut pane = pane_on(Some("main"), 2);
    assert!(!pane.buttons(false).commit, "no message yet");
    pane.message = "  \n ".to_string();
    assert!(!pane.buttons(false).commit, "spaces are no message");
    pane.message = "Count the values".to_string();
    assert!(pane.buttons(false).commit);
    assert!(!pane.buttons(true).commit, "and nothing is pressed while git is starting");

    let mut empty = pane_on(Some("main"), 0);
    empty.message = "Count the values".to_string();
    assert!(!empty.buttons(false).commit, "nothing staged is nothing to commit");
}

#[test]
fn a_commit_that_worked_empties_the_box_and_offers_the_push() {
    let mut pane = pane_on(Some("main"), 1);
    pane.message = "Count the values\n\nAnd add the module that does it.".to_string();
    pane.set_suggestion_for_test(written("feat: count", ""));

    let message = pane.message.clone();
    assert_eq!(run_to_the_end(&mut pane, CommitAction::Commit { message }, 0), RunOutcome::Ended { closes_panes: false });
    assert_eq!(pane.message, "");
    assert!(pane.suggestion.is_none() && !pane.suggestion_asked);
    assert_eq!(pane.reached, Reached::Committed);
    assert!(pane.closes_review && pane.stale);

    let buttons = pane.buttons(false);
    assert_eq!(buttons.push, Some(true));
    assert_eq!(buttons.run_note, Some(("committed", RunInk::Added)));

    // The reading after the commit answers for it: the tree is clean, so the review is over.
    let reading = pane.start_reading(10).expect("a run that ended is read about at once");
    assert!(pane.reading_answered(reading, Ok(state(0, 0, 1, Some("main")))));
    assert!(!pane.closes_review);
}

#[test]
fn a_commit_that_left_changes_behind_keeps_the_review() {
    let mut pane = pane_on(Some("main"), 1);
    pane.message = "part of it".to_string();
    let message = pane.message.clone();
    run_to_the_end(&mut pane, CommitAction::Commit { message }, 0);
    let reading = pane.start_reading(10).expect("read at once");
    assert!(!pane.reading_answered(reading, Ok(state(0, 3, 1, Some("main")))));
}

#[test]
fn a_refused_run_moves_nothing_but_says_so() {
    let mut pane = pane_on(Some("main"), 1);
    pane.message = "Count the values".to_string();
    let message = pane.message.clone();
    run_to_the_end(&mut pane, CommitAction::Commit { message }, 1);
    assert_eq!(pane.message, "Count the values");
    assert_eq!(pane.reached, Reached::Nothing);
    assert_eq!(pane.buttons(false).run_note, Some(("git would not commit - see below", RunInk::Warn)));

    // A run nobody could ask about reads as a failure too.
    let (kind, _) = pane.start_run(&CommitAction::Push);
    pane.run_started(kind, Ok("terminal-2".to_string()));
    pane.outcome_answered(Err("the server went away".to_string()));
    assert_eq!(pane.run.as_ref().and_then(|run| run.exit_code), Some(OUTCOME_UNREAD));
    assert_eq!(pane.error.as_deref(), Some("the server went away"));
    assert_eq!(pane.reached, Reached::Nothing);
}

#[test]
fn a_push_that_worked_offers_the_pull_request_and_gives_the_button_back_for_new_commits() {
    let mut pane = pane_on(Some("main"), 0);
    run_to_the_end(&mut pane, CommitAction::Commit { message: "x".to_string() }, 0);
    run_to_the_end(&mut pane, CommitAction::Push, 0);
    assert_eq!(pane.reached, Reached::Pushed);
    let buttons = pane.buttons(false);
    assert_eq!(buttons.push, Some(false), "everything is pushed already");
    assert_eq!(buttons.open_pr, Some(true));
    assert!(buttons.close);

    let reading = pane.start_reading(10).expect("read at once");
    pane.reading_answered(reading, Ok(state(0, 0, 2, Some("main"))));
    assert_eq!(pane.reached, Reached::Committed, "commits from elsewhere are something to push");

    run_to_the_end(&mut pane, CommitAction::Push, 0);
    assert_eq!(run_to_the_end(&mut pane, CommitAction::OpenPr, 0), RunOutcome::Ended { closes_panes: true });
    assert_eq!(pane.reached, Reached::Pushed, "opening the pull request moves nothing");
    assert_eq!(run_to_the_end(&mut pane, CommitAction::OpenPr, 3), RunOutcome::Ended { closes_panes: false });
}

#[test]
fn a_run_is_asked_about_once_an_interval_until_it_ends() {
    let mut pane = pane_on(Some("main"), 1);
    assert_eq!(pane.outcome_is_due(0), None, "no run, nothing to ask");
    let (kind, previous) = pane.start_run(&CommitAction::Push);
    assert_eq!(kind, RunKind::Push);
    assert_eq!(previous, None);
    pane.run_started(kind, Ok("terminal-1".to_string()));
    assert!(pane.is_running());
    assert_eq!(pane.buttons(false).run_note, Some(("pushing…", RunInk::Muted)));

    assert_eq!(pane.outcome_is_due(1000).as_deref(), Some("terminal-1"));
    assert_eq!(pane.outcome_is_due(1200), None);
    assert_eq!(pane.outcome_is_due(1300).as_deref(), Some("terminal-1"));
    assert_eq!(pane.outcome_answered(Ok(None)), RunOutcome::Going);
    assert!(pane.is_running());
    pane.outcome_answered(Ok(Some(0)));
    assert!(!pane.is_running());
    assert_eq!(pane.outcome_is_due(5000), None, "a run that ended is not asked about");

    let (_, previous) = pane.start_run(&CommitAction::OpenPr);
    assert_eq!(previous.as_deref(), Some("terminal-1"), "the run before hands its terminal back");
}

#[test]
fn the_repo_is_read_again_once_an_interval_or_at_once_when_stale() {
    let mut pane = CommitPane::new();
    assert!(pane.start_reading(5000).is_some());
    assert!(pane.start_reading(5500).is_none());
    assert!(pane.start_reading(6000).is_some());
    pane.staged_all(Ok(()));
    assert!(pane.start_reading(6001).is_some(), "staging makes the reading stale");
    pane.staged_all(Err("no".to_string()));
    assert_eq!(pane.error.as_deref(), Some("no"));
    assert!(pane.start_reading(6002).is_none());
}

#[test]
fn a_commit_a_task_asked_for_is_put_in_the_box_once() {
    let requests = vec![
        request("/elsewhere", None, Some(("feat: other", ""))),
        request("/repo", Some("feature"), Some(("feat: the feature", "It does a thing."))),
        request("/repo", Some("main"), Some(("feat: on main", ""))),
    ];
    let repo = "/repo".to_string();

    let mut before_reading = CommitPane::new();
    before_reading.fill_in_the_requested_commit(&requests, &repo);
    assert_eq!(before_reading.message, "", "not before git has said which branch the repo is on");

    let mut pane = pane_on(Some("main"), 0);
    assert_eq!(pane.requested_review_of(&requests, &repo), Some(2), "the line naming the branch the repo is on");
    pane.fill_in_the_requested_commit(&requests, &repo);
    assert_eq!(pane.message, "feat: on main");

    pane.message.clear();
    pane.fill_in_the_requested_commit(&requests, &repo);
    assert_eq!(pane.message, "", "a box emptied on purpose stays empty");

    let mut typing = pane_on(Some("feature"), 0);
    typing.message = "my own words".to_string();
    typing.fill_in_the_requested_commit(&requests, &repo);
    assert_eq!(typing.message, "my own words", "a message being written is never argued with");

    let mut feature = pane_on(Some("feature"), 0);
    feature.fill_in_the_requested_commit(&requests, &repo);
    assert_eq!(feature.message, "feat: the feature\n\nIt does a thing.");
}

#[test]
fn a_commit_asked_for_on_another_branch_or_crossed_off_stays_out_of_the_box() {
    let repo = "/repo".to_string();
    let on_another = vec![request("/repo", Some("feature"), Some(("feat: the feature", "")))];
    let pane = pane_on(Some("main"), 0);
    assert_eq!(pane.requested_review_of(&on_another, &repo), Some(0), "the header still names it");
    assert_eq!(pane.requested_commit_of(&on_another, &repo), None, "but its message is not this commit's");

    let mut crossed_off = vec![request("/repo", None, Some(("feat: done", "")))];
    crossed_off[0].done = true;
    assert_eq!(pane.requested_commit_of(&crossed_off, &repo), None);

    let mut finished = vec![request("/repo", None, Some(("feat: finished", "")))];
    finished[0].task_finished = true;
    assert_eq!(pane.requested_review_of(&finished, &repo), None, "a finished task's line is not among them");

    let no_branch = vec![request("/repo", None, Some(("feat: any", "")))];
    let mut detached = pane_on(None, 0);
    assert_eq!(detached.requested_commit_of(&no_branch, &repo), Some(0));
    detached.fill_in_the_requested_commit(&no_branch, &repo);
    assert_eq!(detached.message, "feat: any");
}

#[test]
fn the_pane_asks_for_a_message_once_something_is_staged_and_the_box_is_empty() {
    let mut nothing = pane_on(Some("main"), 0);
    nothing.suggestion_asked = true;
    assert!(!nothing.auto_ask_for_commit_message());
    assert!(!nothing.suggestion_asked, "nothing staged lets the last message go");

    let mut pane = pane_on(Some("main"), 1);
    assert!(pane.auto_ask_for_commit_message());
    pane.asking_for_a_message();
    assert!(!pane.auto_ask_for_commit_message(), "asked once and no more");
    pane.message_answered(Err("opencode failed".to_string()));
    assert_eq!(pane.suggestion_error.as_deref(), Some("opencode failed"));
    pane.message_answered(Ok(written("feat: x", "y")));
    assert!(pane.suggestion_error.is_none());
    pane.use_suggestion();
    assert_eq!(pane.message, "feat: x\n\ny");
    assert!(pane.suggestion.is_none());

    let mut written_by_hand = pane_on(Some("main"), 1);
    written_by_hand.message = "mine".to_string();
    assert!(!written_by_hand.auto_ask_for_commit_message());
}

#[test]
fn nothing_is_drawn_where_there_is_no_message_to_show() {
    assert_eq!(suggested_row(None, None, false, true), SuggestedRow::Nothing);
}

#[test]
fn a_message_that_would_not_come_says_why() {
    let error = "opencode failed (status 1): Error: UnknownError".to_string();
    assert_eq!(suggested_row(None, Some(&error), false, true), SuggestedRow::SaysWhy);
    let message = written("feat: x", "   ");
    assert_eq!(
        suggested_row(Some(&message), Some(&error), false, false),
        SuggestedRow::Offer { usable: false, paragraph_shown: false }
    );
    assert_eq!(suggested_row(Some(&message), None, true, true), SuggestedRow::Writing);
}

#[test]
fn a_written_message_reads_as_its_subject_over_its_paragraph() {
    assert_eq!(written("feat: add the extra module", "The fixture gains a module the review is of.").as_message(),
        "feat: add the extra module\n\nThe fixture gains a module the review is of.");
    assert_eq!(written("fix: typo", "").as_message(), "fix: typo");
}

#[test]
fn each_run_says_what_it_is_doing_and_each_file_how_it_changed() {
    assert_eq!(words_for(RunKind::Commit).running, "committing…");
    assert_eq!(words_for(RunKind::Push).worked, "pushed");
    assert_eq!(words_for(RunKind::OpenPr).failed, "gh would not open a pull request - see below");
    assert_eq!(kind_of(&CommitAction::Commit { message: String::new() }), RunKind::Commit);
    assert_eq!(kind_of(&CommitAction::OpenPr), RunKind::OpenPr);
    assert_eq!(change_mark(FileChangeKind::Added), "+");
    assert_eq!(change_mark(FileChangeKind::Deleted), "−");
    assert_eq!(change_mark(FileChangeKind::Modified), "~");
    let run = CommitRun { terminal_id: String::new(), kind: RunKind::Push, exit_code: Some(0), last_ask: None };
    assert!(run.worked());
    assert!(!CommitRun { exit_code: Some(2), ..run }.worked());
}

#[test]
fn the_staged_count_is_known_once_git_has_been_asked() {
    assert_eq!(CommitPane::new().staged_count_for_test(), None);
    assert_eq!(pane_on(Some("main"), 3).staged_count_for_test(), Some(3));
}

/// A card moved to the column that finishes a task stops offering what it asked for: the line
/// names the branch the repo is on and would fill the box from any other column.
#[test]
fn a_task_that_has_been_finished_keeps_its_message_out_of_the_box() {
    let repo = "/repo".to_string();
    let mut asking = vec![request("/repo", Some("ship-it"), Some(("feat: ship it", "")))];

    let mut open = pane_on(Some("ship-it"), 0);
    open.fill_in_the_requested_commit(&asking, &repo);
    assert_eq!(open.message, "feat: ship it", "while the task is open its line fills the box");

    asking[0].task_finished = true;
    let mut finished = pane_on(Some("ship-it"), 0);
    assert_eq!(finished.requested_review_of(&asking, &repo), None);
    assert_eq!(finished.requested_commit_of(&asking, &repo), None);
    finished.fill_in_the_requested_commit(&asking, &repo);
    assert_eq!(finished.message, "", "a finished task should not put its message in the box");
}

/// A line about a branch this repo is not on keeps its message to itself: the box stays empty,
/// and the header still names the line, which says whose message it was.
#[test]
fn a_commit_asked_for_on_another_branch_stays_out_of_the_box() {
    let repo = "/repo".to_string();
    let asking = vec![request("/repo", Some("ship-it"), Some(("feat: ship it", "")))];
    let mut pane = pane_on(Some("the-next-thing"), 0);
    assert_eq!(pane.requested_review_of(&asking, &repo), Some(0), "the header names it");
    assert_eq!(pane.requested_commit_of(&asking, &repo), None);
    pane.fill_in_the_requested_commit(&asking, &repo);
    assert_eq!(pane.message, "", "a commit written for another branch should not be put in this one's box");
}

/// A line crossed off is finished with, and its message is not offered again.
#[test]
fn a_line_crossed_off_keeps_its_message_out_of_the_box() {
    let repo = "/repo".to_string();
    let mut asking = vec![request("/repo", Some("ship-it"), Some(("feat: ship it", "")))];
    asking[0].done = true;
    let mut pane = pane_on(Some("ship-it"), 0);
    assert_eq!(pane.requested_commit_of(&asking, &repo), None);
    pane.fill_in_the_requested_commit(&asking, &repo);
    assert_eq!(pane.message, "", "a line crossed off should not put its message in the box");
}
