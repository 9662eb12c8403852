use moon_native::blame::{commit_of, hash_of, hover_hint, version_before, BlameBefore, BlameChunk, Blamed, BlamedCommit, LineRange, StepBack};
use moon_native::board::start::{available_agents, offers, AgentOption, StartAction};
use moon_native::definition::{first_question, land, server_answer, AsksAbout, LandAction, Landing, LspLocation, Lookup};
use moon_native::definition_ranking::ContentMatch;
use moon_native::file_pane::{BlameOf, BlameStep, FileEditor};
use moon_native::hunks::{hunk_shortcut, HunkAct};
use moon_native::model::{ColumnId, TaskView};
use moon_native::window::{closes_when_empty, path_to_open, quit_would_kill_shells, window_title, Quit};

fn chunk(before: Option<(&str, &str)>, committed: bool) -> BlameChunk {
    BlameChunk {
        lines: LineRange { start: 4, end: 9 },
        blamed: if committed {
            Blamed::Committed(BlamedCommit {
                sha: "89abcdef0123".to_string(),
                author: "Ada".to_string(),
                authored_on: "2024-01-02".to_string(),
                summary: "Add it".to_string(),
            })
        } else {
            Blamed::NotYetCommitted
        },
        before: before.map(|(file_path, sha)| BlameBefore { file_path: file_path.to_string(), sha: sha.to_string() }),
        line_in_commit: 12,
    }
}

#[test]
fn a_step_back_opens_the_version_before_or_says_there_is_none() {
    assert_eq!(
        version_before(&chunk(Some(("src/old.rs", "fedcba9")), true)),
        StepBack::To { file_path: "src/old.rs".to_string(), revision: "fedcba9".to_string(), line: 12 }
    );
    assert_eq!(
        version_before(&chunk(None, true)),
        StepBack::Refused("89abcde brought the file in - there is no version before it".to_string())
    );
    assert_eq!(
        version_before(&chunk(None, false)),
        StepBack::Refused("no commit has this file yet - there is no version before it".to_string())
    );
    assert_eq!(commit_of(&chunk(None, true)).as_deref(), Some("89abcdef0123"));
    assert_eq!(commit_of(&chunk(None, false)), None);
    assert_eq!(
        hover_hint(&chunk(None, false)),
        "Click the words for the review on the local changes. No commit has this file yet"
    );
    assert_eq!(
        hover_hint(&chunk(Some(("a", "b")), true)),
        "Click the hash for the review on this commit, elsewhere for the file as it was before it"
    );
}

fn loaded(file_path: &str, text: &str) -> FileEditor {
    let mut editor = FileEditor::loading(file_path.to_string(), true);
    editor.saved = Some(text.to_string());
    editor.text = text.to_string();
    editor
}

#[test]
fn a_tab_blames_its_text_once_the_typing_has_stopped_and_says_when_it_cannot() {
    let mut editor = loaded("src/lib.rs", "fn main() {}");
    assert!(editor.blames());
    assert!(matches!(editor.follow_blame(0), BlameStep::NotDue), "the column is down");
    assert_eq!(editor.toggle_blame(), None);
    let text_hash = match editor.follow_blame(0) {
        BlameStep::Ask { text_hash, of: BlameOf::Text(text) } => {
            assert_eq!(text, "fn main() {}");
            assert_eq!(text_hash, hash_of("fn main() {}"), "the hash asked under is the text's");
            assert_ne!(text_hash, hash_of("fn main() { }"));
            text_hash
        }
        other => panic!("expected a blame to be asked for, got {other:?}"),
    };
    assert!(matches!(editor.follow_blame(10), BlameStep::NotDue), "not within the interval");
    assert!(matches!(editor.follow_blame(1_000), BlameStep::Checked { .. }), "not while one is out");
    assert_eq!(editor.blame_answered(text_hash, Ok(Vec::new())), None);
    assert!(matches!(editor.follow_blame(2_000), BlameStep::Checked { .. }), "what is shown is of this text");

    assert_eq!(
        editor.blame_answered(text_hash, Err("git exited 128".to_string())).as_deref(),
        Some("could not blame src/lib.rs: git exited 128")
    );
    assert!(!editor.blaming.is_on(), "a blame that failed takes the column down");

    let mut outside = loaded("/rust/lib/std.rs", "");
    outside.outside_the_repo = true;
    assert!(!outside.blames());
    assert_eq!(
        outside.toggle_blame().as_deref(),
        Some("/rust/lib/std.rs is outside the repo, and has no history here to blame")
    );

    let mut old = FileEditor::at_revision("src/lib.rs".to_string(), "abc".to_string());
    old.saved = Some("old text".to_string());
    assert!(matches!(old.follow_blame(0), BlameStep::Ask { of: BlameOf::Revision(revision), .. } if revision == "abc"));
}

#[test]
fn code_actions_say_why_they_cannot_be_asked_for() {
    let mut editor = loaded("src/lib.rs", "");
    assert_eq!(editor.code_actions_refused(true, true).as_deref(), Some("code actions are already being asked for"));
    assert_eq!(
        editor.code_actions_refused(false, true).as_deref(),
        Some("no language server serves src/lib.rs, so it has no code actions")
    );
    editor.has_a_server = true;
    assert_eq!(editor.code_actions_refused(false, false).as_deref(), Some("put the caret on the code first"));
    assert_eq!(editor.code_actions_refused(false, true), None);
    editor.outside_the_repo = true;
    assert_eq!(
        editor.code_actions_refused(false, true).as_deref(),
        Some("src/lib.rs is outside the repo, and can only be read")
    );
}

#[test]
fn the_first_close_of_a_tab_with_edits_is_held_back() {
    let mut editor = loaded("src/lib.rs", "one");
    assert_eq!(editor.close_would_lose_edits(), None, "nothing to lose");
    editor.text = "two".to_string();
    assert_eq!(
        editor.close_would_lose_edits().as_deref(),
        Some("src/lib.rs has unsaved edits - close again to discard them")
    );
    assert_eq!(editor.close_would_lose_edits(), None, "the second close goes through");
}

#[test]
fn a_lookup_asks_the_server_when_there_is_one_ready() {
    assert_eq!(first_question(false, AsksAbout::Server), Lookup::Search);
    assert_eq!(first_question(true, AsksAbout::Wait), Lookup::Indexing);
    assert_eq!(first_question(true, AsksAbout::Server), Lookup::AskServer);
    assert_eq!(first_question(true, AsksAbout::Elsewhere), Lookup::Search);

    let one = vec![LspLocation { file_path: "src/lib.rs".to_string(), line_number: 3 }];
    assert_eq!(server_answer(Some(one)).map(|places| places.len()), Some(1));
    assert!(server_answer(Some(Vec::new())).is_none(), "nowhere is no answer");
    assert!(server_answer(None).is_none());
}

#[test]
fn a_lookup_lands_in_a_file_in_the_palette_or_says_it_found_nothing() {
    assert!(matches!(land("greet".to_string(), Landing::Nowhere), LandAction::Say(said) if said == "nothing in the repo holds greet"));
    let found = ContentMatch { file_path: "src/lib.rs".to_string(), line_number: 7, line: "fn greet()".to_string() };
    assert!(matches!(
        land("greet".to_string(), Landing::Straight(found)),
        LandAction::OpenFile { file_path, line: 7, query } if file_path == "src/lib.rs" && query == "greet"
    ));
    assert!(matches!(land("greet".to_string(), Landing::Offer(Vec::new())), LandAction::Offer { word, candidates } if word == "greet" && candidates.is_empty()));
}

fn task() -> TaskView {
    TaskView {
        id: "parser-1111".to_string(),
        title: "Write the parser".to_string(),
        status: ColumnId::new("todo"),
        created_at_unix: 1700000000,
        dir_path: "/repo/.moontasks/parser-1111".to_string(),
        repo_path: "/repo".to_string(),
        notes: String::new(),
        tags: std::sync::Arc::new(Vec::new()),
    }
}

#[test]
fn a_task_offers_its_review_a_shell_and_a_file_and_then_what_its_agents_can_do() {
    let options = vec![
        AgentOption { label: None, available: true },
        AgentOption { label: Some("Codex".to_string()), available: true },
        AgentOption { label: Some("Gemini".to_string()), available: false },
        AgentOption { label: Some("OpenCode".to_string()), available: true },
    ];
    let agents = available_agents(&options);
    assert_eq!(agents, [None, Some("Codex".to_string()), Some("OpenCode".to_string())]);

    let groups = offers(&agents, &task());
    let labels: Vec<Vec<&str>> = groups.iter().map(|group| group.iter().map(|offer| offer.label.as_str()).collect()).collect();
    assert_eq!(labels, vec![vec!["review", "shell", "file…"], vec!["codex", "opencode"], vec!["explain"], vec!["attach a session…"]]);
    assert_eq!(groups[1][0].action, StartAction::StartAgent { task_id: "parser-1111".to_string(), agent: "Codex".to_string() });
    assert_eq!(groups[0][0].action, StartAction::OpenReview { repo_path: "/repo".to_string(), title: "Write the parser".to_string() });
    assert_eq!(groups[0][1].hover, Some("Open a shell in the task"));

    let alone = offers(&available_agents(&Vec::new()), &task());
    assert_eq!(alone.len(), 1, "with no agents there is nothing to explain or attach");
}

#[test]
fn the_title_bar_names_the_program_and_the_project_from_home() {
    assert_eq!(window_title("moonreview", None, Some("/home/ada")), "🌚 moonreview");
    assert_eq!(
        window_title("moonreview", Some("/home/ada/code/moon"), Some("/home/ada")),
        "🌚 moonreview | ~/code/moon"
    );
    assert_eq!(
        window_title("moonreview", Some("/srv/moon"), Some("/home/ada")),
        "🌚 moonreview | /srv/moon"
    );
    assert_eq!(window_title("moonreview", Some("/srv/moon"), Some("")), "🌚 moonreview | /srv/moon");
}

#[test]
fn a_quit_with_shells_running_is_held_back_once() {
    assert_eq!(quit_would_kill_shells(false, 3, None, 0, 4000), Quit::Go);
    assert_eq!(quit_would_kill_shells(true, 0, None, 0, 4000), Quit::Go);
    assert_eq!(
        quit_would_kill_shells(true, 1, None, 100, 4000),
        Quit::Warn { said: "a shell is still running - quit again to close it".to_string(), armed_until: 4100 }
    );
    assert_eq!(quit_would_kill_shells(true, 2, Some(4100), 200, 4000), Quit::Go, "the second quit goes through");
    assert_eq!(
        quit_would_kill_shells(true, 2, Some(4100), 9000, 4000),
        Quit::Warn { said: "2 shells are still running - quit again to close them".to_string(), armed_until: 13000 }
    );
}

#[test]
fn a_staging_key_moves_a_hunk_only_where_it_is_not() {
    assert_eq!(hunk_shortcut(false, false, true), Some(HunkAct::Stage));
    assert_eq!(hunk_shortcut(false, true, false), Some(HunkAct::Unstage));
    assert_eq!(hunk_shortcut(false, true, true), None);
    assert_eq!(hunk_shortcut(true, false, true), None, "a review that cannot be staged in");
}

#[test]
fn a_lookup_that_came_back_waits_for_a_frame_that_can_open_a_pane() {
    let mut editor = loaded("src/lib.rs", "greet();");
    assert!(editor.looking_up.is_none(), "a tab opens with no lookup in flight");
    assert!(editor.follow_lookup(false).is_none());

    editor.lookup_answered("greet".to_string(), Landing::Nowhere);
    assert!(editor.follow_lookup(true).is_none(), "something else is opening this frame");
    assert!(editor.looking_up.is_some(), "so the answer keeps");
    match editor.follow_lookup(false) {
        Some(LandAction::Say(said)) => assert_eq!(said, "nothing in the repo holds greet"),
        other => panic!("expected it to be said, got {other:?}"),
    }
    assert!(editor.looking_up.is_none(), "and it is acted on once");
}

#[test]
fn the_first_screen_opens_a_recent_project_or_the_trimmed_path_typed() {
    assert_eq!(path_to_open("  /home/ada/moon ", true, false, None).as_deref(), Some("/home/ada/moon"));
    assert_eq!(path_to_open("/home/ada/moon", false, true, None).as_deref(), Some("/home/ada/moon"), "Enter opens it too");
    assert_eq!(path_to_open("/home/ada/moon", false, false, None), None, "nothing asked for");
    assert_eq!(path_to_open("   ", true, true, None), None, "never an empty path");
    assert_eq!(path_to_open("", false, false, Some("/srv/moon".to_string())).as_deref(), Some("/srv/moon"));
}

#[test]
fn closing_the_last_tab_closes_the_window() {
    let mut had_panes = false;
    assert!(!closes_when_empty(&mut had_panes, true), "a window that opens empty stays");
    assert!(!closes_when_empty(&mut had_panes, false));
    assert!(had_panes);
    assert!(closes_when_empty(&mut had_panes, true), "the last tab gone, the window goes");
}

#[test]
fn a_review_lets_go_of_an_active_hunk_the_new_diff_does_not_have() {
    let ids = vec!["h1".to_string(), "h2".to_string()];
    assert_eq!(moon_native::polling::active_hunk_after(Some("h2".to_string()), &ids).as_deref(), Some("h2"));
    assert_eq!(moon_native::polling::active_hunk_after(Some("h9".to_string()), &ids), None);
    assert_eq!(moon_native::polling::active_hunk_after(None, &ids), None);
}
