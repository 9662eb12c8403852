use moon_native::code_actions::{
    after_ask, answered, ask_step, follow, offered, pick, start, AskStep, CanAnswer, CodeActing,
    FollowStep, Heard,
};
use moon_native::blame::{
    hash_of, link_of, note_of, what_a_click_asks, BlameBefore, BlameChunk, Blamed, BlamedCommit, Blaming,
    ClickAsks, Ink, LineRange, NoteClick, CHECK_INTERVAL_MS,
};
use moon_native::definition::{landing_of, landing_of_locations, row_of, Landing, LspLocation};
use moon_native::definition_ranking::{defines, keywords_of, rank, ContentMatch, SPELLED_THE_SAME};
use moon_native::diagnostics::{
    range_in, said_in_header, underlines, Diagnosed, LspDiagnostic, LspPosition, LspSeverity,
    ASKED_EVERY_MS,
};
use moon_native::extension_pane::{script_keys, ExtensionPane, ScriptEvent};
use moon_native::file_pane::{is_markdown, FileEditor};
use moon_native::input::Modifiers;
use moon_native::paths::{extension, file_name_of, path_inside_folder, path_inside_repo};

fn found(file_path: &str, line: &str) -> ContentMatch {
    ContentMatch { file_path: file_path.to_string(), line_number: 1, line: line.to_string() }
}

fn at(file_path: &str, line_number: usize) -> LspLocation {
    LspLocation { file_path: file_path.to_string(), line_number }
}

/// The whole point of the ranking: the line that declares the name comes before the two
/// hundred lines that call it.
#[test]
fn a_line_that_declares_the_name_beats_a_line_that_calls_it() {
    let ranked = rank(
        "greet",
        vec![found("src/main.rs", "greet(name);"), found("src/lib.rs", "pub fn greet(name: &str) -> String {")],
    );

    assert_eq!(ranked[0].found.file_path, "src/lib.rs");
    assert!(ranked[0].score > ranked[1].score);
}

/// A hit is read in the language of the file it is in, not of the file that was clicked.
#[test]
fn a_hit_is_read_in_the_language_of_the_file_it_is_in() {
    assert!(defines("Session", &found("src/api.ts", "interface Session {")));
    assert!(!defines("Session", &found("src/api.rs", "interface Session {")));
    assert!(defines("Session", &found("src/api.rs", "pub struct Session {")));
    assert!(!defines("Session", &found("src/api.ts", "pub struct Session {")));
}

/// The search ignores case, so both spellings come back; the one spelled the way it was
/// clicked is the likelier answer.
#[test]
fn a_hit_spelled_the_way_it_was_clicked_beats_one_that_only_matches_ignoring_case() {
    let ranked = rank("Config", vec![found("src/one.rs", "let config = load();"), found("src/two.rs", "let Config = load();")]);

    assert_eq!(ranked[0].found.file_path, "src/two.rs");
    assert!(ranked[0].score > ranked[1].score);
}

/// A file in a language with no table still has its hits offered.
#[test]
fn a_hit_in_a_file_of_an_unknown_language_still_comes_back() {
    let ranked = rank("widget", vec![found("notes/design.txt", "the widget is drawn last")]);

    assert_eq!(ranked.len(), 1);
    assert_eq!(ranked[0].score, SPELLED_THE_SAME);
}

/// A name that only starts another name is not a definition of it.
#[test]
fn a_longer_name_that_starts_with_the_word_is_not_a_definition_of_it() {
    assert!(!defines("greet", &found("src/lib.rs", "fn greeting() {}")));
    assert!(defines("greet", &found("src/lib.rs", "fn greet() {}")));
}

#[test]
fn a_file_is_read_by_the_keywords_of_its_language() {
    assert!(keywords_of("src/lib.rs").iter().any(|word| word == "fn "));
    assert!(keywords_of("web/app.ts").iter().any(|word| word == "interface "));
    assert!(keywords_of("README").is_empty());
}

/// One definition and nothing else near it is a jump; anything less is a question.
#[test]
fn one_clear_definition_opens_and_anything_less_is_offered() {
    let one = rank("greet", vec![found("src/main.rs", "greet(name);"), found("src/lib.rs", "pub fn greet(name: &str) -> String {")]);
    assert!(matches!(landing_of(one), Landing::Straight(found) if found.file_path == "src/lib.rs"));

    let two = rank("greet", vec![found("src/one.rs", "pub fn greet() {}"), found("src/two.rs", "pub fn greet() {}")]);
    assert!(matches!(landing_of(two), Landing::Offer(candidates) if candidates.len() == 2));

    let none = rank("greet", vec![found("src/main.rs", "greet(name);")]);
    assert!(matches!(landing_of(none), Landing::Offer(candidates) if candidates.len() == 1));

    assert!(matches!(landing_of(rank("greet", Vec::new())), Landing::Nowhere));
}

/// A server that answered is taken at its word: one place is a jump, several are offered.
#[test]
fn one_place_from_the_server_is_a_jump_and_several_are_offered() {
    let one = landing_of_locations(vec![at("src/lib.rs", 12)]);
    assert!(matches!(one, Landing::Straight(found) if found.file_path == "src/lib.rs" && found.line_number == 12));

    let two = landing_of_locations(vec![at("src/one.rs", 3), at("src/two.rs", 4)]);
    assert!(matches!(two, Landing::Offer(candidates) if candidates.len() == 2));
}

/// The server names a file and a line and no text at all, so the row is read by the file's
/// name with the path underneath saying which one it is.
#[test]
fn a_place_the_server_named_reads_as_the_file_and_the_line() {
    let row = row_of(at("src/native/definition.rs", 120));

    assert_eq!(row.line, "definition.rs:120");
    assert_eq!(row.file_path, "src/native/definition.rs");
    assert_eq!(row.line_number, 120);
}

fn committed(start: usize, end: usize) -> BlameChunk {
    BlameChunk {
        lines: LineRange { start, end },
        blamed: Blamed::Committed(BlamedCommit {
            sha: "0123456789abcdef0123456789abcdef01234567".to_string(),
            author: "Ada Lovelace".to_string(),
            authored_on: "2024-01-02".to_string(),
            summary: "Add the library".to_string(),
        }),
        before: None,
        line_in_commit: 1,
    }
}

fn not_committed(start: usize, end: usize) -> BlameChunk {
    BlameChunk { lines: LineRange { start, end }, blamed: Blamed::NotYetCommitted, before: None, line_in_commit: 1 }
}

const GREEN: Ink = Ink { r: 0, g: 255, b: 0, a: 255 };
const RED: Ink = Ink { r: 255, g: 0, b: 0, a: 255 };

/// The hash is the first seven characters of the title row; anything else on the stretch steps
/// back. On a stretch nothing has committed the words are the link, since there is no hash.
#[test]
fn a_click_on_the_hash_asks_for_the_commit_and_anywhere_else_for_the_version_before() {
    let click = |row, column| NoteClick { note: 0, row, column };
    let chunk = committed(0, 3);
    assert_eq!(what_a_click_asks(&chunk, click(0, 0)), ClickAsks::TheCommit);
    assert_eq!(what_a_click_asks(&chunk, click(0, 6)), ClickAsks::TheCommit);
    assert_eq!(what_a_click_asks(&chunk, click(0, 7)), ClickAsks::TheVersionBefore);
    assert_eq!(what_a_click_asks(&chunk, click(0, 20)), ClickAsks::TheVersionBefore);
    assert_eq!(what_a_click_asks(&chunk, click(1, 0)), ClickAsks::TheVersionBefore);
    assert_eq!(what_a_click_asks(&chunk, click(5, 3)), ClickAsks::TheVersionBefore);
    assert_eq!(note_of(&chunk, GREEN).link, Some(LineRange { start: 0, end: 7 }));

    let typed = not_committed(0, 1);
    assert_eq!(what_a_click_asks(&typed, click(0, 16)), ClickAsks::TheCommit);
    assert_eq!(what_a_click_asks(&typed, click(0, 17)), ClickAsks::TheVersionBefore);
    assert_eq!(note_of(&typed, GREEN).link, Some(LineRange { start: 0, end: 17 }));
    assert_eq!(link_of(&typed), LineRange { start: 0, end: 17 });
}

#[test]
fn a_note_reads_the_short_sha_the_day_and_the_author_over_the_summary() {
    let note = note_of(&committed(3, 7), GREEN);
    assert_eq!(note.lines, LineRange { start: 3, end: 7 });
    assert_eq!(note.title, "0123456 2024-01-02 Ada Lovelace");
    assert_eq!(note.detail, "Add the library");
    assert_eq!(note.ink, None);

    let note = note_of(&not_committed(0, 1), GREEN);
    assert_eq!(note.title, "not committed yet");
    assert_eq!(note.detail, "");
    assert_eq!(note.ink, Some(GREEN));
}

/// A column just put up asks at once; after that it asks only once the text has held still
/// for a check and is not what is shown, and never while an ask is out.
#[test]
fn a_blame_is_asked_for_at_once_and_then_only_once_the_typing_has_stopped() {
    let now = 1_000_000;
    let mut blaming = Blaming::new();
    assert!(!blaming.wants_to_ask(1, now), "a column that is down asks nothing");

    blaming.toggle();
    assert!(blaming.wants_to_ask(1, now), "an empty column is asked at once");
    blaming.start_asking();
    assert!(!blaming.wants_to_ask(1, now), "not while an ask is out");
    blaming.answered(1, vec![committed(0, 1)]);
    assert!(!blaming.wants_to_ask(1, now), "what is shown is of this text");

    assert!(!blaming.wants_to_ask(2, now), "the text has only just changed");
    assert!(!blaming.wants_to_ask(3, now), "and changed again");
    assert!(blaming.wants_to_ask(3, now), "held still for a check: ask");

    blaming.toggle();
    assert!(!blaming.is_on());
    assert!(blaming.chunks_shown().is_none(), "taken down, nothing is kept");
}

#[test]
fn a_check_comes_round_once_an_interval() {
    let now = 1_000_000;
    let mut blaming = Blaming::new();
    blaming.toggle();
    assert!(blaming.check_is_due(now));
    blaming.wants_to_ask(1, now);
    assert!(!blaming.check_is_due(now + 500));
    assert!(blaming.check_is_due(now + CHECK_INTERVAL_MS));
}

/// The notes are built once per answer, and again when the theme changes the ink the
/// uncommitted ones are drawn in.
#[test]
fn notes_are_kept_between_frames_and_rebuilt_for_a_new_ink() {
    let mut blaming = Blaming::new();
    blaming.toggle();
    blaming.wants_to_ask(1, 1_000);
    blaming.answered(1, vec![committed(0, 2), not_committed(2, 3)]);

    let notes = blaming.notes(GREEN);
    assert_eq!(notes.len(), 2);
    assert_eq!(notes[1].ink, Some(GREEN));

    assert_eq!(blaming.notes(RED)[1].ink, Some(RED));
    assert_eq!(blaming.chunk(1), Some(&not_committed(2, 3)));
    assert_eq!(blaming.chunk(2), None);
}

#[test]
fn a_blame_that_failed_is_taken_down() {
    let mut blaming = Blaming::new();
    blaming.toggle();
    blaming.start_asking();
    blaming.failed();
    assert!(!blaming.is_on());
    assert!(!blaming.wants_to_ask(1, 0));
    let before = BlameChunk { before: Some(BlameBefore { file_path: "a.rs".to_string(), sha: "abc".to_string() }), ..committed(0, 1) };
    assert_eq!(what_a_click_asks(&before, NoteClick { note: 0, row: 0, column: 3 }), ClickAsks::TheCommit);
    assert_eq!(hash_of("same text"), hash_of("same text"));
}

fn diagnostic(line: usize, start: usize, end: usize, severity: LspSeverity) -> LspDiagnostic {
    LspDiagnostic {
        start: LspPosition { line, column: start },
        end: LspPosition { line, column: end },
        severity,
        message: "wrong".to_string(),
        source: None,
    }
}

/// A diagnostic about a point is widened to a character so there is a line to draw, and
/// one that no longer fits the text is not drawn anywhere. Places here are on the first line,
/// so a column is the offset into the text.
#[test]
fn a_point_is_widened_to_a_character_and_what_does_not_fit_is_left_out() {
    let text = "let x = 1\nlet y\n";
    assert_eq!(range_in(text, Some(4), Some(5)), Some((4, 5)));
    assert_eq!(range_in(text, Some(4), Some(4)), Some((4, 5)));
    // At the end of a line, the character before it.
    assert_eq!(range_in(text, Some(9), Some(9)), Some((8, 9)));
    // A line the text does not have: no place for it.
    assert_eq!(range_in(text, None, None), None);
    assert_eq!(range_in(text, Some(4), None), None);
    assert_eq!(range_in("\n\n", Some(1), Some(1)), None, "between two line ends there is nothing to underline");
}

/// The tooltip says the worst first, and the header counts errors and warnings only.
#[test]
fn the_worst_is_said_first_and_only_errors_and_warnings_are_counted() {
    let text = "let x = 1\n";
    let found = vec![
        diagnostic(0, 4, 5, LspSeverity::Hint),
        diagnostic(0, 4, 5, LspSeverity::Error),
        diagnostic(0, 8, 9, LspSeverity::Warning),
        diagnostic(0, 0, 3, LspSeverity::Warning),
    ];
    let stretches: Vec<Option<(usize, usize)>> = found
        .iter()
        .map(|d| range_in(text, Some(d.start.column), Some(d.end.column)))
        .collect();
    let here: Vec<LspSeverity> = moon_native::diagnostics::at(&found, &stretches, 4).into_iter().map(|k| found[k].severity).collect();
    assert_eq!(here, [LspSeverity::Error, LspSeverity::Hint]);
    assert_eq!(said_in_header(&found), Some(("1 error · 2 warnings".to_string(), LspSeverity::Error)));
    assert_eq!(said_in_header(&vec![diagnostic(0, 4, 5, LspSeverity::Hint)]), None);
}

#[test]
fn the_worst_is_underlined_last_and_what_does_not_fit_not_at_all() {
    let found = vec![
        diagnostic(0, 0, 1, LspSeverity::Error),
        diagnostic(0, 0, 1, LspSeverity::Hint),
        diagnostic(0, 0, 1, LspSeverity::Warning),
        diagnostic(0, 0, 1, LspSeverity::Hint),
    ];
    let stretches = vec![Some((0, 1)), Some((0, 1)), None, Some((2, 3))];
    assert_eq!(underlines(&found, &stretches), [1, 3, 0]);
}

/// The header counts errors and warnings only, and names the worst.
#[test]
fn the_header_counts_errors_and_warnings_only() {
    let found = vec![
        diagnostic(0, 4, 5, LspSeverity::Hint),
        diagnostic(0, 4, 5, LspSeverity::Error),
        diagnostic(0, 8, 9, LspSeverity::Warning),
        diagnostic(0, 0, 3, LspSeverity::Warning),
    ];
    assert_eq!(said_in_header(&found), Some(("1 error · 2 warnings".to_string(), LspSeverity::Error)));
    assert_eq!(said_in_header(&vec![diagnostic(0, 4, 5, LspSeverity::Warning)]), Some(("1 warning".to_string(), LspSeverity::Warning)));
    assert_eq!(said_in_header(&vec![diagnostic(0, 4, 5, LspSeverity::Hint)]), None);
}

/// A tab asks again once the last answer has been in a while, never twice at once, and a
/// question that could not be answered leaves what was found.
#[test]
fn a_tab_asks_again_once_the_last_answer_has_been_in_a_while() {
    let start = 1_000_000;
    let mut diagnosed = Diagnosed::new();
    assert!(diagnosed.due(start));
    assert!(!diagnosed.due(start), "one question at a time");
    diagnosed.answered(Some(vec![diagnostic(0, 0, 1, LspSeverity::Error)]), start);
    assert!(!diagnosed.due(start + ASKED_EVERY_MS / 2));
    assert!(diagnosed.due(start + ASKED_EVERY_MS));
    diagnosed.answered(None, start + ASKED_EVERY_MS);
    assert_eq!(diagnosed.found().len(), 1, "a failed question is not a fix");
}

fn editor_with(saved: &str, edited: &str) -> FileEditor {
    let mut editor = FileEditor::loading("src/lib.rs".to_string(), false);
    editor.saved = Some(saved.to_string());
    editor.text = edited.to_string();
    editor
}

#[test]
fn a_file_is_dirty_only_once_it_differs_from_what_was_saved() {
    assert!(!editor_with("fn one() {}", "fn one() {}").is_dirty());
    assert!(editor_with("fn one() {}", "fn two() {}").is_dirty());
    // Nothing has arrived yet, so there is nothing to have changed.
    assert!(!FileEditor::loading("src/lib.rs".to_string(), false).is_dirty());
}

/// Markdown opens on the rendered page; everything else opens on the text.
#[test]
fn only_markdown_opens_on_the_rendered_page() {
    assert!(is_markdown("notes.md"));
    assert!(is_markdown(".moontasks/fix-login-1234/NOTES.MD"));
    assert!(!is_markdown("src/lib.rs"));
    assert!(!is_markdown("md"));
    assert!(!is_markdown("README"));

    assert!(FileEditor::loading("Moontasks.md".to_string(), false).preview);
    assert!(!FileEditor::loading("src/lib.rs".to_string(), false).preview);
}

#[test]
fn a_tab_on_an_old_version_or_a_new_file_opens_on_its_text() {
    let old = FileEditor::at_revision("NOTES.md".to_string(), "abc123".to_string());
    assert!(!old.preview && old.blaming.is_on());
    assert_eq!(old.revision(), Some("abc123"));
    assert!(old.is_read_only());

    let mut new = FileEditor::new_file("NOTES.md".to_string(), true);
    assert!(!new.preview && !new.on_disk && new.is_loaded() && !new.is_dirty());
    assert!(!new.is_read_only());
    new.has_a_server = true;
    assert!(new.offers_edits() && new.offers_places());
    new.outside_the_repo = true;
    assert!(!new.offers_edits() && new.offers_places(), "a dependency's source can be read, not edited");
    new.ask_to_format(42);
    assert_eq!(new.asked_to_format(), Some(42));
    new.stop_asking_to_format();
    assert_eq!(new.asked_to_format(), None);
    assert_eq!(new.text(), "");
}

#[test]
fn an_extension_hears_the_keys_that_type_nothing_by_name_and_the_text_by_character() {
    let shift = Modifiers::shift();
    let events = vec![
        ScriptEvent::Text("ab".to_string()),
        ScriptEvent::Key { name: "Tab".to_string(), pressed: true, modifiers: shift },
        ScriptEvent::Key { name: "Enter".to_string(), pressed: true, modifiers: Modifiers::none() },
        ScriptEvent::Key { name: "Enter".to_string(), pressed: false, modifiers: Modifiers::none() },
        ScriptEvent::Key { name: "A".to_string(), pressed: true, modifiers: Modifiers::none() },
        ScriptEvent::Key { name: "Up".to_string(), pressed: true, modifiers: Modifiers::command() },
        ScriptEvent::Other,
    ];
    let (keys, kept) = script_keys(&events, false);
    assert_eq!(keys, ["a", "b", "Shift+Tab", "Enter"]);
    assert_eq!(kept, [false, false, false, true, true, true, true]);

    let (keys, kept) = script_keys(&vec![ScriptEvent::Text("ø".to_string())], true);
    assert!(keys.is_empty(), "a character typed with a chord held is the window's");
    assert_eq!(kept, [true]);
}

#[test]
fn an_extension_pane_scrolls_only_when_the_selection_moves() {
    let mut pane = ExtensionPane::started();
    assert_eq!(pane.scroll_to(Some(3)), Some(3));
    assert_eq!(pane.scroll_to(Some(3)), None);
    assert_eq!(pane.scroll_to(None), None);
    assert_eq!(pane.scroll_to(Some(3)), Some(3));
    assert!(!pane.set_visible(true));
    assert!(pane.set_visible(false));
    pane.loaded(true);
    assert!(pane.takes_keys);
    pane.drawn(Some("line 3: oops".to_string()));
    assert_eq!(pane.error.as_deref(), Some("line 3: oops"));

    let failed = ExtensionPane::failed("there is no extension called nope".to_string());
    assert!(!failed.running && failed.visible && !failed.takes_keys);
    assert_eq!(failed.error.as_deref(), Some("there is no extension called nope"));
}

/// A path from its parts, joined the way this platform joins them.
fn joined(parts: &[&str]) -> String {
    parts.join(&std::path::MAIN_SEPARATOR.to_string())
}

#[test]
fn a_file_in_the_repo_is_named_by_its_path_inside_it() {
    let repo = joined(&["", "home", "ada", "repo"]);
    let file = joined(&["", "home", "ada", "repo", "src", "main.rs"]);
    assert_eq!(
        path_inside_repo(&repo, &file).as_deref(),
        Some(format!("src{}main.rs", std::path::MAIN_SEPARATOR).as_str())
    );
    assert_eq!(path_inside_repo(&repo, &repo).as_deref(), Some(""));
}

#[test]
fn a_file_outside_the_repo_has_no_name_to_be_opened_under() {
    let repo = joined(&["", "home", "ada", "repo"]);
    assert_eq!(path_inside_repo(&repo, &joined(&["", "home", "ada", "elsewhere", "notes.txt"])), None);
    assert_eq!(
        path_inside_repo(&repo, &joined(&["", "home", "ada", "repository", "notes.txt"])),
        None,
        "a longer name is another folder"
    );
    assert_eq!(path_inside_repo(&repo, &joined(&["", "home", "ada"])), None);
}

#[test]
fn a_path_is_split_at_the_separator_of_its_platform() {
    assert_eq!(path_inside_folder("/home/ada/repo", "/home/ada/repo/src/main.rs", '/').as_deref(), Some("src/main.rs"));
    assert_eq!(path_inside_folder("/", "/etc/hosts", '/').as_deref(), Some("etc/hosts"));
    assert_eq!(path_inside_folder("C:\\repo", "C:\\repo\\src\\main.rs", '\\').as_deref(), Some("src\\main.rs"));
    assert_eq!(path_inside_folder("C:\\", "C:\\repo\\notes.txt", '\\').as_deref(), Some("repo\\notes.txt"));
    assert_eq!(path_inside_folder("C:\\repo", "C:\\repository\\notes.txt", '\\'), None);
    assert_eq!(path_inside_folder("C:\\repo", "C:\\repo\\src\\main.rs", '/'), None, "a backslash is no separator where paths are split at /");
}

#[test]
fn a_path_is_named_by_its_last_part_and_its_extension_by_what_follows_the_dot() {
    assert_eq!(file_name_of("src/native/definition.rs"), "definition.rs");
    assert_eq!(file_name_of("README"), "README");
    assert_eq!(extension("src/lib.rs").as_deref(), Some("rs"));
    assert_eq!(extension(".gitignore"), None);
    assert_eq!(extension("archive.tar.gz").as_deref(), Some("gz"));
    assert_eq!(extension("notes.md/").as_deref(), Some("md"));
    assert_eq!(extension("dir/.."), None);
}

type Acting = Option<CodeActing<Vec<(String, String)>, String>>;

fn choosing(actions: &[&str]) -> Acting {
    Some(CodeActing::Choosing {
        session_id: "s".to_string(),
        told: vec![("a.rs".to_string(), "fn a() {}".to_string())],
        actions: actions.iter().map(|a| a.to_string()).collect(),
    })
}

#[test]
fn a_question_waits_for_its_text_to_reach_the_server_and_then_gives_up() {
    assert_eq!(ask_step(CanAnswer::NotThisText, 100, 3000, true, None, "a.rs"), AskStep::Wait);
    assert_eq!(
        ask_step(CanAnswer::NotThisText, 3000, 3000, true, None, "a.rs"),
        AskStep::NotHeard("a.rs".to_string())
    );
    assert_eq!(
        ask_step(CanAnswer::StillReadingTheProject, 0, 3000, true, None, "a.rs"),
        AskStep::StillStarting
    );
}

#[test]
fn a_question_also_waits_for_every_other_tab() {
    let behind = Some("b.rs".to_string());
    assert_eq!(ask_step(CanAnswer::Yes, 10, 3000, true, behind.clone(), "a.rs"), AskStep::Wait);
    assert_eq!(
        ask_step(CanAnswer::Yes, 5000, 3000, true, behind, "a.rs"),
        AskStep::NotHeard("b.rs".to_string())
    );
    assert_eq!(ask_step(CanAnswer::Yes, 10, 3000, false, None, "a.rs"), AskStep::NoCaret);
    assert_eq!(ask_step(CanAnswer::Yes, 10, 3000, true, None, "a.rs"), AskStep::Ask);
}

#[test]
fn a_waiting_question_stays_in_line_until_it_goes_out() {
    let mut editor = FileEditor::loading("src/a.rs".to_string(), true);
    editor.saved = Some(String::new());
    editor.has_a_server = true;
    let mut waiting: Acting = None;
    assert_eq!(start(&mut waiting, &editor, false, "s".to_string(), 7, 1_000).as_deref(), Some("put the caret on the code first"));
    assert!(waiting.is_none(), "a refused question is not put in line");
    assert_eq!(start(&mut waiting, &editor, true, "s".to_string(), 7, 1_000), None);
    assert_eq!(
        start(&mut waiting, &editor, true, "s".to_string(), 8, 2_000).as_deref(),
        Some("code actions are already being asked for"),
        "one question at a time"
    );
    match follow(waiting, false) {
        FollowStep::AskNow { session_id, pane_id, since } => {
            assert_eq!((session_id.as_str(), pane_id, since), ("s", 7, 1_000));
            let again: Acting = after_ask("s".to_string(), 7, 1_000, &AskStep::Wait);
            assert!(matches!(again, Some(CodeActing::WaitingToAsk { pane_id: 7, .. })));
            let out: Acting = after_ask("s".to_string(), 7, 1_000, &AskStep::Ask);
            assert!(matches!(out, Some(CodeActing::Asking)));
            let given_up: Acting = after_ask("s".to_string(), 7, 1_000, &AskStep::NoCaret);
            assert!(given_up.is_none());
        }
        FollowStep::Stands(_) => panic!("a waiting question is asked about"),
    }
}

#[test]
fn a_list_put_away_unpicked_is_dropped() {
    assert!(matches!(follow(choosing(&["fix"]), true), FollowStep::Stands(Some(_))));
    assert!(matches!(follow(choosing(&["fix"]), false), FollowStep::Stands(None)));
    let asking: Acting = Some(CodeActing::Asking);
    assert!(matches!(follow(asking, false), FollowStep::Stands(Some(_))));
}

#[test]
fn what_came_back_is_listed_or_said() {
    let (acting, heard): (Acting, Heard) =
        answered("s".to_string(), Vec::new(), "src/a.rs", Ok(Vec::new()));
    assert!(acting.is_none());
    assert_eq!(heard, Heard::Nothing("nothing to do at the caret in src/a.rs".to_string()));

    let (acting, heard): (Acting, Heard) =
        answered("s".to_string(), Vec::new(), "src/a.rs", Err("timed out".to_string()));
    assert!(acting.is_none());
    assert_eq!(
        heard,
        Heard::Failed("could not ask for the code actions in src/a.rs: timed out".to_string())
    );

    let (acting, heard): (Acting, Heard) =
        answered("s".to_string(), Vec::new(), "src/a.rs", Ok(vec!["fix".to_string()]));
    assert_eq!(heard, Heard::Listed);
    assert_eq!(offered(&acting), Some(&vec!["fix".to_string()]));
}

#[test]
fn picking_takes_the_action_at_its_place_and_ends_the_question() {
    let mut acting = choosing(&["first", "second"]);
    let picked = pick(&mut acting, 1);
    assert!(acting.is_none());
    let (session_id, told, action) = picked.expect("picked");
    assert_eq!(session_id, "s");
    assert_eq!(told.len(), 1);
    assert_eq!(action, "second");

    let mut acting = choosing(&["only"]);
    assert!(pick(&mut acting, 3).is_none());
    assert!(acting.is_none(), "a pick past the list still ends the question");
}

#[test]
fn a_script_box_shows_the_scripts_value_until_it_has_the_keyboard() {
    let mut typed = "par".to_string();
    moon_native::extension_pane::input_follows_script(&mut typed, "", false);
    assert_eq!(typed, "", "a script that clears its filter clears the box");
    typed = "pars".to_string();
    moon_native::extension_pane::input_follows_script(&mut typed, "par", true);
    assert_eq!(typed, "pars", "while it is typed into, what is typed stands");
}

#[test]
fn a_short_sha_is_its_first_seven_bytes() {
    assert_eq!(moon_native::blame::short_sha("0123456789abcdef"), "0123456");
    assert_eq!(moon_native::blame::short_sha("abc"), "abc");
    assert_eq!(moon_native::blame::short_sha("ab\u{e9}\u{e9}xyz"), "ab\u{e9}\u{e9}x", "two two-byte characters take four of the seven");
}
