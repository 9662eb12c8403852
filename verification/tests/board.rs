use std::sync::Arc;
use moon_native::board::attach::utc_date_label;
use moon_native::board::cards::{column_cards, column_index_of, column_size, place_in};
use moon_native::board::actions::{apply, column_composed, renamed, Amend, Renamed, call_answered, failure_words_of, task_created, BoardAction, BoardCall, BoardWork, PaneRequest};
use moon_native::board::column::{arrivals_end, arrivals_place, arrive_in_column, empty_column_words, hold_over_column};
use moon_native::board::columns::{accept_columns, drop_column, ordered_columns, place_column_in};
use moon_native::board::day_lines::{DayLines, LocalDay};
use moon_native::board::filter::{tally, Filter};
use moon_native::board::gesture::{claim, grabbed, settle, settle_gesture, stale, Controls, Ended, Gesture, Press};
use moon_native::board::resources::{hover_of, request_row, TaskResourceKind};
use moon_native::board::selection::{carried_by, clicked};
use moon_native::board::start::agent_label;
use moon_native::board::tags::{escape_in_tag_box, suggestions, tags_after, tags_on_board, tags_to_send, typed_tags, TagPress};
use moon_native::board::work_on_marked::{from_marked, WorkOnMarked};
use moon_native::input::Modifiers;
use moon_native::model::{BoardColumn, BoardState, Carrying, ColumnEnd, ColumnId, Landing, PendingColumnPlace, PendingPlace, TaskDraft, TaskPaneBox, TaskView};
use moon_native::polling::{board_read, reviews_to_read, BoardRead};

fn card(title: &str, status: &str, notes: &str) -> TaskView {
    TaskView {
        id: format!("{title}-1111"),
        title: title.to_string(),
        status: ColumnId::new(status),
        created_at_unix: 1700000000,
        dir_path: String::new(),
        repo_path: String::new(),
        notes: notes.to_string(),
        tags: Arc::new(Vec::new()),
    }
}

/// The one card an ordinary drag carries, as the run every drag is read as.
fn dragging(task_id: &str) -> Vec<String> {
    vec![task_id.to_string()]
}

/// A column of cards, each named after what a query would find it by.
fn column(titles: &[&str]) -> Vec<TaskView> {
    titles.iter().map(|title| card(title, "todo", "")).collect()
}

fn board(titles: &[&str]) -> BoardState {
    BoardState::with_tasks(column(titles))
}

fn sorted_marks(board: &BoardState) -> Vec<String> {
    let mut marked: Vec<String> = board.marked.iter().cloned().collect();
    marked.sort();
    marked
}

fn titles(tasks: &[TaskView]) -> Vec<&str> {
    tasks.iter().map(|task| task.title.as_str()).collect()
}

fn day(year: i32, month: u32, day: u32) -> LocalDay {
    LocalDay { year, month, day }
}

fn id(s: &str) -> String {
    s.to_string()
}

#[test]
fn a_session_s_day_reads_as_a_date() {
    assert_eq!(utc_date_label(0), "1970-01-01");
    // 2026-08-09 14:24:47 UTC.
    assert_eq!(utc_date_label(1_786_388_687), "2026-08-10");
    // Leap day.
    assert_eq!(utc_date_label(1_709_164_800), "2024-02-29");
}

#[test]
fn a_date_far_past_the_epoch_still_reads_as_a_date() {
    assert_eq!(utc_date_label(86_399), "1970-01-01");
    assert_eq!(utc_date_label(86_400), "1970-01-02");
    assert_eq!(utc_date_label(951_782_400), "2000-02-29");
    assert_eq!(utc_date_label(4_102_444_800), "2100-01-01");
}

#[test]
fn with_no_filter_on_a_drop_lands_where_it_was_let_go_of() {
    let tasks = column(&["one", "two", "three"]);
    let status = ColumnId::new("todo");
    let nothing = Filter::of("");

    for at in 0..3 {
        assert_eq!(column_index_of(&tasks, &nothing, &status, &dragging("two-1111"), at), at);
    }
}

/// The cards a filter hides are still in the column, and a drop is read against the ones
/// on screen: above the card showing that was dropped above.
#[test]
fn a_drop_among_filtered_cards_lands_above_the_card_it_was_dropped_above() {
    // Showing: `sing` at column place 1, and `song` at column place 3.
    let tasks = column(&["hidden", "sing", "also hidden", "song"]);
    let status = ColumnId::new("todo");
    let filter = Filter::of("s\u{69}ng");
    let dragged = "song-1111";

    assert_eq!(
        column_index_of(&tasks, &filter, &status, &dragging(dragged), 0),
        1,
        "above the first card showing is above that card, not the top of the column"
    );
    assert_eq!(
        column_index_of(&tasks, &filter, &status, &dragging(dragged), 1),
        3,
        "below the last card showing is the end of the column, hidden cards and all"
    );
}

/// The card being dragged is not one of the places it can be dropped into: `place_in`
/// takes it out of the column before it counts places in it.
#[test]
fn the_dragged_card_is_left_out_of_the_places_it_could_land_in() {
    let tasks = column(&["sing", "hidden", "song"]);
    let status = ColumnId::new("todo");
    let filter = Filter::of("s");

    assert_eq!(column_index_of(&tasks, &filter, &status, &dragging("sing-1111"), 0), 1);
    assert_eq!(
        column_index_of(&tasks, &filter, &status, &dragging("sing-1111"), 1),
        2,
        "and past it is the end of what the column has left"
    );
}

/// A drag made with several cards marked puts them down as one run, in the order the board
/// had them - whichever of them the drop names first.
#[test]
fn cards_dragged_together_land_as_a_run_in_the_order_the_board_had_them() {
    let mut tasks = column(&["one", "two", "three", "four"]);
    let done = ColumnId::new("done");

    place_in(&mut tasks, &vec![id("three-1111"), id("one-1111")], &done, 0);

    assert_eq!(titles(&tasks), ["two", "four", "one", "three"]);
    assert_eq!(tasks[2].status, done);
    assert_eq!(tasks[3].status, done);
    assert_eq!(tasks[0].status, ColumnId::new("todo"));
}

#[test]
fn cards_dragged_into_a_column_go_in_at_the_place_they_were_dropped() {
    let mut tasks = column(&["one", "two", "three", "four"]);

    place_in(&mut tasks, &vec![id("one-1111"), id("two-1111")], &ColumnId::new("todo"), 1);

    assert_eq!(titles(&tasks), ["three", "one", "two", "four"]);
}

#[test]
fn a_drop_past_the_end_of_a_column_goes_after_its_last_card() {
    let mut tasks = column(&["one", "two"]);
    tasks.push(card("three", "done", ""));

    place_in(&mut tasks, &dragging("one-1111"), &ColumnId::new("todo"), 9);

    assert_eq!(titles(&tasks), ["two", "one", "three"]);
}

#[test]
fn a_drop_keeps_every_card_wherever_it_lands() {
    for index in [0, 1, 2, 7] {
        let mut tasks = column(&["one", "two", "three"]);
        tasks.push(card("four", "done", ""));
        let mut before: Vec<String> = tasks.iter().map(|task| task.id.clone()).collect();
        before.sort();

        place_in(&mut tasks, &vec![id("three-1111"), id("one-1111")], &ColumnId::new("done"), index);

        let mut after: Vec<String> = tasks.iter().map(|task| task.id.clone()).collect();
        after.sort();
        assert_eq!(after, before, "dropped at {index}");
    }
}

#[test]
fn a_columns_size_counts_the_cards_a_filter_is_hiding_too() {
    let mut tasks = column(&["one", "two"]);
    tasks.push(TaskView { status: ColumnId::new("done"), ..column(&["three"]).remove(0) });

    assert_eq!(column_size(&tasks, &ColumnId::new("todo")), 2);
    assert_eq!(column_size(&tasks, &ColumnId::new("done")), 1);
}

#[test]
fn a_day_is_named_by_how_far_back_it_is() {
    let today = day(2026, 9, 22);

    assert_eq!(today.label(today), "today");
    assert_eq!(day(2026, 9, 21).label(today), "yesterday");
    assert_eq!(day(2026, 9, 20).label(today), "September 20");
    assert_eq!(day(2025, 12, 31).label(today), "December 31, 2025");
}

/// Yesterday across a month, a year and a leap day: the day arithmetic, not the label.
#[test]
fn yesterday_is_the_day_before_whatever_the_calendar_does() {
    assert_eq!(day(2026, 8, 31).label(day(2026, 9, 1)), "yesterday");
    assert_eq!(day(2025, 12, 31).label(day(2026, 1, 1)), "yesterday");
    assert_eq!(day(2024, 2, 29).label(day(2024, 3, 1)), "yesterday");
    assert_eq!(day(2026, 9, 20).label(day(2026, 9, 22)), "September 20");
}

#[test]
fn days_are_counted_from_the_epoch() {
    assert_eq!(day(1970, 1, 1).days_since_epoch(), 0);
    assert_eq!(day(1970, 1, 2).days_since_epoch(), 1);
    assert_eq!(day(1969, 12, 31).days_since_epoch(), -1);
    assert_eq!(day(2000, 3, 1).days_since_epoch(), 11_017);
}

/// The lines go where the day changes, reading down; a card with no day is passed over.
#[test]
fn a_line_stands_wherever_the_day_changes() {
    let mut lines = DayLines::from(day(2026, 9, 22));
    let cards = [
        Some(day(2026, 9, 22)),
        Some(day(2026, 9, 22)),
        None,
        Some(day(2026, 9, 21)),
        Some(day(2026, 9, 21)),
        Some(day(2026, 9, 19)),
    ];

    let above: Vec<Option<String>> = cards.into_iter().map(|card| lines.line_above(card)).collect();

    assert_eq!(
        above,
        [
            Some("today".to_string()),
            None,
            None,
            Some("yesterday".to_string()),
            None,
            Some("September 19".to_string()),
        ]
    );
}

#[test]
fn an_empty_query_leaves_every_card_showing() {
    let filter = Filter::of("   ");

    assert!(!filter.is_on());
    assert!(filter.matches(&card("Write the parser", "todo", "")));
}

#[test]
fn a_query_finds_a_card_by_its_title_whatever_case_it_is_typed_in() {
    assert!(Filter::of("PARSER").matches(&card("Write the parser", "todo", "")));
    assert!(Filter::of("write").matches(&card("Write the parser", "todo", "")));
    assert!(!Filter::of("login").matches(&card("Write the parser", "todo", "")));
}

/// The notes are on the card, so they are searched too.
#[test]
fn a_query_finds_a_card_by_its_notes() {
    let task = card("Write the parser", "todo", "the lexer chokes on nested comments");

    assert!(Filter::of("nested comments").matches(&task));
    assert!(!Filter::of("nested parser").matches(&task));
}

#[test]
fn the_tally_says_how_much_of_the_board_is_showing() {
    let tasks = vec![
        card("Write the parser", "todo", ""),
        card("Fix the login page", "todo", ""),
        card("Drop the old API", "todo", ""),
    ];

    assert_eq!(tally(&tasks, &Filter::of("the")), "3 of 3 tasks");
    assert_eq!(tally(&tasks, &Filter::of("login")), "1 of 3 tasks");
    assert_eq!(tally(&tasks, &Filter::of("parsnip")), "no task matches");
}

fn folder_card(title: &str, status: &str) -> TaskView {
    TaskView {
        dir_path: format!("/repo/.moontasks/{title}-1111"),
        repo_path: "/repo".to_string(),
        ..card(title, status, "")
    }
}

#[test]
fn one_marked_task_makes_no_card() {
    let tasks = vec![folder_card("parser", "todo")];

    assert_eq!(from_marked(&tasks), None);
}

#[test]
fn several_marked_tasks_make_a_card_pointing_at_their_folders() {
    let tasks = vec![folder_card("parser", "doing"), folder_card("login", "todo")];

    assert_eq!(
        from_marked(&tasks),
        Some(WorkOnMarked {
            title: "Work on parser + login".to_string(),
            notes: "Work on these tasks together. Each folder holds that task's notes.md \
                    and anything left in it.\n\n\
                    - parser: /repo/.moontasks/parser-1111\n\
                    - login: /repo/.moontasks/login-1111\n"
                .to_string(),
            column: ColumnId::new("doing"),
        })
    );
}

#[test]
fn a_plain_click_marks_that_card_alone_and_asks_for_its_page() {
    let mut board = board(&["one", "two"]);
    assert_eq!(clicked(&mut board, Some(&id("one-1111")), Modifiers::none()), Some(id("one-1111")));
    assert_eq!(sorted_marks(&board), ["one-1111"]);

    clicked(&mut board, Some(&id("two-1111")), Modifiers::none());
    assert_eq!(sorted_marks(&board), ["two-1111"], "and lets the last one go");
    assert_eq!(board.pages_to_close, ["one-1111"], "and puts its page away");
}

#[test]
fn cmd_puts_one_card_in_and_takes_the_same_card_out() {
    let mut board = board(&["one", "two", "three"]);
    for task in ["one-1111", "two-1111"] {
        assert_eq!(clicked(&mut board, Some(&id(task)), Modifiers::command()), None);
    }
    assert_eq!(sorted_marks(&board), ["one-1111", "two-1111"]);

    clicked(&mut board, Some(&id("one-1111")), Modifiers::command());
    assert_eq!(sorted_marks(&board), ["two-1111"], "cmd+clicking a marked card takes it back out");
}

/// The two keys do two things, and the one-card key undoes what the run key did to one card.
#[test]
fn shift_takes_the_run_and_cmd_takes_one_card_out_of_it() {
    let mut board = board(&["one", "two", "three"]);
    clicked(&mut board, Some(&id("one-1111")), Modifiers::command());
    clicked(&mut board, Some(&id("three-1111")), Modifiers::shift());
    assert_eq!(sorted_marks(&board), ["one-1111", "three-1111", "two-1111"]);

    clicked(&mut board, Some(&id("two-1111")), Modifiers::command());
    assert_eq!(sorted_marks(&board), ["one-1111", "three-1111"]);
}

#[test]
fn a_second_shift_click_stretches_the_run_from_the_same_anchor() {
    let mut board = board(&["one", "two", "three"]);
    clicked(&mut board, Some(&id("two-1111")), Modifiers::command());
    clicked(&mut board, Some(&id("three-1111")), Modifiers::shift());
    clicked(&mut board, Some(&id("one-1111")), Modifiers::shift());
    assert_eq!(
        sorted_marks(&board),
        ["one-1111", "two-1111"],
        "measured from the anchor, not from the end of the last run"
    );
}

#[test]
fn a_click_beside_the_cards_lets_the_marks_go() {
    let mut board = board(&["one", "two"]);
    clicked(&mut board, Some(&id("one-1111")), Modifiers::command());
    assert_eq!(clicked(&mut board, None, Modifiers::none()), None);
    assert!(sorted_marks(&board).is_empty());
}

#[test]
fn a_marked_card_carries_the_marks_and_an_unmarked_one_carries_itself() {
    let mut board = board(&["one", "two", "three"]);
    clicked(&mut board, Some(&id("one-1111")), Modifiers::command());
    clicked(&mut board, Some(&id("two-1111")), Modifiers::command());

    let carrying = carried_by(&mut board, &id("two-1111"), Modifiers::none());
    assert_eq!(carrying.task_ids, ["one-1111", "two-1111"]);
    assert_eq!(carrying.primary, "two-1111");

    let carrying = carried_by(&mut board, &id("three-1111"), Modifiers::none());
    assert_eq!(carrying.task_ids, ["three-1111"]);
    assert_eq!(
        sorted_marks(&board),
        ["three-1111"],
        "and it is the mark now, which is what shows where it lands"
    );
}

/// A card picked up with one of the gathering keys held joins the group.
#[test]
fn a_card_picked_up_with_cmd_held_joins_the_marks() {
    let mut board = board(&["one", "two", "three"]);
    clicked(&mut board, Some(&id("one-1111")), Modifiers::command());

    let carrying = carried_by(&mut board, &id("three-1111"), Modifiers::command());
    assert_eq!(carrying.task_ids, ["one-1111", "three-1111"]);
}

fn press_on(on: &str) -> Press {
    Press {
        on: Some(on.to_string()),
        on_title: false,
        on_a_button: false,
        modifiers: Modifiers::none(),
        travelled: false,
    }
}

/// A press the pointer is no longer making is not a press at all. Where the button went down
/// is measured against the press by the window; what arrives here is whether it was further
/// than a card is picked up by.
#[test]
fn a_press_the_pointer_is_not_making_is_let_go_of() {
    let press = press_on("one");

    assert!(!stale(Some(&press), Some(false), false), "the button is down where the press began");
    assert!(stale(Some(&press), Some(true), false), "a button held down from elsewhere is another gesture");
    assert!(!stale(Some(&press), None, true), "the release we were waiting for is the answer");
    assert!(stale(Some(&press), None, false), "no button down and no release ended out of sight");
    assert!(!stale(None, Some(true), false), "and with no press there is nothing to let go of");
}

/// The travel is remembered once it is far enough.
#[test]
fn a_press_becomes_a_grab_only_once_it_has_carried_far_enough() {
    let mut board = board(&["one"]);
    claim(&mut board, true, press_on("one-1111"));

    assert!(settle(&mut board, Some(false), Some(false), false).is_none());
    assert!(grabbed(&board).is_none(), "a few points is a click");
    settle(&mut board, Some(false), Some(true), false);
    assert_eq!(grabbed(&board).map(|(on, _)| on.to_string()), Some(id("one-1111")), "a hand's width is a grab");
    settle(&mut board, Some(false), Some(false), false);
    assert!(grabbed(&board).is_some(), "and coming back does not put the card down again");
    assert!(matches!(settle(&mut board, None, Some(false), true), Some(Ended::Dropped)));
    assert!(board.press.is_none());
}

#[test]
fn a_press_claimed_once_is_not_claimed_over() {
    let mut board = board(&["one", "two"]);
    claim(&mut board, false, press_on("one-1111"));
    assert!(board.press.is_none(), "a press that lands where it cannot be seen is nobody's");
    claim(&mut board, true, press_on("one-1111"));
    claim(&mut board, true, press_on("two-1111"));
    assert_eq!(board.press.as_ref().and_then(|press| press.on.clone()), Some(id("one-1111")));
}

#[test]
fn a_button_on_a_card_takes_the_press_unless_a_marking_key_is_held() {
    let mut controls = Controls::new(&Modifiers::none());
    assert!(!controls.pressed(true, false), "held down is not yet a press of the button");
    assert!(controls.took_the_press());
    assert!(controls.pressed(false, true));

    let mut marking = Controls::new(&Modifiers::shift());
    assert!(!marking.pressed(true, true), "with shift held the card has every press");
    assert!(!marking.took_the_press());

    let elsewhere = Controls::elsewhere();
    assert!(!elsewhere.took_the_press());
}

#[test]
fn a_plain_click_on_a_card_opens_its_page_and_a_double_click_on_its_title_renames_it() {
    let mut board = board(&["one", "two"]);
    claim(&mut board, true, press_on("two-1111"));
    match settle_gesture(&mut board, None, Some(false), true, false) {
        Gesture::OpenStart { task_id, title } => {
            assert_eq!(task_id, "two-1111");
            assert_eq!(title, "two");
        }
        other => panic!("expected the page to open, got {other:?}"),
    }
    assert_eq!(sorted_marks(&board), ["two-1111"]);

    claim(&mut board, true, Press { on_title: true, ..press_on("one-1111") });
    match settle_gesture(&mut board, None, Some(false), true, true) {
        Gesture::OpenRename(task_id) => assert_eq!(task_id, "one-1111"),
        other => panic!("expected the rename box, got {other:?}"),
    }
    assert_eq!(sorted_marks(&board), ["two-1111"], "the second click marks nothing new");
    assert_eq!(board.renaming.as_deref(), Some("one-1111"), "the rename box is open");
}

#[test]
fn a_double_click_on_a_card_the_board_no_longer_holds_opens_nothing() {
    let mut board = board(&["one"]);
    claim(&mut board, true, Press { on_title: true, ..press_on("gone-1111") });
    assert!(matches!(
        settle_gesture(&mut board, None, Some(false), true, true),
        Gesture::Nothing
    ));
    assert!(board.renaming.is_none());
}

#[test]
fn a_card_carried_off_is_dropped_and_a_click_beside_the_cards_lets_the_marks_go() {
    let mut board = board(&["one", "two"]);
    claim(&mut board, true, press_on("one-1111"));
    assert!(matches!(settle_gesture(&mut board, Some(false), Some(true), false, false), Gesture::Nothing));
    assert!(board.carrying.is_none(), "the press has only now carried far enough");
    assert!(matches!(settle_gesture(&mut board, Some(false), None, false, false), Gesture::Nothing));
    assert!(board.carrying.is_some(), "the card is picked up once it has carried");
    assert_eq!(sorted_marks(&board), ["one-1111"]);
    assert!(matches!(settle_gesture(&mut board, None, Some(false), true, false), Gesture::Nothing));
    assert!(board.carrying.is_none(), "and let go of on the release");

    claim(&mut board, true, Press { on: None, ..press_on("") });
    assert!(matches!(settle_gesture(&mut board, None, None, true, false), Gesture::Nothing));
    assert!(sorted_marks(&board).is_empty());
}

fn column_named(name: &str, arrivals: Option<ColumnEnd>) -> BoardColumn {
    BoardColumn { id: ColumnId::new(name), arrivals }
}

fn column_names(columns: &[BoardColumn]) -> Vec<&str> {
    columns.iter().map(|column| column.id.as_str()).collect()
}

#[test]
fn a_column_moved_goes_in_at_its_new_place_and_past_the_end_goes_last() {
    let mut columns = vec![column_named("todo", None), column_named("doing", None), column_named("done", None)];
    place_column_in(&mut columns, &ColumnId::new("todo"), 1);
    assert_eq!(column_names(&columns), ["doing", "todo", "done"]);
    place_column_in(&mut columns, &ColumnId::new("doing"), 7);
    assert_eq!(column_names(&columns), ["todo", "done", "doing"]);
    place_column_in(&mut columns, &ColumnId::new("nowhere"), 0);
    assert_eq!(column_names(&columns), ["todo", "done", "doing"]);
}

#[test]
fn a_column_move_keeps_every_column() {
    for (moved, index) in [("todo", 0), ("todo", 2), ("done", 0), ("doing", 9)] {
        let mut columns = vec![column_named("todo", None), column_named("doing", Some(ColumnEnd::Top)), column_named("done", None)];
        place_column_in(&mut columns, &ColumnId::new(moved), index);
        let mut names = column_names(&columns);
        names.sort();
        assert_eq!(names, ["doing", "done", "todo"], "{moved} to {index}");
        assert_eq!(columns.iter().filter(|column| column.arrivals.is_some()).count(), 1);
    }
}

#[test]
fn a_column_being_dragged_is_drawn_where_it_is_held() {
    let mut board = board(&[]);
    board.columns = vec![column_named("todo", None), column_named("doing", None), column_named("done", None)];
    board.column_landing = Some(2);
    let todo = ColumnId::new("todo");
    assert_eq!(column_names(&ordered_columns(&board, Some(&todo))), ["doing", "done", "todo"]);
    assert_eq!(column_names(&ordered_columns(&board, None)), ["todo", "doing", "done"]);
    assert_eq!(column_names(&board.columns), ["todo", "doing", "done"], "nothing moves until it is let go of");
}

#[test]
fn a_column_move_is_kept_until_the_server_has_it() {
    let mut board = board(&[]);
    board.columns = vec![column_named("todo", None), column_named("doing", None), column_named("done", None)];
    drop_column(&mut board, &ColumnId::new("done"), 0);
    assert_eq!(column_names(&board.columns), ["done", "todo", "doing"]);

    // The server answers with the order it had before it heard of the move.
    accept_columns(&mut board, vec![column_named("todo", None), column_named("doing", None), column_named("done", None)]);
    assert_eq!(column_names(&board.columns), ["done", "todo", "doing"]);
    assert!(board.pending_column_place.is_some());

    // And then with the move made.
    accept_columns(&mut board, vec![column_named("done", None), column_named("todo", None), column_named("doing", None)]);
    assert_eq!(column_names(&board.columns), ["done", "todo", "doing"]);
    assert!(board.pending_column_place.is_none());

    // A move past the end has landed once the column is last.
    board.pending_column_place = Some(PendingColumnPlace { column: ColumnId::new("todo"), index: 9 });
    accept_columns(&mut board, vec![column_named("done", None), column_named("doing", None), column_named("todo", None)]);
    assert!(board.pending_column_place.is_none());
}

#[test]
fn cards_arriving_go_to_the_end_their_column_insists_on() {
    let mut tasks = column(&["one", "two"]);
    tasks.push(card("three", "done", ""));
    tasks.push(card("four", "done", ""));
    let mut board = BoardState::with_tasks(tasks);
    board.columns = vec![column_named("todo", None), column_named("done", Some(ColumnEnd::Top))];
    let done = ColumnId::new("done");
    let todo = ColumnId::new("todo");

    assert_eq!(arrivals_end(&board, &done, &dragging("one-1111")), Some(ColumnEnd::Top));
    assert_eq!(arrivals_end(&board, &done, &dragging("three-1111")), None, "a shuffle is no arrival");
    assert_eq!(arrivals_place(&board, &done, &dragging("one-1111")), Some(0));
    assert_eq!(arrivals_end(&board, &todo, &dragging("three-1111")), None, "todo names no end");

    assert_eq!(arrive_in_column(&mut board, &done, &dragging("three-1111")), None);
    assert_eq!(arrive_in_column(&mut board, &done, &dragging("two-1111")), Some(0));
    assert_eq!(titles(&board.tasks), ["one", "two", "three", "four"]);
    assert_eq!(board.tasks[1].status, done);
    assert_eq!(board.pending_place.as_ref().map(|place| place.index), Some(0));

    board.columns[1].arrivals = Some(ColumnEnd::Bottom);
    assert_eq!(arrivals_place(&board, &done, &dragging("one-1111")), Some(3));
    assert_eq!(arrive_in_column(&mut board, &todo, &dragging("four-1111")), Some(1), "with no end named, the bottom");
    assert_eq!(titles(&board.tasks), ["one", "four", "two", "three"], "just past the column's last card");
}

#[test]
fn a_row_says_what_pressing_it_opens() {
    assert_eq!(hover_of(TaskResourceKind::File), "Open this file in a pane");
    assert_eq!(hover_of(TaskResourceKind::Shell), "Open this shell in a tab");
    assert_eq!(hover_of(TaskResourceKind::Agent), "Open this shell in a tab");
}

#[test]
fn an_agent_is_named_in_small_letters() {
    assert_eq!(agent_label(None), "no agent");
    assert_eq!(agent_label(Some("Open Agent")), "open agent");
}

#[test]
fn the_tags_offered_are_the_boards_others_with_what_is_typed_in_them() {
    let board_tags = vec![id("bug"), id("needs-test"), id("ui"), id("bug"), id("needs-tests")];
    let held = vec![id("ui")];

    assert_eq!(suggestions(&board_tags, &held, ""), ["bug", "needs-test", "needs-tests"]);
    assert_eq!(suggestions(&board_tags, &held, "  NEEDS "), ["needs-test", "needs-tests"]);
    assert!(suggestions(&board_tags, &held, "ui").is_empty(), "what the box holds is not offered");
}

#[test]
fn a_column_draws_the_cards_the_filter_shows_with_the_carried_run_where_it_is_held() {
    let mut tasks = column(&["one", "two", "three"]);
    tasks.push(card("four", "done", ""));
    tasks.push(card("five", "done", ""));
    let mut board = BoardState::with_tasks(tasks);
    let todo = ColumnId::new("todo");
    let done = ColumnId::new("done");

    assert_eq!(titles(&column_cards(&board, &todo)), ["one", "two", "three"]);
    board.filter = "  T ".to_string();
    assert_eq!(titles(&column_cards(&board, &todo)), ["two", "three"], "the filter is applied");
    board.filter.clear();

    board.carrying = Some(Carrying { primary: id("one-1111"), task_ids: vec![id("one-1111"), id("three-1111")] });
    assert_eq!(titles(&column_cards(&board, &todo)), ["one", "two", "three"], "not over a column yet");

    board.landing = Some(Landing { status: ColumnId::new("done"), index: 1 });
    assert_eq!(titles(&column_cards(&board, &todo)), ["two"], "gone from the column it came from");
    assert_eq!(titles(&column_cards(&board, &done)), ["four", "one", "three", "five"], "and held as a run");

    board.landing = Some(Landing { status: ColumnId::new("done"), index: 9 });
    assert_eq!(titles(&column_cards(&board, &done)), ["four", "five", "one", "three"]);
}

#[test]
fn the_board_is_read_again_once_an_interval_or_when_asked() {
    assert_eq!(board_read(false, true, 9_000, true), BoardRead::Skip, "no board open");
    assert_eq!(board_read(true, false, 9_000, true), BoardRead::Skip, "no session");
    assert_eq!(board_read(true, true, 1_500, false), BoardRead::Read { restart: true });
    assert_eq!(board_read(true, true, 100, true), BoardRead::Read { restart: false });
    assert_eq!(board_read(true, true, 100, false), BoardRead::Skip);

    let reads = reviews_to_read(true, 100, &vec![false, true]);
    assert_eq!(reads.read, [false, true]);
    assert!(!reads.restart);
    let reads = reviews_to_read(false, 1_000, &vec![false, true]);
    assert_eq!(reads.read, [false, true], "a window in the background waits longer");
    let reads = reviews_to_read(true, 1_000, &vec![false, true]);
    assert_eq!(reads.read, [true, true]);
    assert!(reads.restart);
}

#[test]
fn cards_let_go_of_over_a_column_go_in_where_they_were_held() {
    let mut tasks = column(&["one", "two", "three"]);
    tasks.push(card("four", "done", ""));
    let mut board = BoardState::with_tasks(tasks);
    board.columns = vec![column_named("todo", None), column_named("done", None)];
    board.carrying = Some(Carrying { primary: id("one-1111"), task_ids: vec![id("one-1111")] });
    let done = ColumnId::new("done");

    assert_eq!(hold_over_column(&mut board, &done, 1, 1, false, false), None);
    assert_eq!(board.landing.as_ref().map(|landing| landing.index), Some(1), "held, and drawn there");

    assert_eq!(hold_over_column(&mut board, &done, 1, 1, true, false), Some((vec![id("one-1111")], 1)));
    assert!(board.landing.is_none());
    assert_eq!(titles(&board.tasks), ["two", "three", "four", "one"]);
    assert_eq!(board.pending_place.as_ref().map(|place| place.index), Some(1));

    board.columns[1].arrivals = Some(ColumnEnd::Top);
    board.carrying = Some(Carrying { primary: id("two-1111"), task_ids: vec![id("two-1111")] });
    hold_over_column(&mut board, &done, 2, 2, false, false);
    assert_eq!(board.landing.as_ref().map(|landing| landing.index), Some(0), "the gap opens at the column's end");
    assert_eq!(hold_over_column(&mut board, &done, 2, 2, true, false), Some((vec![id("two-1111")], 0)));
    assert_eq!(titles(&board.tasks), ["three", "two", "four", "one"]);

    board.carrying = Some(Carrying { primary: id("four-1111"), task_ids: vec![id("four-1111")] });
    assert_eq!(hold_over_column(&mut board, &done, 0, 3, true, true), None, "a shuffle in a sorted column sends nothing");
}

#[test]
fn an_empty_column_says_whether_the_filter_emptied_it() {
    let mut board = board(&[]);
    assert_eq!(empty_column_words(&board), "nothing here");
    board.filter = " parser ".to_string();
    assert_eq!(empty_column_words(&board), "nothing matching");
}

#[test]
fn an_action_changes_the_board_at_once_and_hands_the_rest_to_the_window() {
    let mut board = board(&["one", "two"]);
    clicked(&mut board, Some(&id("one-1111")), Modifiers::command());
    let work = apply(&mut board, BoardAction::OpenNewTask { column: ColumnId::new("todo"), joins: ColumnEnd::Top, draft_id: id("draft-1") }, None);
    assert!(sorted_marks(&board).is_empty(), "a new task lets the marks go");
    assert_eq!(board.task_box_focus, Some((id("draft-1"), TaskPaneBox::Title)));
    assert_eq!(work, BoardWork::Open(PaneRequest::NewTask { column: ColumnId::new("todo"), joins: ColumnEnd::Top, draft_id: id("draft-1") }));
    assert_eq!(board.drafts, [(id("draft-1"), TaskDraft { creating: false })], "the pane has a draft to write into");

    board.filter = "one".to_string();
    let work = apply(&mut board, BoardAction::Create {
        draft_id: id("draft-1"), column: ColumnId::new("todo"), joins: ColumnEnd::Top, title: id("new"), notes: String::new(),
    }, None);
    assert_eq!(board.filter, "", "the filter goes, so the new card is on the board");
    assert!(matches!(work, BoardWork::Call(BoardCall::CreateTask { .. })));
    assert_eq!(board.drafts, [(id("draft-1"), TaskDraft { creating: true })], "and it is being made");
    task_created(&mut board, &id("draft-1"), id("new-2222"), true);
    assert!(board.drafts.is_empty(), "the draft is done with once the task is made");
    assert_eq!(board.marked, ["new-2222"]);
    assert_eq!(board.task_box_focus, Some((id("new-2222"), TaskPaneBox::Notes)));

    board.pending_delete = Some(id("two-1111"));
    let work = apply(&mut board, BoardAction::Delete { task_id: id("two-1111") }, None);
    assert!(board.pending_delete.is_none());
    assert_eq!(work, BoardWork::Call(BoardCall::DeleteTask { task_id: id("two-1111") }));

    let work = apply(&mut board, BoardAction::OpenStart { task_id: id("two-1111"), title: id("two"), opens_on: TaskPaneBox::Neither }, None);
    assert_eq!(board.marked, ["two-1111"], "opening a page marks its card");
    assert_eq!(board.task_box_focus, None);
    assert_eq!(work, BoardWork::Open(PaneRequest::TaskStart { task_id: id("two-1111"), title: id("two") }));

    assert_eq!(apply(&mut board, BoardAction::PickFile { task_id: id("two-1111") }, None), BoardWork::PickFileFor(id("two-1111")));
    apply(&mut board, BoardAction::OpenAttachPicker { task_id: id("two-1111"), task_title: id("two") }, None);
    assert_eq!(board.attach_picker, Some((id("two-1111"), id("two"))));
    apply(&mut board, BoardAction::CloseAttachPicker, None);
    assert!(board.attach_picker.is_none());
}

#[test]
fn a_call_that_failed_lets_its_move_go_and_one_that_started_a_shell_brings_it_on_screen() {
    let mut board = board(&["one"]);
    board.pending_place = Some(PendingPlace { task_ids: vec![id("one-1111")], status: ColumnId::new("done"), index: 0 });
    let place = BoardCall::PlaceTasks { task_ids: vec![id("one-1111")], status: ColumnId::new("done"), index: 0 };
    call_answered(&mut board, &place, true, None);
    assert!(board.pending_place.is_some(), "a move that worked is kept until the board has it");
    assert!(board.refresh_requested);
    call_answered(&mut board, &place, false, None);
    assert!(board.pending_place.is_none(), "a move the server would not make is not kept");
    assert_eq!(failure_words_of(&place), "could not move the task");

    let start = BoardCall::StartResource { task_id: id("one-1111"), kind: TaskResourceKind::Agent, agent: Some(id("Codex")) };
    call_answered(&mut board, &start, true, Some(id("term-7")));
    assert_eq!(board.opened_shell, Some((id("term-7"), Some(id("Codex")), id("one-1111"))));
}

#[test]
fn a_word_typed_in_the_tag_box_goes_on_once_it_is_finished() {
    let (on, left) = typed_tags("bug ui", false);
    assert_eq!(on, ["bug"]);
    assert_eq!(left.as_deref(), Some("ui"), "the word still being typed stays in the box");

    let (on, left) = typed_tags("bug  needs-test ", false);
    assert_eq!(on, ["bug", "needs-test"], "a line of tags goes on whole");
    assert_eq!(left.as_deref(), Some(""));

    let (on, left) = typed_tags("  pars", false);
    assert!(on.is_empty());
    assert_eq!(left, None, "nothing finished leaves the box as it is typed");

    let (on, left) = typed_tags("pars", true);
    assert_eq!(on, ["pars"], "Enter finishes the word");
    assert_eq!(left.as_deref(), Some(""));

    let (on, left) = typed_tags(" ", false);
    assert!(on.is_empty());
    assert_eq!(left.as_deref(), Some(""), "a space on its own empties the box");
}

#[test]
fn a_repo_asked_about_reads_as_pending_until_it_is_done_with() {
    let row = request_row("moon", false, false, 3);
    assert!(row.pending);
    assert_eq!(row.name_label, "pending moon review");
    assert_eq!(row.toggle_label, "mark as completed");
    assert_eq!(row.toggle, Amend::Done(true));

    assert_eq!(request_row("moon", false, false, 0).name_label, "moon reviewed", "nothing left to commit");
    assert_eq!(request_row("moon", false, true, 3).name_label, "moon reviewed", "the task is finished");
    let crossed = request_row("moon", true, false, 3);
    assert!(!crossed.pending);
    assert_eq!(crossed.toggle_label, "mark as pending");
    assert_eq!(crossed.toggle, Amend::Done(false));
}

#[test]
fn a_name_edited_in_place_is_kept_when_the_box_is_left_with_something_new() {
    assert_eq!(renamed("Parse it", "Parse", true, false), Renamed::Keep(id("Parse it")));
    assert_eq!(renamed("Parse", "Parse", true, false), Renamed::Cancel, "the same name is no rename");
    assert_eq!(renamed("   ", "Parse", true, false), Renamed::Cancel, "a blank name is no name");
    assert_eq!(renamed("Parse it", "Parse", true, true), Renamed::Cancel, "Escape throws it away");
    assert_eq!(renamed("Parse it", "Parse", false, false), Renamed::Editing);

    assert!(matches!(column_composed("  review ", true, false, false), Some(BoardAction::AddColumn { label }) if label == "review"));
    assert!(matches!(column_composed("review", false, true, false), Some(BoardAction::AddColumn { .. })));
    assert!(matches!(column_composed("  ", true, true, true), Some(BoardAction::CloseColumnComposer)));
    assert!(column_composed("review", false, false, false).is_none());
}

#[test]
fn the_filter_finds_a_card_by_its_tags_too() {
    let mut tagged = card("fix the login", "todo", "");
    tagged.tags = Arc::new(vec!["needs-tests".to_string(), "Client-Acme".to_string()]);
    let plain = card("write docs", "todo", "");

    let filter = Filter::of("  ACME ");
    assert!(filter.is_on());
    assert!(filter.matches(&tagged), "a tag is on the card to be found by");
    assert!(!filter.matches(&plain));
    assert!(Filter::of("tests").matches(&tagged));

    let blank = Filter::of("   ");
    assert!(!blank.is_on(), "a blank query leaves the filter off");
    assert!(blank.matches(&plain));

    let board_tags = tags_on_board(&vec![plain.duplicate(), tagged.duplicate()]);
    assert_eq!(board_tags, ["needs-tests", "Client-Acme"]);
}

#[test]
fn a_task_that_could_not_be_made_keeps_its_draft_to_be_answered_for_again() {
    let mut board = board(&[]);
    apply(&mut board, BoardAction::OpenNewTask { column: ColumnId::new("todo"), joins: ColumnEnd::Bottom, draft_id: id("draft-9") }, None);
    let work = apply(&mut board, BoardAction::Create {
        draft_id: id("draft-9"), column: ColumnId::new("todo"), joins: ColumnEnd::Bottom, title: id("new"), notes: String::new(),
    }, None);
    let call = match work {
        BoardWork::Call(call) => call,
        other => panic!("expected the task to be asked for, got {other:?}"),
    };
    call_answered(&mut board, &call, false, None);
    assert_eq!(board.drafts, [(id("draft-9"), TaskDraft { creating: false })]);
    assert!(board.refresh_requested);
}

#[test]
fn a_line_of_a_request_for_review_is_changed_only_in_a_repo() {
    let mut board = board(&["one"]);
    let amend = || BoardAction::AmendReviewRequest { task_id: id("one-1111"), index: 2, amend: Amend::Dismiss };
    assert_eq!(apply(&mut board, amend(), None), BoardWork::Nothing, "no repo, nothing to change");
    assert_eq!(
        apply(&mut board, amend(), Some(id("/repo"))),
        BoardWork::Call(BoardCall::AmendReviewRequest { repo_path: id("/repo"), task_id: id("one-1111"), index: 2, amend: Amend::Dismiss })
    );
}

#[test]
fn the_tag_box_takes_tags_off_and_puts_them_on_and_sends_only_a_change() {
    let held = vec![id("bug"), id("needs-tests"), id("acme")];
    assert_eq!(tags_after(&held, TagPress::Backspace), Some(vec![id("bug"), id("needs-tests")]), "backspace takes the last off");
    assert_eq!(tags_after(&Vec::new(), TagPress::Backspace), None, "with none to take off, nothing");
    assert_eq!(tags_after(&held, TagPress::Remove(id("needs-tests"))), Some(vec![id("bug"), id("acme")]));
    assert_eq!(tags_after(&held, TagPress::Add(id("ui"))), Some(vec![id("bug"), id("needs-tests"), id("acme"), id("ui")]));

    assert_eq!(tags_to_send(&held, None), None, "a frame that changed nothing sends nothing");
    assert_eq!(tags_to_send(&held, Some(held.clone())), None, "nor does one that wants what the card says");
    assert_eq!(tags_to_send(&held, Some(vec![id("bug")])), Some(vec![id("bug")]));
}

#[test]
fn escape_empties_the_tag_box_and_then_shuts_it() {
    let card = id("one-1111");
    let mut typed = id("ne");
    let mut open = Some(card.clone());
    escape_in_tag_box(&mut typed, &mut open, &card);
    assert_eq!((typed.as_str(), open.as_deref()), ("", Some("one-1111")), "first the box is emptied");
    escape_in_tag_box(&mut typed, &mut open, &card);
    assert_eq!(open, None, "then an empty box shuts");

    let mut other = Some(id("two-1111"));
    escape_in_tag_box(&mut typed, &mut other, &card);
    assert_eq!(other.as_deref(), Some("two-1111"), "another card's box stays open");
}
