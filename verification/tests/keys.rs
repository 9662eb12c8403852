use moon_native::bindings::{chord_of, describe, Action, KeyEvent, Keymap, Press};
use moon_native::input::Modifiers;

fn key_event(mods: Modifiers, key: &str) -> KeyEvent {
    KeyEvent::Pressed(Press::new(mods, key))
}

fn command_shift() -> Modifiers {
    Modifiers::command().plus(Modifiers::shift())
}

/// Drive the map over a run of events, the way a frame's input would: what fired, and how many
/// events are left for the panes below.
fn run(keymap: &mut Keymap, typing: bool, events: Vec<KeyEvent>) -> (Vec<Action>, usize) {
    let resolved = keymap.resolve(events, typing);
    let left = resolved.kept.iter().filter(|kept| **kept).count();
    (resolved.fired, left)
}

#[test]
fn a_plain_chord_fires_and_is_taken_out_of_the_input() {
    let mut keymap = Keymap::new();
    let (fired, left) = run(&mut keymap, false, vec![key_event(Modifiers::command(), "T")]);

    assert_eq!(fired, vec![Action::NewShellTab]);
    assert_eq!(left, 0, "the pane below must not see it too");
}

#[test]
fn a_prefix_waits_for_the_press_that_completes_it() {
    let mut keymap = Keymap::new();

    let (fired, left) = run(&mut keymap, false, vec![key_event(Modifiers::ctrl(), "X")]);
    assert!(fired.is_empty(), "C-x on its own does nothing yet");
    assert_eq!(left, 0, "but it is the map's, not the shell's");
    assert!(keymap.armed_prefix().is_some(), "the map is armed");

    let (fired, _) = run(&mut keymap, false, vec![key_event(Modifiers::none(), "O")]);
    assert_eq!(fired, vec![Action::FocusNextFrame]);
    assert!(keymap.armed_prefix().is_none(), "the prefix is spent");
}

#[test]
fn a_prefix_that_leads_nowhere_is_dropped_rather_than_kept() {
    let mut keymap = Keymap::new();
    run(&mut keymap, false, vec![key_event(Modifiers::ctrl(), "X")]);

    let (fired, left) = run(&mut keymap, false, vec![key_event(Modifiers::none(), "Z")]);
    assert!(fired.is_empty());
    assert_eq!(left, 1, "the stray press is the pane's to deal with");
    assert!(keymap.armed_prefix().is_none(), "and the map is disarmed");
}

#[test]
fn the_letter_a_chord_used_is_not_typed_as_well() {
    let mut keymap = Keymap::new();
    run(&mut keymap, false, vec![key_event(Modifiers::ctrl(), "X")]);

    let (fired, left) = run(
        &mut keymap,
        false,
        vec![key_event(Modifiers::none(), "O"), KeyEvent::Text],
    );
    assert_eq!(fired, vec![Action::FocusNextFrame]);
    assert_eq!(left, 0, "the 'o' must not also reach the shell");
}

#[test]
fn bare_letters_are_text_while_a_shell_has_the_keyboard() {
    let mut keymap = Keymap::new();
    let (fired, left) = run(&mut keymap, true, vec![key_event(Modifiers::none(), "S")]);

    assert!(fired.is_empty(), "`s` in a shell is the letter s");
    assert_eq!(left, 1);

    let (fired, _) = run(&mut keymap, false, vec![key_event(Modifiers::none(), "S")]);
    assert_eq!(fired, vec![Action::AdvanceHunk]);
}

#[test]
fn command_chords_still_reach_the_app_from_inside_a_shell() {
    let mut keymap = Keymap::new();
    let (fired, _) = run(&mut keymap, true, vec![key_event(Modifiers::command(), "W")]);

    assert_eq!(fired, vec![Action::CloseTab]);
}

/// ⌘⇧P must not also be read as the ⌘P that no binding claims, and ⌘S must not fire
/// while Shift is held.
#[test]
fn modifiers_have_to_match_exactly() {
    let mut keymap = Keymap::new();
    let (fired, _) = run(&mut keymap, false, vec![key_event(command_shift(), "S")]);
    assert!(fired.is_empty(), "⌘⇧S is not ⌘S");

    let (fired, _) = run(&mut keymap, false, vec![key_event(command_shift(), "P")]);
    assert_eq!(fired, vec![Action::OpenPalette]);
}

#[test]
fn chords_read_the_way_they_are_spoken() {
    assert_eq!(describe(&chord_of(Action::FocusNextFrame).expect("bound")), "C-x o");
    assert_eq!(describe(&chord_of(Action::OpenPalette).expect("bound")), "shift ⌘P");
}

#[test]
fn text_that_follows_a_press_nobody_claimed_stays_in_the_input() {
    let mut keymap = Keymap::new();
    let resolved = keymap.resolve(
        vec![key_event(Modifiers::none(), "Q"), KeyEvent::Text, KeyEvent::Other],
        false,
    );
    assert!(resolved.fired.is_empty());
    assert_eq!(resolved.kept, vec![true, true, true]);
}

#[test]
fn the_hunk_bindings_step_forward_and_back() {
    let mut keymap = Keymap::new();
    let (fired, _) = run(
        &mut keymap,
        false,
        vec![key_event(Modifiers::none(), "S"), key_event(Modifiers::none(), "U")],
    );
    assert_eq!(fired, vec![Action::AdvanceHunk, Action::ReverseHunk]);
}
