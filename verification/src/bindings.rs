//! Every keyboard shortcut the window answers to, in one table.
//!
//! The table is data - an action, the keys that fire it, and how far it reaches - so adding a
//! shortcut is one row rather than another branch inside the key handler.
//!
//! Chords can be more than one press. `C-x o` is `Ctrl+X` followed by a bare `o`, which is
//! how emacs-style prefixes work: the first press arms the map, the second one resolves it.

use vstd::prelude::*;

use crate::input::Modifiers;
use crate::text::{lowercase_of, push_char, to_lowercase};

verus! {

/// Something the window can be asked to do. The app decides what each one means; this file
/// only decides what fires it.
#[derive(Clone, Copy, PartialEq, Eq, Debug, Structural)]
pub enum Action {
    OpenPalette,
    NewShellTab,
    CloseTab,
    SaveFile,
    ToggleTheme,
    /// Stage the hunk under the caret, or mark it reviewed in a review that cannot be staged.
    AdvanceHunk,
    /// The reverse: unstage it, or mark it unreviewed.
    ReverseHunk,
    /// Move the keyboard to the next frame of the workspace.
    FocusNextFrame,
    /// Open the find bar over whichever pane has the keyboard.
    Find,
}

/// One press: a key, by the name the window gives it (`P`, `X`, `Escape`), and the modifiers
/// held with it. Two keys are the same key exactly when their names are the same.
#[derive(Debug)]
pub struct Press {
    pub mods: Modifiers,
    pub key: String,
}

/// A press as the spec reads it.
pub type PressV = (Modifiers, Seq<char>);

impl View for Press {
    type V = PressV;

    open spec fn view(&self) -> PressV {
        (self.mods, self.key@)
    }
}

impl Press {
    pub fn new(mods: Modifiers, key: &str) -> (press: Press)
        ensures
            press@ == (mods, key@),
    {
        Press { mods, key: String::from_str(key) }
    }

    pub fn duplicate(&self) -> (copy: Press)
        ensures
            copy@ == self@,
    {
        Press { mods: self.mods, key: self.key.clone() }
    }
}

/// A chord as the spec reads it.
pub open spec fn chord_view(chord: Seq<Press>) -> Seq<PressV> {
    chord.map_values(|p: Press| p@)
}

/// How far a binding reaches.
#[derive(Clone, Copy, PartialEq, Eq, Debug, Structural)]
pub enum Reach {
    /// Answered whoever has the keyboard, shells included. Only for chords a terminal
    /// program would not otherwise be sent.
    Anywhere,
    /// Answered only when the keyboard is not in a shell or a text box, where a bare letter
    /// is text rather than a command.
    WhenNotTyping,
}

pub struct Binding {
    pub action: Action,
    /// The presses in order. One for a plain shortcut, more for a prefixed chord.
    pub chord: Vec<Press>,
    pub reach: Reach,
}

/// A binding as the spec reads it.
pub type BindingV = (Action, Seq<PressV>, Reach);

pub open spec fn binding_view(b: Binding) -> BindingV {
    (b.action, chord_view(b.chord@), b.reach)
}

pub open spec fn one_press(mods: Modifiers, key: Seq<char>) -> Seq<PressV> {
    seq![(mods, key)]
}

pub open spec fn command_shift() -> Modifiers {
    Modifiers { alt: false, ctrl: false, shift: true, mac_cmd: false, command: true }
}

pub open spec fn command_only() -> Modifiers {
    Modifiers { alt: false, ctrl: false, shift: false, mac_cmd: false, command: true }
}

pub open spec fn ctrl_only() -> Modifiers {
    Modifiers { alt: false, ctrl: true, shift: false, mac_cmd: false, command: false }
}

pub open spec fn no_mods() -> Modifiers {
    Modifiers { alt: false, ctrl: false, shift: false, mac_cmd: false, command: false }
}

/// The whole keyboard, laid out as values. Order matters only in that the first match wins,
/// which cannot happen while every chord here is distinct.
pub open spec fn binding_table() -> Seq<BindingV> {
    seq![
        (Action::OpenPalette, one_press(command_shift(), "P"@), Reach::Anywhere),
        (Action::NewShellTab, one_press(command_only(), "T"@), Reach::Anywhere),
        (Action::CloseTab, one_press(command_only(), "W"@), Reach::Anywhere),
        (Action::SaveFile, one_press(command_only(), "S"@), Reach::Anywhere),
        (Action::ToggleTheme, one_press(command_only(), "J"@), Reach::Anywhere),
        (Action::Find, one_press(command_only(), "F"@), Reach::Anywhere),
        (Action::FocusNextFrame, seq![(ctrl_only(), "X"@), (no_mods(), "O"@)], Reach::Anywhere),
        (Action::AdvanceHunk, one_press(no_mods(), "S"@), Reach::WhenNotTyping),
        (Action::ReverseHunk, one_press(no_mods(), "U"@), Reach::WhenNotTyping),
    ]
}

fn binding(action: Action, chord: Vec<Press>, reach: Reach) -> (b: Binding)
    ensures
        b.action == action,
        b.chord@ == chord@,
        b.reach == reach,
{
    Binding { action, chord, reach }
}

fn chord_of_one(press: Press) -> (chord: Vec<Press>)
    ensures
        chord_view(chord@) == seq![press@],
{
    let mut chord = Vec::new();
    chord.push(press);
    assert(chord_view(chord@) =~= seq![press@]);
    chord
}

/// The table, as values the key handler walks.
pub fn bindings() -> (table: Vec<Binding>)
    ensures
        table@.map_values(|b: Binding| binding_view(b)) == binding_table(),
{
    let command_shift = Modifiers::shift().plus(Modifiers::command());
    let mut table: Vec<Binding> = Vec::new();
    table.push(
        binding(Action::OpenPalette, chord_of_one(Press::new(command_shift, "P")), Reach::Anywhere),
    );
    table.push(
        binding(
            Action::NewShellTab,
            chord_of_one(Press::new(Modifiers::command(), "T")),
            Reach::Anywhere,
        ),
    );
    table.push(
        binding(Action::CloseTab, chord_of_one(Press::new(Modifiers::command(), "W")), Reach::Anywhere),
    );
    table.push(
        binding(Action::SaveFile, chord_of_one(Press::new(Modifiers::command(), "S")), Reach::Anywhere),
    );
    table.push(
        binding(
            Action::ToggleTheme,
            chord_of_one(Press::new(Modifiers::command(), "J")),
            Reach::Anywhere,
        ),
    );
    table.push(
        binding(Action::Find, chord_of_one(Press::new(Modifiers::command(), "F")), Reach::Anywhere),
    );
    let mut prefixed: Vec<Press> = Vec::new();
    prefixed.push(Press::new(Modifiers::ctrl(), "X"));
    prefixed.push(Press::new(Modifiers::none(), "O"));
    assert(chord_view(prefixed@) =~= seq![(ctrl_only(), "X"@), (no_mods(), "O"@)]);
    table.push(binding(Action::FocusNextFrame, prefixed, Reach::Anywhere));
    table.push(
        binding(
            Action::AdvanceHunk,
            chord_of_one(Press::new(Modifiers::none(), "S")),
            Reach::WhenNotTyping,
        ),
    );
    table.push(
        binding(
            Action::ReverseHunk,
            chord_of_one(Press::new(Modifiers::none(), "U")),
            Reach::WhenNotTyping,
        ),
    );
    assert(table@.map_values(|b: Binding| binding_view(b)) =~= binding_table());
    table
}

/// Whether the platform-command and control keys held match what a pattern asks for: a Mac
/// command pattern wants that key and the same control; a pattern with neither wants neither
/// held; otherwise what it asks for has to be held, and command may bring control with it.
pub open spec fn cmd_ctrl_match(got: Modifiers, want: Modifiers) -> bool {
    if want.mac_cmd {
        got.mac_cmd && want.ctrl == got.ctrl
    } else if !want.ctrl && !want.command {
        !got.ctrl && !got.command
    } else {
        (!want.ctrl || got.ctrl) && (!want.command || got.command)
    }
}

/// Whether the keys held match a pattern exactly: alt and shift as the pattern has them, and
/// command and control by [`cmd_ctrl_match`].
pub open spec fn mods_match_exactly(got: Modifiers, want: Modifiers) -> bool {
    want.alt == got.alt && want.shift == got.shift && cmd_ctrl_match(got, want)
}

pub fn matches_exact(got: Modifiers, want: Modifiers) -> (yes: bool)
    ensures
        yes == mods_match_exactly(got, want),
{
    if want.alt != got.alt || want.shift != got.shift {
        return false;
    }
    if want.mac_cmd {
        return got.mac_cmd && want.ctrl == got.ctrl;
    }
    if !want.ctrl && !want.command {
        return !got.ctrl && !got.command;
    }
    (!want.ctrl || got.ctrl) && (!want.command || got.command)
}

/// Whether what was pressed is a chord: the same number of presses, each the same key with the
/// modifiers matching exactly.
pub open spec fn chord_matches(chord: Seq<PressV>, pressed: Seq<PressV>) -> bool {
    chord.len() == pressed.len() && forall|k: int|
        0 <= k < chord.len() ==> #[trigger] press_matches(chord[k], pressed[k])
}

/// Whether a press is the one a chord wants: the same key, the modifiers matching exactly.
pub open spec fn press_matches(want: PressV, got: PressV) -> bool {
    want.1 == got.1 && mods_match_exactly(got.0, want.0)
}

/// What a press did to the map.
#[derive(Clone, Copy, PartialEq, Eq, Debug, Structural)]
pub enum Step {
    /// It finished a chord.
    Fired(Action),
    /// It began one. The press belongs to the map and must not reach the pane below.
    Armed,
    /// Nothing here wants it.
    Passed,
}

/// What the table, read from row `i` down, makes of the presses so far.
pub open spec fn step_through(table: Seq<BindingV>, i: int, chord: Seq<PressV>, typing: bool) -> Step
    decreases table.len() - i,
{
    if i < 0 || i >= table.len() {
        Step::Passed
    } else {
        let b = table[i];
        if b.2 == Reach::WhenNotTyping && typing {
            step_through(table, i + 1, chord, typing)
        } else if chord_matches(b.1, chord) {
            Step::Fired(b.0)
        } else if b.1.len() > chord.len() && chord_matches(b.1.take(chord.len() as int), chord) {
            Step::Armed
        } else {
            step_through(table, i + 1, chord, typing)
        }
    }
}

/// What one press does, with these presses of a chord already armed.
pub open spec fn step_of(armed: Seq<PressV>, press: PressV, typing: bool) -> Step {
    step_through(binding_table(), 0, armed.push(press), typing)
}

/// What is armed after a press: the chord so far, if it began one, and nothing otherwise.
pub open spec fn armed_after(armed: Seq<PressV>, press: PressV, typing: bool) -> Seq<PressV> {
    if step_of(armed, press, typing) == Step::Armed {
        armed.push(press)
    } else {
        Seq::empty()
    }
}

proof fn lemma_press_palette(typing: bool)
    ensures
        step_of(Seq::empty(), (command_shift(), "P"@), typing) == Step::Fired(Action::OpenPalette),
{
    reveal_strlit("P");
    reveal_strlit("T");
    reveal_strlit("W");
    reveal_strlit("S");
    reveal_strlit("J");
    reveal_strlit("F");
    reveal_strlit("X");
    reveal_strlit("O");
    reveal_strlit("U");
    let t = binding_table();
    let c = Seq::<PressV>::empty().push((command_shift(), "P"@));
    assert(c =~= seq![(command_shift(), "P"@)]);

}

proof fn lemma_press_shell_tab(typing: bool)
    ensures
        step_of(Seq::empty(), (command_only(), "T"@), typing) == Step::Fired(Action::NewShellTab),
{
    reveal_strlit("P");
    reveal_strlit("T");
    reveal_strlit("W");
    reveal_strlit("S");
    reveal_strlit("J");
    reveal_strlit("F");
    reveal_strlit("X");
    reveal_strlit("O");
    reveal_strlit("U");
    let t = binding_table();
    let c = Seq::<PressV>::empty().push((command_only(), "T"@));
    assert(c =~= seq![(command_only(), "T"@)]);
    assert(t[0].1[0].1[0] != c[0].1[0] || !mods_match_exactly(c[0].0, t[0].1[0].0));
    assert(!press_matches(t[0].1[0], c[0]));
    assert(step_through(t, 0, c, typing) == step_through(t, 1, c, typing));
}

proof fn lemma_press_close_tab(typing: bool)
    ensures
        step_of(Seq::empty(), (command_only(), "W"@), typing) == Step::Fired(Action::CloseTab),
{
    reveal_strlit("P");
    reveal_strlit("T");
    reveal_strlit("W");
    reveal_strlit("S");
    reveal_strlit("J");
    reveal_strlit("F");
    reveal_strlit("X");
    reveal_strlit("O");
    reveal_strlit("U");
    let t = binding_table();
    let c = Seq::<PressV>::empty().push((command_only(), "W"@));
    assert(c =~= seq![(command_only(), "W"@)]);
    assert(t[0].1[0].1[0] != c[0].1[0] || !mods_match_exactly(c[0].0, t[0].1[0].0));
    assert(!press_matches(t[0].1[0], c[0]));
    assert(step_through(t, 0, c, typing) == step_through(t, 1, c, typing));
    assert(t[1].1[0].1[0] != c[0].1[0] || !mods_match_exactly(c[0].0, t[1].1[0].0));
    assert(!press_matches(t[1].1[0], c[0]));
    assert(step_through(t, 1, c, typing) == step_through(t, 2, c, typing));
}

proof fn lemma_press_save(typing: bool)
    ensures
        step_of(Seq::empty(), (command_only(), "S"@), typing) == Step::Fired(Action::SaveFile),
{
    reveal_strlit("P");
    reveal_strlit("T");
    reveal_strlit("W");
    reveal_strlit("S");
    reveal_strlit("J");
    reveal_strlit("F");
    reveal_strlit("X");
    reveal_strlit("O");
    reveal_strlit("U");
    let t = binding_table();
    let c = Seq::<PressV>::empty().push((command_only(), "S"@));
    assert(c =~= seq![(command_only(), "S"@)]);
    assert(t[0].1[0].1[0] != c[0].1[0] || !mods_match_exactly(c[0].0, t[0].1[0].0));
    assert(!press_matches(t[0].1[0], c[0]));
    assert(step_through(t, 0, c, typing) == step_through(t, 1, c, typing));
    assert(t[1].1[0].1[0] != c[0].1[0] || !mods_match_exactly(c[0].0, t[1].1[0].0));
    assert(!press_matches(t[1].1[0], c[0]));
    assert(step_through(t, 1, c, typing) == step_through(t, 2, c, typing));
    assert(t[2].1[0].1[0] != c[0].1[0] || !mods_match_exactly(c[0].0, t[2].1[0].0));
    assert(!press_matches(t[2].1[0], c[0]));
    assert(step_through(t, 2, c, typing) == step_through(t, 3, c, typing));
}

proof fn lemma_press_theme(typing: bool)
    ensures
        step_of(Seq::empty(), (command_only(), "J"@), typing) == Step::Fired(Action::ToggleTheme),
{
    reveal_strlit("P");
    reveal_strlit("T");
    reveal_strlit("W");
    reveal_strlit("S");
    reveal_strlit("J");
    reveal_strlit("F");
    reveal_strlit("X");
    reveal_strlit("O");
    reveal_strlit("U");
    let t = binding_table();
    let c = Seq::<PressV>::empty().push((command_only(), "J"@));
    assert(c =~= seq![(command_only(), "J"@)]);
    assert(t[0].1[0].1[0] != c[0].1[0] || !mods_match_exactly(c[0].0, t[0].1[0].0));
    assert(!press_matches(t[0].1[0], c[0]));
    assert(step_through(t, 0, c, typing) == step_through(t, 1, c, typing));
    assert(t[1].1[0].1[0] != c[0].1[0] || !mods_match_exactly(c[0].0, t[1].1[0].0));
    assert(!press_matches(t[1].1[0], c[0]));
    assert(step_through(t, 1, c, typing) == step_through(t, 2, c, typing));
    assert(t[2].1[0].1[0] != c[0].1[0] || !mods_match_exactly(c[0].0, t[2].1[0].0));
    assert(!press_matches(t[2].1[0], c[0]));
    assert(step_through(t, 2, c, typing) == step_through(t, 3, c, typing));
    assert(t[3].1[0].1[0] != c[0].1[0] || !mods_match_exactly(c[0].0, t[3].1[0].0));
    assert(!press_matches(t[3].1[0], c[0]));
    assert(step_through(t, 3, c, typing) == step_through(t, 4, c, typing));
}

proof fn lemma_press_find(typing: bool)
    ensures
        step_of(Seq::empty(), (command_only(), "F"@), typing) == Step::Fired(Action::Find),
{
    reveal_strlit("P");
    reveal_strlit("T");
    reveal_strlit("W");
    reveal_strlit("S");
    reveal_strlit("J");
    reveal_strlit("F");
    reveal_strlit("X");
    reveal_strlit("O");
    reveal_strlit("U");
    let t = binding_table();
    let c = Seq::<PressV>::empty().push((command_only(), "F"@));
    assert(c =~= seq![(command_only(), "F"@)]);
    assert(t[0].1[0].1[0] != c[0].1[0] || !mods_match_exactly(c[0].0, t[0].1[0].0));
    assert(!press_matches(t[0].1[0], c[0]));
    assert(step_through(t, 0, c, typing) == step_through(t, 1, c, typing));
    assert(t[1].1[0].1[0] != c[0].1[0] || !mods_match_exactly(c[0].0, t[1].1[0].0));
    assert(!press_matches(t[1].1[0], c[0]));
    assert(step_through(t, 1, c, typing) == step_through(t, 2, c, typing));
    assert(t[2].1[0].1[0] != c[0].1[0] || !mods_match_exactly(c[0].0, t[2].1[0].0));
    assert(!press_matches(t[2].1[0], c[0]));
    assert(step_through(t, 2, c, typing) == step_through(t, 3, c, typing));
    assert(t[3].1[0].1[0] != c[0].1[0] || !mods_match_exactly(c[0].0, t[3].1[0].0));
    assert(!press_matches(t[3].1[0], c[0]));
    assert(step_through(t, 3, c, typing) == step_through(t, 4, c, typing));
    assert(t[4].1[0].1[0] != c[0].1[0] || !mods_match_exactly(c[0].0, t[4].1[0].0));
    assert(!press_matches(t[4].1[0], c[0]));
    assert(step_through(t, 4, c, typing) == step_through(t, 5, c, typing));
}

proof fn lemma_press_prefix(typing: bool)
    ensures
        step_of(Seq::empty(), (ctrl_only(), "X"@), typing) == Step::Armed,
{
    reveal_strlit("P");
    reveal_strlit("T");
    reveal_strlit("W");
    reveal_strlit("S");
    reveal_strlit("J");
    reveal_strlit("F");
    reveal_strlit("X");
    reveal_strlit("O");
    reveal_strlit("U");
    let t = binding_table();
    let c = Seq::<PressV>::empty().push((ctrl_only(), "X"@));
    assert(c =~= seq![(ctrl_only(), "X"@)]);
    assert(t[0].1[0].1[0] != c[0].1[0] || !mods_match_exactly(c[0].0, t[0].1[0].0));
    assert(!press_matches(t[0].1[0], c[0]));
    assert(step_through(t, 0, c, typing) == step_through(t, 1, c, typing));
    assert(t[1].1[0].1[0] != c[0].1[0] || !mods_match_exactly(c[0].0, t[1].1[0].0));
    assert(!press_matches(t[1].1[0], c[0]));
    assert(step_through(t, 1, c, typing) == step_through(t, 2, c, typing));
    assert(t[2].1[0].1[0] != c[0].1[0] || !mods_match_exactly(c[0].0, t[2].1[0].0));
    assert(!press_matches(t[2].1[0], c[0]));
    assert(step_through(t, 2, c, typing) == step_through(t, 3, c, typing));
    assert(t[3].1[0].1[0] != c[0].1[0] || !mods_match_exactly(c[0].0, t[3].1[0].0));
    assert(!press_matches(t[3].1[0], c[0]));
    assert(step_through(t, 3, c, typing) == step_through(t, 4, c, typing));
    assert(t[4].1[0].1[0] != c[0].1[0] || !mods_match_exactly(c[0].0, t[4].1[0].0));
    assert(!press_matches(t[4].1[0], c[0]));
    assert(step_through(t, 4, c, typing) == step_through(t, 5, c, typing));
    assert(t[5].1[0].1[0] != c[0].1[0] || !mods_match_exactly(c[0].0, t[5].1[0].0));
    assert(!press_matches(t[5].1[0], c[0]));
    assert(step_through(t, 5, c, typing) == step_through(t, 6, c, typing));
    assert(t[6].1.take(1) =~= c);
}

proof fn lemma_press_advance(typing: bool)
    ensures
        step_of(Seq::empty(), (no_mods(), "S"@), typing) == if typing {
            Step::Passed
        } else {
            Step::Fired(Action::AdvanceHunk)
        },
{
    reveal_strlit("P");
    reveal_strlit("T");
    reveal_strlit("W");
    reveal_strlit("S");
    reveal_strlit("J");
    reveal_strlit("F");
    reveal_strlit("X");
    reveal_strlit("O");
    reveal_strlit("U");
    let t = binding_table();
    let c = Seq::<PressV>::empty().push((no_mods(), "S"@));
    assert(c =~= seq![(no_mods(), "S"@)]);
    assert(t[0].1[0].1[0] != c[0].1[0] || !mods_match_exactly(c[0].0, t[0].1[0].0));
    assert(!press_matches(t[0].1[0], c[0]));
    assert(step_through(t, 0, c, typing) == step_through(t, 1, c, typing));
    assert(t[1].1[0].1[0] != c[0].1[0] || !mods_match_exactly(c[0].0, t[1].1[0].0));
    assert(!press_matches(t[1].1[0], c[0]));
    assert(step_through(t, 1, c, typing) == step_through(t, 2, c, typing));
    assert(t[2].1[0].1[0] != c[0].1[0] || !mods_match_exactly(c[0].0, t[2].1[0].0));
    assert(!press_matches(t[2].1[0], c[0]));
    assert(step_through(t, 2, c, typing) == step_through(t, 3, c, typing));
    assert(t[3].1[0].1[0] != c[0].1[0] || !mods_match_exactly(c[0].0, t[3].1[0].0));
    assert(!press_matches(t[3].1[0], c[0]));
    assert(step_through(t, 3, c, typing) == step_through(t, 4, c, typing));
    assert(t[4].1[0].1[0] != c[0].1[0] || !mods_match_exactly(c[0].0, t[4].1[0].0));
    assert(!press_matches(t[4].1[0], c[0]));
    assert(step_through(t, 4, c, typing) == step_through(t, 5, c, typing));
    assert(t[5].1[0].1[0] != c[0].1[0] || !mods_match_exactly(c[0].0, t[5].1[0].0));
    assert(!press_matches(t[5].1[0], c[0]));
    assert(step_through(t, 5, c, typing) == step_through(t, 6, c, typing));
    assert(t[6].1[0].1[0] != c[0].1[0] || !mods_match_exactly(c[0].0, t[6].1[0].0));
    assert(!press_matches(t[6].1[0], c[0]));
    assert(t[6].1.take(1) =~= seq![t[6].1[0]]);
    assert(!chord_matches(t[6].1.take(1), c)) by {
        assert(t[6].1.take(1)[0] == t[6].1[0]);
    }
    assert(!chord_matches(t[6].1, c));
    assert(step_through(t, 6, c, typing) == step_through(t, 7, c, typing));
    if typing {
    assert(step_through(t, 7, c, typing) == step_through(t, 8, c, typing));
        assert(t[8].1[0].1[0] != c[0].1[0] || !mods_match_exactly(c[0].0, t[8].1[0].0));
        assert(!press_matches(t[8].1[0], c[0]));
    assert(step_through(t, 8, c, typing) == step_through(t, 9, c, typing));
    }
}

proof fn lemma_press_reverse(typing: bool)
    ensures
        step_of(Seq::empty(), (no_mods(), "U"@), typing) == if typing {
            Step::Passed
        } else {
            Step::Fired(Action::ReverseHunk)
        },
{
    reveal_strlit("P");
    reveal_strlit("T");
    reveal_strlit("W");
    reveal_strlit("S");
    reveal_strlit("J");
    reveal_strlit("F");
    reveal_strlit("X");
    reveal_strlit("O");
    reveal_strlit("U");
    let t = binding_table();
    let c = Seq::<PressV>::empty().push((no_mods(), "U"@));
    assert(c =~= seq![(no_mods(), "U"@)]);
    assert(t[0].1[0].1[0] != c[0].1[0] || !mods_match_exactly(c[0].0, t[0].1[0].0));
    assert(!press_matches(t[0].1[0], c[0]));
    assert(step_through(t, 0, c, typing) == step_through(t, 1, c, typing));
    assert(t[1].1[0].1[0] != c[0].1[0] || !mods_match_exactly(c[0].0, t[1].1[0].0));
    assert(!press_matches(t[1].1[0], c[0]));
    assert(step_through(t, 1, c, typing) == step_through(t, 2, c, typing));
    assert(t[2].1[0].1[0] != c[0].1[0] || !mods_match_exactly(c[0].0, t[2].1[0].0));
    assert(!press_matches(t[2].1[0], c[0]));
    assert(step_through(t, 2, c, typing) == step_through(t, 3, c, typing));
    assert(t[3].1[0].1[0] != c[0].1[0] || !mods_match_exactly(c[0].0, t[3].1[0].0));
    assert(!press_matches(t[3].1[0], c[0]));
    assert(step_through(t, 3, c, typing) == step_through(t, 4, c, typing));
    assert(t[4].1[0].1[0] != c[0].1[0] || !mods_match_exactly(c[0].0, t[4].1[0].0));
    assert(!press_matches(t[4].1[0], c[0]));
    assert(step_through(t, 4, c, typing) == step_through(t, 5, c, typing));
    assert(t[5].1[0].1[0] != c[0].1[0] || !mods_match_exactly(c[0].0, t[5].1[0].0));
    assert(!press_matches(t[5].1[0], c[0]));
    assert(step_through(t, 5, c, typing) == step_through(t, 6, c, typing));
    assert(t[6].1[0].1[0] != c[0].1[0] || !mods_match_exactly(c[0].0, t[6].1[0].0));
    assert(!press_matches(t[6].1[0], c[0]));
    assert(t[6].1.take(1) =~= seq![t[6].1[0]]);
    assert(!chord_matches(t[6].1.take(1), c)) by {
        assert(t[6].1.take(1)[0] == t[6].1[0]);
    }
    assert(!chord_matches(t[6].1, c));
    assert(step_through(t, 6, c, typing) == step_through(t, 7, c, typing));
    assert(t[7].1[0].1[0] != c[0].1[0] || !mods_match_exactly(c[0].0, t[7].1[0].0));
    assert(!press_matches(t[7].1[0], c[0]));
    assert(step_through(t, 7, c, typing) == step_through(t, 8, c, typing));
    if typing {
    assert(step_through(t, 8, c, typing) == step_through(t, 9, c, typing));
    }
}

proof fn lemma_press_next_frame(typing: bool)
    ensures
        step_of(seq![(ctrl_only(), "X"@)], (no_mods(), "O"@), typing) == Step::Fired(Action::FocusNextFrame),
{
    reveal_strlit("P");
    reveal_strlit("T");
    reveal_strlit("W");
    reveal_strlit("S");
    reveal_strlit("J");
    reveal_strlit("F");
    reveal_strlit("X");
    reveal_strlit("O");
    reveal_strlit("U");
    let t = binding_table();
    let c = seq![(ctrl_only(), "X"@)].push((no_mods(), "O"@));
    assert(c =~= t[6].1);
    assert(step_through(t, 0, c, typing) == step_through(t, 1, c, typing));
    assert(step_through(t, 1, c, typing) == step_through(t, 2, c, typing));
    assert(step_through(t, 2, c, typing) == step_through(t, 3, c, typing));
    assert(step_through(t, 3, c, typing) == step_through(t, 4, c, typing));
    assert(step_through(t, 4, c, typing) == step_through(t, 5, c, typing));
    assert(step_through(t, 5, c, typing) == step_through(t, 6, c, typing));
}

/// The shortcuts the window documents do what they are documented to, in a shell or out of
/// one: ⌘⇧P opens the palette, ⌘T a shell tab, ⌘W closes the tab, ⌘S saves, ⌘J turns the
/// theme, ⌘F finds, and `C-x` then `o` moves to the next frame - while a bare `s` or `u` steps
/// through the hunks only outside a shell or a text box, where it would be a letter.
pub proof fn law_the_shortcuts_do_what_they_say(typing: bool)
    ensures
        step_of(Seq::empty(), (command_shift(), "P"@), typing) == Step::Fired(Action::OpenPalette),
        step_of(Seq::empty(), (command_only(), "T"@), typing) == Step::Fired(Action::NewShellTab),
        step_of(Seq::empty(), (command_only(), "W"@), typing) == Step::Fired(Action::CloseTab),
        step_of(Seq::empty(), (command_only(), "S"@), typing) == Step::Fired(Action::SaveFile),
        step_of(Seq::empty(), (command_only(), "J"@), typing) == Step::Fired(Action::ToggleTheme),
        step_of(Seq::empty(), (command_only(), "F"@), typing) == Step::Fired(Action::Find),
        step_of(Seq::empty(), (ctrl_only(), "X"@), typing) == Step::Armed,
        step_of(seq![(ctrl_only(), "X"@)], (no_mods(), "O"@), typing) == Step::Fired(
            Action::FocusNextFrame,
        ),
        step_of(Seq::empty(), (no_mods(), "S"@), typing) == if typing {
            Step::Passed
        } else {
            Step::Fired(Action::AdvanceHunk)
        },
        step_of(Seq::empty(), (no_mods(), "U"@), typing) == if typing {
            Step::Passed
        } else {
            Step::Fired(Action::ReverseHunk)
        },
{
    lemma_press_palette(typing);
    lemma_press_shell_tab(typing);
    lemma_press_close_tab(typing);
    lemma_press_save(typing);
    lemma_press_theme(typing);
    lemma_press_find(typing);
    lemma_press_prefix(typing);
    lemma_press_next_frame(typing);
    lemma_press_advance(typing);
    lemma_press_reverse(typing);
}

/// The chord the window shows for saving is ⌘S.
pub proof fn law_saving_is_shown_as_command_s()
    ensures
        chord_for(binding_table(), 0, Action::SaveFile) == Some(one_press(command_only(), "S"@)),
{
    reveal_with_fuel(chord_for, 5);
}

/// Whether presses are how some chord of the table begins: nothing at all, or the first
/// presses of a chord longer than they are.
pub open spec fn begins_a_chord(armed: Seq<PressV>) -> bool {
    armed.len() == 0 || exists|i: int|
        0 <= i < binding_table().len() && #[trigger] binding_table()[i].1.len() > armed.len()
            && chord_matches(binding_table()[i].1.take(armed.len() as int), armed)
}

proof fn lemma_armed_row(table: Seq<BindingV>, i: int, chord: Seq<PressV>, typing: bool)
    requires
        step_through(table, i, chord, typing) == Step::Armed,
    ensures
        exists|k: int|
            0 <= k < table.len() && #[trigger] table[k].1.len() > chord.len() && chord_matches(
                table[k].1.take(chord.len() as int),
                chord,
            ),
    decreases table.len() - i,
{
    if 0 <= i < table.len() {
        let b = table[i];
        if b.2 == Reach::WhenNotTyping && typing {
            lemma_armed_row(table, i + 1, chord, typing);
        } else if chord_matches(b.1, chord) {
        } else if b.1.len() > chord.len() && chord_matches(b.1.take(chord.len() as int), chord) {
            assert(table[i].1.len() > chord.len());
        } else {
            lemma_armed_row(table, i + 1, chord, typing);
        }
    }
}

/// The map never holds on to presses that lead nowhere: after any press, what it has armed
/// is nothing, or the beginning of a chord some binding still has to finish.
pub proof fn law_what_is_armed_begins_a_chord(armed: Seq<PressV>, press: PressV, typing: bool)
    ensures
        begins_a_chord(armed_after(armed, press, typing)),
{
    if step_of(armed, press, typing) == Step::Armed {
        lemma_armed_row(binding_table(), 0, armed.push(press), typing);
    }
}

/// The same of a whole frame's events: whatever the map was holding, it is left holding
/// nothing or the beginning of a chord.
pub proof fn law_a_frame_leaves_only_a_chord_begun(
    events: Seq<KeyEvent>,
    armed: Seq<PressV>,
    drop_text: bool,
    typing: bool,
)
    requires
        begins_a_chord(armed),
    ensures
        begins_a_chord(resolve_spec(events, armed, drop_text, typing).2),
    decreases events.len(),
{
    if events.len() > 0 {
        let rest = events.drop_first();
        match events[0] {
            KeyEvent::Text => law_a_frame_leaves_only_a_chord_begun(rest, armed, false, typing),
            KeyEvent::Other => law_a_frame_leaves_only_a_chord_begun(rest, armed, drop_text, typing),
            KeyEvent::Pressed(p) => {
                law_what_is_armed_begins_a_chord(armed, p@, typing);
                let next = armed_after(armed, p@, typing);
                law_a_frame_leaves_only_a_chord_begun(rest, next, true, typing);
                law_a_frame_leaves_only_a_chord_begun(rest, next, false, typing);
            },
        }
    }
}

/// One of a frame's input events, as far as the keyboard map cares.
#[derive(Debug)]
pub enum KeyEvent {
    /// A key going down, with the modifiers held.
    Pressed(Press),
    /// The text a key produced, which the platform sends right after the key itself.
    Text,
    /// Anything else: a key coming back up, the pointer, a paste.
    Other,
}

/// What a frame's events came to: the actions they fired, and for each event whether it is
/// left in the input for the panes below.
pub struct Resolved {
    pub fired: Vec<Action>,
    pub kept: Vec<bool>,
}

/// What a run of events fires and keeps, from a map armed with `armed` and - when
/// `drop_text` - a claimed press whose text is still to come.
pub open spec fn resolve_spec(events: Seq<KeyEvent>, armed: Seq<PressV>, drop_text: bool, typing: bool) -> (
    Seq<Action>,
    Seq<bool>,
    Seq<PressV>,
)
    decreases events.len(),
{
    if events.len() == 0 {
        (Seq::empty(), Seq::empty(), armed)
    } else {
        let rest = events.drop_first();
        match events[0] {
            KeyEvent::Text => {
                let (f, k, a) = resolve_spec(rest, armed, false, typing);
                (f, seq![!drop_text] + k, a)
            },
            KeyEvent::Other => {
                let (f, k, a) = resolve_spec(rest, armed, drop_text, typing);
                (f, seq![true] + k, a)
            },
            KeyEvent::Pressed(p) => {
                let step = step_of(armed, p@, typing);
                let next = armed_after(armed, p@, typing);
                match step {
                    Step::Fired(action) => {
                        let (f, k, a) = resolve_spec(rest, next, true, typing);
                        (seq![action] + f, seq![false] + k, a)
                    },
                    Step::Armed => {
                        let (f, k, a) = resolve_spec(rest, next, true, typing);
                        (f, seq![false] + k, a)
                    },
                    Step::Passed => {
                        let (f, k, a) = resolve_spec(rest, next, false, typing);
                        (f, seq![true] + k, a)
                    },
                }
            },
        }
    }
}

/// The keyboard's running state: which prefix, if any, is waiting for its next press.
pub struct Keymap {
    /// The presses of a chord that has begun but not finished - the `C-x` of `C-x o`.
    armed: Vec<Press>,
}

impl View for Keymap {
    type V = Seq<PressV>;

    closed spec fn view(&self) -> Seq<PressV> {
        chord_view(self.armed@)
    }
}

fn chord_prefix_matches(want: &Vec<Press>, n: usize, pressed: &Vec<Press>) -> (yes: bool)
    requires
        n <= want.len(),
    ensures
        yes == chord_matches(chord_view(want@).take(n as int), chord_view(pressed@)),
{
    if n != pressed.len() {
        return false;
    }
    let ghost w = chord_view(want@).take(n as int);
    let ghost p = chord_view(pressed@);
    let mut k: usize = 0;
    while k < n
        invariant
            k <= n <= want.len(),
            n == pressed.len(),
            w == chord_view(want@).take(n as int),
            p == chord_view(pressed@),
            forall|m: int| 0 <= m < k ==> #[trigger] press_matches(w[m], p[m]),
        decreases n - k,
    {
        assert(w[k as int] == want@[k as int]@);
        assert(p[k as int] == pressed@[k as int]@);
        let same_key = want[k].key == pressed[k].key;
        if !same_key || !matches_exact(pressed[k].mods, want[k].mods) {
            assert(!press_matches(w[k as int], p[k as int]));
            return false;
        }
        k = k + 1;
    }
    true
}

impl Keymap {
    pub fn new() -> (keymap: Keymap)
        ensures
            keymap@ == Seq::<PressV>::empty(),
    {
        let keymap = Keymap { armed: Vec::new() };
        assert(keymap@ =~= Seq::<PressV>::empty());
        keymap
    }

    /// Whether a prefix is waiting for the press that completes it, which the UI says so.
    pub fn armed_prefix(&self) -> (armed: Option<&Vec<Press>>)
        ensures
            armed is Some == (self@.len() > 0),
            armed matches Some(chord) ==> chord_view(chord@) == self@,
    {
        if self.armed.len() > 0 {
            Some(&self.armed)
        } else {
            None
        }
    }

    /// What one press does to the map: it finishes a chord, begins one, or passes.
    pub fn step(&mut self, press: Press, typing: bool) -> (step: Step)
        ensures
            step == step_of(old(self)@, press@, typing),
            final(self)@ == armed_after(old(self)@, press@, typing),
    {
        let mut chord: Vec<Press> = Vec::new();
        std::mem::swap(&mut chord, &mut self.armed);
        let ghost armed = chord_view(chord@);
        chord.push(press);
        assert(chord_view(chord@) =~= armed.push(press@));
        let table = bindings();
        let ghost spec_table = binding_table();
        let mut i: usize = 0;
        while i < table.len()
            invariant
                i <= table.len(),
                table@.map_values(|b: Binding| binding_view(b)) == spec_table,
                spec_table == binding_table(),
                chord_view(chord@) == armed.push(press@),
                step_through(spec_table, 0, armed.push(press@), typing) == step_through(
                    spec_table,
                    i as int,
                    armed.push(press@),
                    typing,
                ),
                self.armed@.len() == 0,
                armed == old(self)@,
            decreases table.len() - i,
        {
            let b = &table[i];
            assert(spec_table[i as int] == binding_view(*b));
            if b.reach == Reach::WhenNotTyping && typing {
                i = i + 1;
                continue;
            }
            let n = chord.len();
            assert(chord_view(b.chord@).take(b.chord.len() as int) =~= chord_view(b.chord@));
            if chord_prefix_matches(&b.chord, b.chord.len(), &chord) {
                assert(self@ =~= Seq::<PressV>::empty());
                return Step::Fired(b.action);
            }
            if b.chord.len() > n && chord_prefix_matches(&b.chord, n, &chord) {
                self.armed = chord;
                return Step::Armed;
            }
            i = i + 1;
        }
        assert(self@ =~= Seq::<PressV>::empty());
        Step::Passed
    }

    /// Take a frame's events and answer the actions they fired, and which events are left for
    /// the panes below.
    ///
    /// Presses the map claims are taken out, so a shell below does not also receive them - and
    /// so is the text a claimed press produced, which the platform sends right after the key,
    /// or the letter would still be typed. `typing` says whether the keyboard is in a shell or
    /// a text box, which is what holds back the bare-letter bindings.
    pub fn resolve(&mut self, events: Vec<KeyEvent>, typing: bool) -> (resolved: Resolved)
        ensures
            (resolved.fired@, resolved.kept@, final(self)@) == resolve_spec(
                events@,
                old(self)@,
                false,
                typing,
            ),
    {
        let ghost all = events@;
        let mut fired: Vec<Action> = Vec::new();
        let mut kept: Vec<bool> = Vec::new();
        let mut drop_next_text = false;
        let mut i: usize = 0;
        assert(all.skip(0) =~= all);
        while i < events.len()
            invariant
                i <= events.len(),
                all == events@,
                ({
                    let (f, k, a) = resolve_spec(all.skip(i as int), self@, drop_next_text, typing);
                    (fired@ + f, kept@ + k, a) == resolve_spec(all, old(self)@, false, typing)
                }),
            decreases events.len() - i,
        {
            let ghost rest = all.skip(i + 1);
            assert(all.skip(i as int).drop_first() =~= rest);
            assert(all.skip(i as int)[0] == all[i as int]);
            let ghost before_f = fired@;
            let ghost before_k = kept@;
            match &events[i] {
                KeyEvent::Text => {
                    kept.push(!drop_next_text);
                    drop_next_text = false;
                    let ghost (f, k, a) = resolve_spec(rest, self@, false, typing);
                    assert(before_k + (seq![kept@.last()] + k) =~= kept@ + k);
                },
                KeyEvent::Other => {
                    kept.push(true);
                    let ghost (f, k, a) = resolve_spec(rest, self@, drop_next_text, typing);
                    assert(before_k + (seq![true] + k) =~= kept@ + k);
                },
                KeyEvent::Pressed(press) => {
                    let step = self.step(press.duplicate(), typing);
                    match step {
                        Step::Fired(action) => {
                            fired.push(action);
                            kept.push(false);
                            drop_next_text = true;
                            let ghost (f, k, a) = resolve_spec(rest, self@, true, typing);
                            assert(before_f + (seq![action] + f) =~= fired@ + f);
                            assert(before_k + (seq![false] + k) =~= kept@ + k);
                        },
                        Step::Armed => {
                            kept.push(false);
                            drop_next_text = true;
                            let ghost (f, k, a) = resolve_spec(rest, self@, true, typing);
                            assert(before_k + (seq![false] + k) =~= kept@ + k);
                        },
                        Step::Passed => {
                            kept.push(true);
                            drop_next_text = false;
                            let ghost (f, k, a) = resolve_spec(rest, self@, false, typing);
                            assert(before_k + (seq![true] + k) =~= kept@ + k);
                        },
                    }
                },
            }
            i = i + 1;
        }
        assert(all.skip(events.len() as int).len() == 0);
        assert(fired@ =~= fired@ + Seq::<Action>::empty());
        assert(kept@ =~= kept@ + Seq::<bool>::empty());
        Resolved { fired, kept }
    }
}

/// What `if held { word } else { nothing }` reads as.
pub open spec fn if_held(held: bool, word: Seq<char>) -> Seq<char> {
    if held {
        word
    } else {
        Seq::empty()
    }
}

/// One press written the way it is spoken. A press with a command modifier is a platform
/// shortcut and reads as `⌘`, with the other modifiers spelled out before it; one built on
/// control or alt is an emacs-style chord and reads the way emacs writes it, key in lowercase.
pub open spec fn press_words(p: PressV) -> Seq<char> {
    if p.0.command || p.0.mac_cmd {
        if_held(p.0.ctrl, "ctrl "@) + if_held(p.0.alt, "alt "@) + if_held(p.0.shift, "shift "@)
            + "\u{2318}"@ + p.1
    } else {
        if_held(p.0.ctrl, "C-"@) + if_held(p.0.alt, "M-"@) + if_held(p.0.shift, "S-"@)
            + lowercase_of(p.1)
    }
}

/// A chord written the way it is spoken: its presses, a space between each.
pub open spec fn chord_words(chord: Seq<PressV>) -> Seq<char>
    decreases chord.len(),
{
    if chord.len() == 0 {
        Seq::empty()
    } else if chord.len() == 1 {
        press_words(chord[0])
    } else {
        chord_words(chord.drop_last()) + " "@ + press_words(chord.last())
    }
}

fn append_if(out: &mut String, held: bool, word: &str)
    ensures
        final(out)@ == old(out)@ + if_held(held, word@),
{
    if held {
        out.append(word);
    } else {
        assert(old(out)@ + Seq::<char>::empty() =~= old(out)@);
    }
}

pub fn describe_press(press: &Press) -> (words: String)
    ensures
        words@ == press_words(press@),
{
    let mut out = String::new();
    if press.mods.command || press.mods.mac_cmd {
        append_if(&mut out, press.mods.ctrl, "ctrl ");
        append_if(&mut out, press.mods.alt, "alt ");
        append_if(&mut out, press.mods.shift, "shift ");
        out.append("\u{2318}");
        out.append(press.key.as_str());
        assert(out@ =~= press_words(press@));
        return out;
    }
    append_if(&mut out, press.mods.ctrl, "C-");
    append_if(&mut out, press.mods.alt, "M-");
    append_if(&mut out, press.mods.shift, "S-");
    let lowered = to_lowercase(press.key.as_str());
    out.append(lowered.as_str());
    assert(out@ =~= press_words(press@));
    out
}

/// A chord written the way it is spoken: `shift ⌘P`, or `C-x o` for a prefixed one.
pub fn describe(chord: &Vec<Press>) -> (words: String)
    ensures
        words@ == chord_words(chord_view(chord@)),
{
    let mut out = String::new();
    let mut i: usize = 0;
    while i < chord.len()
        invariant
            i <= chord.len(),
            out@ == chord_words(chord_view(chord@).take(i as int)),
        decreases chord.len() - i,
    {
        let ghost next = chord_view(chord@).take(i + 1);
        assert(next.drop_last() =~= chord_view(chord@).take(i as int));
        assert(next.last() == chord@[i as int]@);
        if i > 0 {
            out.append(" ");
        }
        let words = describe_press(&chord[i]);
        out.append(words.as_str());
        i = i + 1;
        assert(out@ =~= chord_words(chord_view(chord@).take(i as int)));
    }
    assert(chord_view(chord@).take(chord.len() as int) =~= chord_view(chord@));
    out
}

/// The chord of the first row of the table, from row `i` down, that fires an action.
pub open spec fn chord_for(table: Seq<BindingV>, i: int, action: Action) -> Option<Seq<PressV>>
    decreases table.len() - i,
{
    if i < 0 || i >= table.len() {
        None
    } else if table[i].0 == action {
        Some(table[i].1)
    } else {
        chord_for(table, i + 1, action)
    }
}

/// The chord that fires an action, for anything that shows the keyboard to the user.
pub fn chord_of(action: Action) -> (chord: Option<Vec<Press>>)
    ensures
        match chord {
            Some(c) => chord_for(binding_table(), 0, action) == Some(chord_view(c@)),
            None => chord_for(binding_table(), 0, action) is None,
        },
{
    let mut table = bindings();
    let ghost spec_table = binding_table();
    let mut i: usize = 0;
    while i < table.len()
        invariant
            i <= table.len(),
            table@.map_values(|b: Binding| binding_view(b)) == spec_table,
            spec_table == binding_table(),
            chord_for(spec_table, 0, action) == chord_for(spec_table, i as int, action),
        decreases table.len() - i,
    {
        assert(spec_table[i as int] == binding_view(table@[i as int]));
        if table[i].action == action {
            let b = table.remove(i);
            return Some(b.chord);
        }
        i = i + 1;
    }
    None
}

/// Whether what was pressed is this chord.
pub fn matches(chord: &Vec<Press>, pressed: &Vec<Press>) -> (yes: bool)
    ensures
        yes == chord_matches(chord_view(chord@), chord_view(pressed@)),
{
    assert(chord_view(chord@).take(chord.len() as int) =~= chord_view(chord@));
    chord_prefix_matches(chord, chord.len(), pressed)
}

} // verus!
