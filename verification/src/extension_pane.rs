//! A pane an extension draws. The script runs on a thread of its own; this is what the window
//! keeps of it between frames, and which of the keyboard's events the script hears.

use vstd::prelude::*;

use crate::input::Modifiers;
use crate::text::{push_char, same_text};

verus! {

/// One extension pane, as the window keeps it between frames.
pub struct ExtensionPane {
    /// Whether a script is going for it. `false` for one that could not be started, which
    /// `error` says why.
    pub running: bool,
    pub error: Option<String>,
    /// The selected row the table was last scrolled to.
    pub scrolled_to: Option<usize>,
    /// Whether the script has an `on_key`. One without leaves every key to the window.
    pub takes_keys: bool,
    /// Whether the pane is in front in its frame, as the script was last told.
    pub visible: bool,
}

impl ExtensionPane {
    /// A pane whose script could not be started, saying why.
    pub fn failed(error: String) -> (pane: ExtensionPane)
        ensures
            !pane.running,
            pane.error == Some(error),
            pane.scrolled_to is None,
            !pane.takes_keys,
            pane.visible,
    {
        ExtensionPane {
            running: false,
            error: Some(error),
            scrolled_to: None,
            takes_keys: false,
            visible: true,
        }
    }

    /// A pane whose script has just been started.
    pub fn started() -> (pane: ExtensionPane)
        ensures
            pane.running,
            pane.error is None,
            pane.scrolled_to is None,
            !pane.takes_keys,
            pane.visible,
    {
        ExtensionPane { running: true, error: None, scrolled_to: None, takes_keys: false, visible: true }
    }

    /// Whether the pane is in front now. Says whether that is news the script is to be told.
    pub fn set_visible(&mut self, visible: bool) -> (tell: bool)
        ensures
            tell == (visible != old(self).visible),
            *final(self) == (ExtensionPane { visible, ..*old(self) }),
    {
        if visible != self.visible {
            self.visible = visible;
            true
        } else {
            false
        }
    }

    /// The table is scrolled when the selection moves, and left where the wheel put it
    /// otherwise: the row to scroll to, given the row selected now.
    pub fn scroll_to(&mut self, selected_row: Option<usize>) -> (scroll: Option<usize>)
        ensures
            scroll == (if selected_row != old(self).scrolled_to {
                selected_row
            } else {
                None
            }),
            *final(self) == (ExtensionPane { scrolled_to: selected_row, ..*old(self) }),
    {
        let moved = match (selected_row, self.scrolled_to) {
            (Some(a), Some(b)) => a != b,
            (None, None) => false,
            _ => true,
        };
        self.scrolled_to = selected_row;
        if moved {
            selected_row
        } else {
            None
        }
    }

    /// The script drew: what it said was wrong, if anything, is what the pane says now.
    pub fn drawn(&mut self, error: Option<String>)
        ensures
            *final(self) == (ExtensionPane { error, ..*old(self) }),
    {
        self.error = error;
    }

    /// The script loaded, and said whether it has an `on_key`.
    pub fn loaded(&mut self, takes_keys: bool)
        ensures
            *final(self) == (ExtensionPane { takes_keys, ..*old(self) }),
    {
        self.takes_keys = takes_keys;
    }
}

/// One of a frame's input events, as a script's keys are read from it.
pub enum ScriptEvent {
    /// Text typed.
    Text(String),
    /// A key going down or up, by its name, with the modifiers held.
    Key { name: String, pressed: bool, modifiers: Modifiers },
    /// Anything else.
    Other,
}

/// The keys that type nothing, which a script hears by name.
pub open spec fn named_key(name: Seq<char>) -> bool {
    ||| name == "Enter"@
    ||| name == "Escape"@
    ||| name == "Backspace"@
    ||| name == "Delete"@
    ||| name == "Tab"@
    ||| name == "Up"@
    ||| name == "Down"@
    ||| name == "Left"@
    ||| name == "Right"@
    ||| name == "Home"@
    ||| name == "End"@
    ||| name == "PageUp"@
    ||| name == "PageDown"@
}

/// Whether a chord key is held: such a key, and what it types, is the window's.
pub open spec fn chord_held(modifiers: Modifiers) -> bool {
    modifiers.command || modifiers.ctrl || modifiers.alt
}

/// Whether a script hears an event: text typed with no chord held, or a named key going down
/// with no chord held.
pub open spec fn heard(event: ScriptEvent, chorded: bool) -> bool {
    match event {
        ScriptEvent::Text(_) => !chorded,
        ScriptEvent::Key { name, pressed, modifiers } => pressed && !chord_held(modifiers)
            && named_key(name@),
        ScriptEvent::Other => false,
    }
}

/// What a script hears of an event: each character typed, or the key's name - with `Shift+`
/// before it when shift is held, since `Shift+Tab` is not `Tab`.
pub open spec fn keys_of(event: ScriptEvent) -> Seq<Seq<char>> {
    match event {
        ScriptEvent::Text(typed) => typed@.map_values(|c: char| seq![c]),
        ScriptEvent::Key { name, modifiers, .. } => if modifiers.shift {
            seq!["Shift+"@ + name@]
        } else {
            seq![name@]
        },
        ScriptEvent::Other => Seq::empty(),
    }
}

/// The keys a script hears from a frame's events, in order.
pub open spec fn script_keys_spec(events: Seq<ScriptEvent>, chorded: bool) -> Seq<Seq<char>>
    decreases events.len(),
{
    if events.len() == 0 {
        Seq::empty()
    } else {
        script_keys_spec(events.drop_last(), chorded) + if heard(events.last(), chorded) {
            keys_of(events.last())
        } else {
            Seq::empty()
        }
    }
}

fn is_named_key(name: &String) -> (named: bool)
    ensures
        named == named_key(name@),
{
    let n = name.as_str();
    same_text(n, "Enter") || same_text(n, "Escape") || same_text(n, "Backspace") || same_text(
        n,
        "Delete",
    ) || same_text(n, "Tab") || same_text(n, "Up") || same_text(n, "Down") || same_text(n, "Left")
        || same_text(n, "Right") || same_text(n, "Home") || same_text(n, "End") || same_text(
        n,
        "PageUp",
    ) || same_text(n, "PageDown")
}

fn push_keys_of(keys: &mut Vec<String>, event: &ScriptEvent)
    ensures
        final(keys)@.map_values(|k: String| k@) == old(keys)@.map_values(|k: String| k@) + keys_of(
            *event,
        ),
{
    match event {
        ScriptEvent::Text(typed) => {
            let n = typed.unicode_len();
            let mut i: usize = 0;
            let ghost start = keys@.map_values(|k: String| k@);
            while i < n
                invariant
                    n == typed@.len(),
                    i <= n,
                    keys@.map_values(|k: String| k@) == start + typed@.take(i as int).map_values(
                        |c: char| seq![c],
                    ),
                decreases n - i,
            {
                let c = typed.get_char(i);
                let mut one = String::new();
                push_char(&mut one, c);
                assert(one@ =~= seq![c]);
                let ghost before = keys@;
                keys.push(one);
                assert(keys@.map_values(|k: String| k@) =~= before.map_values(|k: String| k@).push(
                    seq![c],
                ));
                assert(typed@.take(i + 1) =~= typed@.take(i as int).push(c));
                assert(typed@.take(i + 1).map_values(|c: char| seq![c]) =~= typed@.take(
                    i as int,
                ).map_values(|c: char| seq![c]).push(seq![c]));
                i = i + 1;
                assert(keys@.map_values(|k: String| k@) =~= start + typed@.take(i as int).map_values(
                    |c: char| seq![c],
                ));
            }
            assert(typed@.take(n as int) =~= typed@);
        },
        ScriptEvent::Key { name, modifiers, .. } => {
            if modifiers.shift {
                let mut said = String::from_str("Shift+");
                said.append(name.as_str());
                keys.push(said);
            } else {
                keys.push(name.clone());
            }
            assert(keys@.map_values(|k: String| k@) =~= old(keys)@.map_values(|k: String| k@)
                + keys_of(*event));
        },
        ScriptEvent::Other => {
            assert(keys@.map_values(|k: String| k@) =~= old(keys)@.map_values(|k: String| k@)
                + keys_of(*event));
        },
    }
}

/// The keys a script hears from a frame's events, and for each event whether it is left for
/// the window. `chorded` says whether a chord key is held as the frame's text comes in: a
/// character typed with one held - ⌥ on macOS types one - is the window's, like the chord.
pub fn script_keys(events: &Vec<ScriptEvent>, chorded: bool) -> (heard_keys: (Vec<String>, Vec<bool>))
    ensures
        heard_keys.0@.map_values(|k: String| k@) == script_keys_spec(events@, chorded),
        heard_keys.1@.len() == events@.len(),
        forall|i: int| 0 <= i < events@.len() ==> heard_keys.1@[i] == !heard(#[trigger] events@[i], chorded),
{
    let mut keys: Vec<String> = Vec::new();
    let mut kept: Vec<bool> = Vec::new();
    let mut i: usize = 0;
    while i < events.len()
        invariant
            i <= events.len(),
            keys@.map_values(|k: String| k@) == script_keys_spec(events@.take(i as int), chorded),
            kept@.len() == i,
            forall|k: int| 0 <= k < i ==> kept@[k] == !heard(#[trigger] events@[k], chorded),
        decreases events.len() - i,
    {
        let event = &events[i];
        let hears = match event {
            ScriptEvent::Text(_) => !chorded,
            ScriptEvent::Key { name, pressed, modifiers } => *pressed && !(modifiers.command
                || modifiers.ctrl || modifiers.alt) && is_named_key(name),
            ScriptEvent::Other => false,
        };
        proof {
            assert(events@.take(i + 1).drop_last() =~= events@.take(i as int));
            assert(events@.take(i + 1).last() == events@[i as int]);
        }
        if hears {
            push_keys_of(&mut keys, event);
        } else {
            assert(keys@.map_values(|k: String| k@) =~= keys@.map_values(|k: String| k@) + Seq::<Seq<char>>::empty());
        }
        kept.push(!hears);
        i = i + 1;
    }
    assert(events@.take(events.len() as int) =~= events@);
    (keys, kept)
}

/// What a script's text box holds this frame. The script's value stands while the box has not
/// got the keyboard, so a script that clears its filter clears the box; while it has, what is
/// being typed stands, since the script is a keystroke behind it.
pub fn input_follows_script(typed: &mut String, value: &str, has_keyboard: bool)
    ensures
        final(typed)@ == if has_keyboard {
            old(typed)@
        } else {
            value@
        },
{
    if !has_keyboard {
        *typed = String::from_str(value);
    }
}

} // verus!
