//! The keys held down with a press, as the window hands them over.

use vstd::prelude::*;

verus! {

/// The modifier keys held down.
#[derive(Clone, Copy, PartialEq, Eq, Debug, Structural)]
pub struct Modifiers {
    /// Either of the alt keys (option on a Mac).
    pub alt: bool,
    /// Either of the control keys.
    pub ctrl: bool,
    /// Either of the shift keys.
    pub shift: bool,
    /// The Mac command key.
    pub mac_cmd: bool,
    /// The platform's command key: command on a Mac, control everywhere else.
    pub command: bool,
}

impl Modifiers {
    /// No modifier held.
    pub fn none() -> (m: Modifiers)
        ensures
            m.alt == false,
            m.ctrl == false,
            m.shift == false,
            m.mac_cmd == false,
            m.command == false,
    {
        Modifiers {
            alt: false,
            ctrl: false,
            shift: false,
            mac_cmd: false,
            command: false,
        }
    }

    /// Alt alone.
    pub fn alt() -> (m: Modifiers)
        ensures
            m.alt == true,
            m.ctrl == false,
            m.shift == false,
            m.mac_cmd == false,
            m.command == false,
    {
        Modifiers {
            alt: true,
            ctrl: false,
            shift: false,
            mac_cmd: false,
            command: false,
        }
    }

    /// Control alone.
    pub fn ctrl() -> (m: Modifiers)
        ensures
            m.alt == false,
            m.ctrl == true,
            m.shift == false,
            m.mac_cmd == false,
            m.command == false,
    {
        Modifiers {
            alt: false,
            ctrl: true,
            shift: false,
            mac_cmd: false,
            command: false,
        }
    }

    /// Shift alone.
    pub fn shift() -> (m: Modifiers)
        ensures
            m.alt == false,
            m.ctrl == false,
            m.shift == true,
            m.mac_cmd == false,
            m.command == false,
    {
        Modifiers {
            alt: false,
            ctrl: false,
            shift: true,
            mac_cmd: false,
            command: false,
        }
    }

    /// The platform's command key alone.
    pub fn command() -> (m: Modifiers)
        ensures
            m.alt == false,
            m.ctrl == false,
            m.shift == false,
            m.mac_cmd == false,
            m.command == true,
    {
        Modifiers {
            alt: false,
            ctrl: false,
            shift: false,
            mac_cmd: false,
            command: true,
        }
    }

    /// Both sets held together.
    pub fn plus(self, other: Modifiers) -> (both: Modifiers)
        ensures
            both.alt == (self.alt || other.alt),
            both.ctrl == (self.ctrl || other.ctrl),
            both.shift == (self.shift || other.shift),
            both.mac_cmd == (self.mac_cmd || other.mac_cmd),
            both.command == (self.command || other.command),
    {
        Modifiers {
            alt: self.alt || other.alt,
            ctrl: self.ctrl || other.ctrl,
            shift: self.shift || other.shift,
            mac_cmd: self.mac_cmd || other.mac_cmd,
            command: self.command || other.command,
        }
    }
}

} // verus!
