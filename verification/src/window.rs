//! The window itself: what its title bar says, and whether a quit is let through.

use vstd::prelude::*;

use crate::paths::{inside_spec, main_separator, path_inside_folder};
use crate::text::{decimal, push_decimal, trim, trimmed};

verus! {

/// What the title bar says: the program, and the project the window is open on once there is
/// one - written from `~` when it lies under the home folder, which is how a path is read at a
/// glance. Several windows on several projects is the ordinary way to work, and the title bar
/// is the only place that says which is which. Paths are split at `separator`.
pub open spec fn title_spec(
    program: Seq<char>,
    project: Option<Seq<char>>,
    home: Option<Seq<char>>,
    separator: char,
) -> Seq<char> {
    match project {
        None => "🌚 "@ + program,
        Some(project) => {
            let shortened = match home {
                Some(home) => if home.len() > 0 {
                    match inside_spec(home, project, separator) {
                        Some(rest) => "~/"@ + rest,
                        None => project,
                    }
                } else {
                    project
                },
                None => project,
            };
            "🌚 "@ + program + " | "@ + shortened
        },
    }
}

/// A string that may be missing, as the spec reads it.
pub open spec fn seq_of(text: Option<&str>) -> Option<Seq<char>> {
    match text {
        Some(t) => Some(t@),
        None => None,
    }
}

/// What the title bar says - see [`title_spec`]. `home` is the home folder, as the
/// environment names it; paths are read as canonical ones, split at the platform's separator
/// (`std::path::MAIN_SEPARATOR`: `/` or a backslash, whichever the platform uses).
pub fn window_title(program: &str, project: Option<&str>, home: Option<&str>) -> (title: String)
    ensures
        exists|separator: char|
            (separator == '/' || separator == '\\') && title@ == #[trigger] title_spec(
                program@,
                seq_of(project),
                seq_of(home),
                separator,
            ),
{
    let separator = main_separator();
    let ghost asked = (seq_of(project), seq_of(home));
    let mut title = String::from_str("🌚 ");
    title.append(program);
    let project = match project {
        None => {
            assert(title@ == title_spec(program@, asked.0, asked.1, separator));
            return title;
        },
        Some(project) => project,
    };
    title.append(" | ");
    let rest = match home {
        Some(home) => if home.unicode_len() > 0 {
            path_inside_folder(home, project, separator)
        } else {
            None
        },
        None => None,
    };
    match rest {
        Some(rest) => {
            title.append("~/");
            title.append(rest.as_str());
        },
        None => {
            title.append(project);
        },
    }
    assert(title@ == title_spec(program@, asked.0, asked.1, separator));
    title
}

/// What a quit asked for while shells are running comes to.
#[derive(Debug, PartialEq)]
pub enum Quit {
    /// Let it through.
    Go,
    /// Hold it back, say this, and let a second quit through until `armed_until`.
    Warn { said: String, armed_until: u64 },
}

/// What warning of running shells says.
pub open spec fn shells_running_words(running: nat) -> Seq<char> {
    if running == 1 {
        "a shell is still running - quit again to close it"@
    } else {
        decimal(running) + " shells are still running - quit again to close them"@
    }
}

/// Whether a quit asked for at `now` is held back because `running` shells are still running
/// a command. The warning arms the quit for `confirm_window` milliseconds - as long as the
/// warning can still be read - and a quit while it is armed goes through; a quit an hour later
/// is as much of a surprise as the first.
pub fn quit_would_kill_shells(
    close_requested: bool,
    running: usize,
    armed_until: Option<u64>,
    now: u64,
    confirm_window: u64,
) -> (quit: Quit)
    requires
        now + confirm_window <= u64::MAX,
    ensures
        if !close_requested || running == 0 || (armed_until matches Some(until) && now < until) {
            quit == Quit::Go
        } else {
            quit matches Quit::Warn { said, armed_until } && armed_until == now + confirm_window
                && said@ == shells_running_words(running as nat)
        },
{
    if !close_requested || running == 0 {
        return Quit::Go;
    }
    match armed_until {
        Some(until) => if now < until {
            return Quit::Go;
        },
        None => {},
    }
    let said = if running == 1 {
        String::from_str("a shell is still running - quit again to close it")
    } else {
        let mut said = String::new();
        push_decimal(&mut said, running as u64);
        said.append(" shells are still running - quit again to close them");
        said
    };
    Quit::Warn { said, armed_until: now + confirm_window }
}

/// Which repo the window opens from its first screen this frame: a recent project clicked, or
/// else the path typed, trimmed, once the button under it or Enter asks for it - and never an
/// empty one. `None` while nothing has been asked for.
pub fn path_to_open(typed: &str, go: bool, entered: bool, recent: Option<String>) -> (opens: Option<String>)
    ensures
        match recent {
            Some(r) => opens == Some(r),
            None => if (go || entered) && trimmed(typed@).len() > 0 {
                opens matches Some(p) && p@ == trimmed(typed@)
            } else {
                opens is None
            },
        },
{
    if recent.is_some() {
        return recent;
    }
    let path = trim(typed);
    if (go || entered) && path.unicode_len() > 0 {
        Some(String::from_str(path))
    } else {
        None
    }
}

/// Whether the window closes this frame: closing the last tab closes it, since an empty
/// workspace has nothing to show and no way back but the palette - once it has had a tab, so
/// a window that opens empty is not shut at once. `had_panes` keeps whether it has.
pub fn closes_when_empty(had_panes: &mut bool, empty: bool) -> (close: bool)
    ensures
        close == (empty && *old(had_panes)),
        *final(had_panes) == (*old(had_panes) || !empty),
{
    if empty {
        *had_panes
    } else {
        *had_panes = true;
        false
    }
}

} // verus!
