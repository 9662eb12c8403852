//! One file of the repo, open in a tab of its own for reading and editing: where its text came
//! from, whether it has been changed since, and whether it may be written back at all.

use vstd::prelude::*;

use crate::definition::{land, landed, LandAction, Landing, LookedUp};
use crate::blame::{blame_wanted, check_due, default_hash_of, hash_of, BlameChunk, Blaming};
use crate::paths::{extension, extension_spec};
use crate::text::{eq_ignore_ascii_case, eq_ignoring_ascii_case};

verus! {

/// Whether a path names a markdown file: its extension is `md`, in any case.
pub open spec fn names_markdown(file_path: Seq<char>) -> bool {
    match extension_spec(file_path) {
        Some(e) => eq_ignoring_ascii_case(e, "md"@),
        None => false,
    }
}

/// Whether the file is written in markdown, which is what decides if the pane opens on the
/// rendered page and offers the way back to the text.
pub fn is_markdown(file_path: &str) -> (yes: bool)
    ensures
        yes == names_markdown(file_path@),
{
    match extension(file_path) {
        Some(e) => eq_ignore_ascii_case(e.as_str(), "md"),
        None => false,
    }
}

/// Why code actions cannot be asked for at the caret of a tab, if they cannot: a question is
/// out already, the file is outside the repo, no server serves it, or there is no caret.
pub open spec fn code_actions_refusal(editor: FileEditor, asking_already: bool, has_caret: bool) -> Option<
    Seq<char>,
> {
    if asking_already {
        Some("code actions are already being asked for"@)
    } else if editor.outside_the_repo {
        Some(editor.file_path@ + " is outside the repo, and can only be read"@)
    } else if !(editor.asks_language_servers && editor.has_a_server && editor.revision is None) {
        Some("no language server serves "@ + editor.file_path@ + ", so it has no code actions"@)
    } else if !has_caret {
        Some("put the caret on the code first"@)
    } else {
        None
    }
}

/// A file being read or edited, and what has happened to it since it was opened.
pub struct FileEditor {
    pub file_path: String,
    /// The text as it is on disk, as far as this window knows. `None` until it has arrived.
    pub saved: Option<String>,
    /// The text the editor holds, unsaved edits and all.
    pub text: String,
    pub error: Option<String>,
    pub saving: bool,
    /// Whether the file is outside the repo - a dependency's source, landed on by a jump to a
    /// definition. Such a file is there to be read, and no save is offered on it.
    pub outside_the_repo: bool,
    /// Whether the pane shows the markdown rendered rather than its text.
    pub preview: bool,
    /// Set when a close was asked for while there were unsaved edits: the second press goes
    /// through.
    pub close_confirmed: bool,
    /// Whether this pane asks a language server anything.
    pub asks_language_servers: bool,
    /// Whether a language server has been found behind the file.
    pub has_a_server: bool,
    /// Set by a first press of `[reload]`: the second one drops the edits.
    pub reload_confirmed: bool,
    /// How many writes this pane has sent.
    pub writes_sent: u64,
    /// Whether the file is on disk at all: false for a tab on a path nothing is at yet, until
    /// its first save creates it.
    pub on_disk: bool,
    /// When a format was asked for, in milliseconds, while it waits to be sent.
    pub asked_to_format: Option<u64>,
    /// Who last touched each stretch of the file, beside the lines when asked for.
    pub blaming: Blaming,
    /// The commit whose version of the file the tab shows, for a tab on an old version.
    pub revision: Option<String>,
    /// A go-to-definition lookup started in this tab that has come back, waiting for a frame
    /// on which a pane can be opened.
    pub looking_up: Option<LookedUp>,
}

impl FileEditor {
    /// A tab whose text is still on its way. A markdown file opens on its rendered page.
    pub fn loading(file_path: String, asks_language_servers: bool) -> (editor: FileEditor)
        ensures
            editor.file_path@ == file_path@,
            editor.saved is None,
            editor.text@ == Seq::<char>::empty(),
            editor.error is None,
            !editor.saving,
            !editor.outside_the_repo,
            editor.preview == names_markdown(file_path@),
            !editor.close_confirmed,
            editor.asks_language_servers == asks_language_servers,
            !editor.has_a_server,
            !editor.reload_confirmed,
            editor.writes_sent == 0,
            editor.on_disk,
            editor.asked_to_format is None,
            !editor.blaming@.on,
            editor.blaming@.shown is None,
            editor.revision is None,
            editor.looking_up is None,
    {
        let preview = is_markdown(file_path.as_str());
        FileEditor {
            file_path,
            saved: None,
            text: String::new(),
            error: None,
            saving: false,
            outside_the_repo: false,
            preview,
            close_confirmed: false,
            asks_language_servers,
            has_a_server: false,
            reload_confirmed: false,
            writes_sent: 0,
            on_disk: true,
            asked_to_format: None,
            blaming: Blaming::new(),
            revision: None,
            looking_up: None,
        }
    }

    /// A tab on the file as one commit had it. Its blame is up from the start, it asks no
    /// language server anything, and a markdown file opens on its text.
    pub fn at_revision(file_path: String, revision: String) -> (editor: FileEditor)
        ensures
            editor.file_path@ == file_path@,
            editor.revision matches Some(r) && r@ == revision@,
            editor.saved is None,
            !editor.preview,
            !editor.asks_language_servers,
            editor.blaming@.on,
            editor.blaming@.shown is None,
            editor.on_disk,
            !editor.outside_the_repo,
    {
        let mut editor = FileEditor::loading(file_path, false);
        editor.revision = Some(revision);
        editor.preview = false;
        editor.blaming.toggle();
        editor
    }

    /// A tab on a path nothing is at yet: empty, saved as empty, and not on disk until its
    /// first save creates the file. A markdown file opens on its text.
    pub fn new_file(file_path: String, asks_language_servers: bool) -> (editor: FileEditor)
        ensures
            editor.file_path@ == file_path@,
            editor.saved matches Some(s) && s@ == Seq::<char>::empty(),
            editor.text@ == Seq::<char>::empty(),
            !editor.preview,
            !editor.on_disk,
            editor.asks_language_servers == asks_language_servers,
            editor.revision is None,
            !editor.outside_the_repo,
            !editor.blaming@.on,
    {
        let mut editor = FileEditor::loading(file_path, asks_language_servers);
        editor.saved = Some(String::new());
        editor.preview = false;
        editor.on_disk = false;
        editor
    }

    /// A lookup started in this tab has come back: it is kept until a frame can act on it. A
    /// second lookup's answer takes the place of the first's.
    pub fn lookup_answered(&mut self, word: String, landing: Landing)
        ensures
            *final(self) == (FileEditor { looking_up: Some(LookedUp { word, landing }), ..*old(self) }),
    {
        self.looking_up = Some(LookedUp { word, landing });
    }

    /// Act on a lookup that has come back, on a frame where a pane can be opened. While
    /// something else is already opening this frame the answer keeps until the next one rather
    /// than being dropped; otherwise it is taken, and where it sends the window is handed back.
    pub fn follow_lookup(&mut self, something_opening: bool) -> (action: Option<LandAction>)
        ensures
            if something_opening {
                action is None && *final(self) == *old(self)
            } else {
                &&& *final(self) == (FileEditor { looking_up: None, ..*old(self) })
                &&& match old(self).looking_up {
                    Some(l) => action matches Some(a) && landed(l.word, l.landing, a),
                    None => action is None,
                }
            },
    {
        if something_opening {
            return None;
        }
        match self.looking_up.take() {
            Some(looked_up) => Some(land(looked_up.word, looked_up.landing)),
            None => None,
        }
    }

    /// The text on screen, unsaved edits and all.
    pub fn text(&self) -> (text: &str)
        ensures
            text@ == self.text@,
    {
        self.text.as_str()
    }

    /// Whether the file's text has arrived.
    pub fn is_loaded(&self) -> (loaded: bool)
        ensures
            loaded == self.saved is Some,
    {
        self.saved.is_some()
    }

    /// Whether the places of a name can be asked for in this pane: a server is behind the file.
    pub fn offers_places(&self) -> (offers: bool)
        ensures
            offers == (self.asks_language_servers && self.has_a_server),
    {
        self.asks_language_servers && self.has_a_server
    }

    /// Ask for this tab to be formatted once its text has reached the server.
    pub fn ask_to_format(&mut self, now: u64)
        ensures
            *final(self) == (FileEditor { asked_to_format: Some(now), ..*old(self) }),
    {
        self.asked_to_format = Some(now);
    }

    /// When a format was asked for, while it waits to be sent.
    pub fn asked_to_format(&self) -> (asked: Option<u64>)
        ensures
            asked == self.asked_to_format,
    {
        self.asked_to_format
    }

    pub fn stop_asking_to_format(&mut self)
        ensures
            *final(self) == (FileEditor { asked_to_format: None, ..*old(self) }),
    {
        self.asked_to_format = None;
    }

    /// Whether the file is outside the repo, and so read-only.
    pub fn is_outside_the_repo(&self) -> (outside: bool)
        ensures
            outside == self.outside_the_repo,
    {
        self.outside_the_repo
    }

    /// The commit whose version of the file the tab shows, for a tab on an old version.
    pub fn revision(&self) -> (revision: Option<&str>)
        ensures
            match self.revision {
                Some(r) => revision matches Some(s) && s@ == r@,
                None => revision is None,
            },
    {
        match &self.revision {
            Some(r) => Some(r.as_str()),
            None => None,
        }
    }

    /// Whether the text can only be read: a file outside the repo, or a file as an old commit
    /// had it. Neither has anywhere for an edit to go.
    pub fn is_read_only(&self) -> (read_only: bool)
        ensures
            read_only == (self.outside_the_repo || self.revision is Some),
    {
        self.outside_the_repo || self.revision.is_some()
    }

    /// Whether the server behind the file may be asked for edits to it: a server is behind it,
    /// and the file is one of the repo's own as it is now.
    pub fn offers_edits(&self) -> (offers: bool)
        ensures
            offers == (self.asks_language_servers && self.has_a_server && !self.outside_the_repo
                && self.revision is None),
    {
        self.asks_language_servers && self.has_a_server && !self.is_read_only()
    }

    /// Whether the text differs from what was saved. Nothing that has not arrived can have
    /// changed.
    pub fn is_dirty(&self) -> (dirty: bool)
        ensures
            dirty == (self.saved matches Some(s) && s@ != self.text@),
    {
        match &self.saved {
            Some(saved) => {
                let same = *saved == self.text;
                !same
            },
            None => false,
        }
    }
}

/// What a blame is asked about: the file as a commit had it, or the text in the tab.
#[derive(Debug)]
pub enum BlameOf {
    Revision(String),
    Text(String),
}

/// What keeping a tab's blame came to this frame.
#[derive(Debug)]
pub enum BlameStep {
    /// Nothing was checked: the column is down, the text has not arrived, or the last check was
    /// less than an interval ago.
    NotDue,
    /// The text was checked, and hashed to `text_hash`, and no blame is due.
    Checked { text_hash: u64 },
    /// A blame is due, of this, for the text hashed to `text_hash`; it is out from now on.
    Ask { text_hash: u64, of: BlameOf },
}

impl FileEditor {
    /// Whether the tab is a file with a history to ask about: its text has arrived, and it is
    /// one of the repo's own.
    pub fn blames(&self) -> (blames: bool)
        ensures
            blames == (self.saved is Some && !self.outside_the_repo),
    {
        self.saved.is_some() && !self.outside_the_repo
    }

    /// Put the tab's blame up, or take it down. A file outside the repo has no history here to
    /// blame, and says so.
    pub fn toggle_blame(&mut self) -> (refused: Option<String>)
        ensures
            if old(self).outside_the_repo {
                &&& refused matches Some(said) && said@ == old(self).file_path@
                    + " is outside the repo, and has no history here to blame"@
                &&& *final(self) == *old(self)
            } else {
                &&& refused is None
                &&& final(self).blaming@.on == !old(self).blaming@.on
                &&& final(self).blaming@.shown is None
                &&& final(self).blaming@.last_check is None
                &&& final(self).blaming@.asking == old(self).blaming@.asking
            },
            *final(self) == (FileEditor { blaming: final(self).blaming, ..*old(self) }),
    {
        if self.outside_the_repo {
            let mut said = self.file_path.clone();
            said.append(" is outside the repo, and has no history here to blame");
            return Some(said);
        }
        self.blaming.toggle();
        None
    }

    /// Keep the tab's blame of its text, at `now`: checked once an interval while the column
    /// is up and the text is there, and asked for when the text is due one. A tab on an old
    /// version asks about that version; every other tab about its own text.
    pub fn follow_blame(&mut self, now: u64) -> (step: BlameStep)
        ensures
            *final(self) == (FileEditor { blaming: final(self).blaming, ..*old(self) }),
            if !old(self).blaming@.on || old(self).saved is None || !check_due(
                old(self).blaming@,
                now,
            ) {
                step is NotDue && final(self).blaming@ == old(self).blaming@
            } else {
                match step {
                    BlameStep::NotDue => false,
                    BlameStep::Checked { text_hash } => {
                        &&& text_hash == default_hash_of(old(self).text@)
                        &&& !blame_wanted(old(self).blaming@, text_hash)
                        &&& if old(self).blaming@.asking {
                            final(self).blaming@ == old(self).blaming@
                        } else {
                            &&& final(self).blaming@.last_check == Some((now, text_hash))
                            &&& !final(self).blaming@.asking
                            &&& final(self).blaming@.on == old(self).blaming@.on
                            &&& final(self).blaming@.shown == old(self).blaming@.shown
                        }
                    },
                    BlameStep::Ask { text_hash, of } => {
                        &&& text_hash == default_hash_of(old(self).text@)
                        &&& blame_wanted(old(self).blaming@, text_hash)
                        &&& final(self).blaming@.last_check == Some((now, text_hash))
                        &&& final(self).blaming@.asking
                        &&& final(self).blaming@.on == old(self).blaming@.on
                        &&& final(self).blaming@.shown == old(self).blaming@.shown
                        &&& match old(self).revision {
                            Some(r) => of matches BlameOf::Revision(asked) && asked@ == r@,
                            None => of matches BlameOf::Text(asked) && asked@ == old(self).text@,
                        }
                    },
                }
            },
    {
        if !self.blaming.is_on() || self.saved.is_none() || !self.blaming.check_is_due(now) {
            return BlameStep::NotDue;
        }
        let text_hash = hash_of(self.text.as_str());
        if !self.blaming.wants_to_ask(text_hash, now) {
            return BlameStep::Checked { text_hash };
        }
        self.blaming.start_asking();
        let of = match &self.revision {
            Some(revision) => BlameOf::Revision(revision.clone()),
            None => BlameOf::Text(self.text.clone()),
        };
        BlameStep::Ask { text_hash, of }
    }

    /// Take what a blame came back with. One that failed takes the column down, and says why.
    pub fn blame_answered(&mut self, text_hash: u64, result: Result<Vec<BlameChunk>, String>) -> (said: Option<String>)
        ensures
            match result {
                Ok(chunks) => said is None && final(self).blaming@.shown == Some((text_hash, chunks@))
                    && !final(self).blaming@.asking && final(self).blaming@.on == old(self).blaming@.on,
                Err(error) => said matches Some(s) && s@ == "could not blame "@ + old(self).file_path@
                    + ": "@ + error@ && !final(self).blaming@.asking && !final(self).blaming@.on,
            },
            *final(self) == (FileEditor { blaming: final(self).blaming, ..*old(self) }),
    {
        match result {
            Ok(chunks) => {
                self.blaming.answered(text_hash, chunks);
                None
            },
            Err(error) => {
                self.blaming.failed();
                let mut said = String::from_str("could not blame ");
                said.append(self.file_path.as_str());
                said.append(": ");
                said.append(error.as_str());
                Some(said)
            },
        }
    }

    /// Why code actions cannot be asked for at the caret of this tab, if they cannot: a
    /// question is out already, the file is outside the repo, no server serves it, or there is
    /// no caret to ask about. A key that did nothing would read as a broken key.
    pub fn code_actions_refused(&self, asking_already: bool, has_caret: bool) -> (refused: Option<String>)
        ensures
            match code_actions_refusal(*self, asking_already, has_caret) {
                Some(said) => refused matches Some(r) && r@ == said,
                None => refused is None,
            },
    {
        if asking_already {
            return Some(String::from_str("code actions are already being asked for"));
        }
        if self.outside_the_repo {
            let mut said = self.file_path.clone();
            said.append(" is outside the repo, and can only be read");
            return Some(said);
        }
        if !self.offers_edits() {
            let mut said = String::from_str("no language server serves ");
            said.append(self.file_path.as_str());
            said.append(", so it has no code actions");
            return Some(said);
        }
        if !has_caret {
            return Some(String::from_str("put the caret on the code first"));
        }
        None
    }
}

impl FileEditor {
    /// Whether closing the tab now would throw edits away: the first close of a dirty tab is
    /// held back and says so, and the second goes through.
    pub fn close_would_lose_edits(&mut self) -> (held_back: Option<String>)
        ensures
            if (old(self).saved matches Some(s) && s@ != old(self).text@) && !old(self).close_confirmed {
                &&& held_back matches Some(said) && said@ == old(self).file_path@
                    + " has unsaved edits - close again to discard them"@
                &&& *final(self) == (FileEditor { close_confirmed: true, ..*old(self) })
            } else {
                held_back is None && *final(self) == *old(self)
            },
    {
        if !self.is_dirty() || self.close_confirmed {
            return None;
        }
        self.close_confirmed = true;
        let mut said = self.file_path.clone();
        said.append(" has unsaved edits - close again to discard them");
        Some(said)
    }
}

} // verus!
