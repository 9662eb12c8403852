//! Code actions: what the language server offers to do to the code at a file tab's caret - the
//! fixes for what it found wrong there, and the rewrites it has for the code - picked from the
//! palette and put in the way a rename is.
//!
//! The question waits until every tab's text has reached its server - an action's edits are
//! places in those texts, and it can reach past the tab it was asked in - and goes out with
//! what the server found wrong at the caret. What comes back is a list in the palette.
//!
//! This is where asking stands and what each step decides. The tabs' texts (`T`) and the
//! actions themselves (`A`) are whatever the window keeps them as: they are carried through,
//! never looked inside.

use vstd::prelude::*;

use crate::file_pane::{code_actions_refusal, FileEditor};

verus! {

/// Where asking for code actions is. One at a time for the window: the palette has one list.
pub enum CodeActing<T, A> {
    /// Waiting for the tabs' text to reach their servers before asking, since `since`
    /// (milliseconds on the window's clock).
    WaitingToAsk { session_id: String, pane_id: u64, since: u64 },
    /// The question is out.
    Asking,
    /// The palette is listing what came back, waiting for one to be picked.
    Choosing {
        session_id: String,
        /// What every tab held when the question went out - the texts the edits are places in.
        told: T,
        actions: Vec<A>,
    },
}

/// What the palette is offering to pick from, while it is.
pub fn offered<T, A>(acting: &Option<CodeActing<T, A>>) -> (actions: Option<&Vec<A>>)
    ensures
        match acting {
            Some(CodeActing::Choosing { actions: listed, .. }) => actions == Some(listed),
            _ => actions is None,
        },
{
    match acting {
        Some(CodeActing::Choosing { actions, .. }) => Some(actions),
        _ => None,
    }
}

/// Ask for the code actions at the caret of one file tab, at `now`: the question is put in
/// line, or the reason it cannot be is handed back to be said - for every way it cannot, since
/// a key that did nothing reads as a broken key. Nothing changes when it is refused.
pub fn start<T, A>(
    acting: &mut Option<CodeActing<T, A>>,
    editor: &FileEditor,
    has_caret: bool,
    session_id: String,
    pane_id: u64,
    now: u64,
) -> (refused: Option<String>)
    ensures
        ({
            let why = code_actions_refusal(*editor, *old(acting) is Some, has_caret);
            match why {
                Some(said) => refused matches Some(r) && r@ == said && *final(acting) == *old(
                    acting,
                ),
                None => refused is None && *final(acting) == Some(
                    CodeActing::<T, A>::WaitingToAsk { session_id, pane_id, since: now },
                ),
            }
        }),
{
    let refused = editor.code_actions_refused(acting.is_some(), has_caret);
    if refused.is_none() {
        *acting = Some(CodeActing::WaitingToAsk { session_id, pane_id, since: now });
    }
    refused
}

/// What moving the question along comes to on one frame.
pub enum FollowStep<T, A> {
    /// A question is waiting to go out: see whether it can, by [`ask_step`], and put what
    /// that comes to back by [`after_ask`].
    AskNow { session_id: String, pane_id: u64, since: u64 },
    /// Nothing to do this frame; this is where asking stands now.
    Stands(Option<CodeActing<T, A>>),
}

/// Move the question along, once a frame. A list that is no longer shown - the palette put
/// away, or turned to something else - was put away without anything being picked, and is
/// dropped.
pub fn follow<T, A>(acting: Option<CodeActing<T, A>>, palette_lists_actions: bool) -> (step:
    FollowStep<T, A>)
    ensures
        match acting {
            None => step == FollowStep::<T, A>::Stands(None),
            Some(CodeActing::WaitingToAsk { session_id, pane_id, since }) => step
                == FollowStep::<T, A>::AskNow { session_id, pane_id, since },
            Some(CodeActing::Choosing { .. }) => step == if palette_lists_actions {
                FollowStep::Stands(acting)
            } else {
                FollowStep::<T, A>::Stands(None)
            },
            Some(CodeActing::Asking) => step == FollowStep::<T, A>::Stands(acting),
        },
{
    match acting {
        None => FollowStep::Stands(None),
        Some(CodeActing::WaitingToAsk { session_id, pane_id, since }) => FollowStep::AskNow {
            session_id,
            pane_id,
            since,
        },
        Some(CodeActing::Choosing { session_id, told, actions }) => {
            if palette_lists_actions {
                FollowStep::Stands(Some(CodeActing::Choosing { session_id, told, actions }))
            } else {
                FollowStep::Stands(None)
            }
        },
        Some(CodeActing::Asking) => FollowStep::Stands(Some(CodeActing::Asking)),
    }
}

/// Whether a file's server can answer about the text the tab holds now.
#[derive(Clone, Copy, PartialEq, Eq, Debug, Structural)]
pub enum CanAnswer {
    /// It is still reading the project, and would answer about a part of it.
    StillReadingTheProject,
    /// It has not yet been sent this text.
    NotThisText,
    Yes,
}

/// What a question waiting to go out does this frame.
#[derive(PartialEq, Eq, Debug)]
pub enum AskStep {
    /// The server is still reading the project: say so and give up.
    StillStarting,
    /// Not every text has reached its server yet, and there is still time: look again soon.
    Wait,
    /// This file's text never reached its server in time: say which, and give up.
    NotHeard(String),
    /// There is no caret to ask about any more.
    NoCaret,
    /// Everything is in place: ask.
    Ask,
}

/// Ask, once every tab's text has reached its server.
///
/// A server still reading the project cannot answer yet and says so at once. A text that has
/// not reached its server is waited for until `heard_within` has passed since the question was
/// put in line - this tab's first, then every other tab's, since an action can reach into any
/// of them - and then said not to have been heard.
pub fn ask_step(
    can_answer: CanAnswer,
    waited: u64,
    heard_within: u64,
    has_caret: bool,
    behind: Option<String>,
    file_path: &str,
) -> (step: AskStep)
    ensures
        match can_answer {
            CanAnswer::StillReadingTheProject => step == AskStep::StillStarting,
            CanAnswer::NotThisText => if waited < heard_within {
                step == AskStep::Wait
            } else {
                step matches AskStep::NotHeard(path) && path@ == file_path@
            },
            CanAnswer::Yes => if !has_caret {
                step == AskStep::NoCaret
            } else {
                match behind {
                    Some(tab) => if waited < heard_within {
                        step == AskStep::Wait
                    } else {
                        step == AskStep::NotHeard(tab)
                    },
                    None => step == AskStep::Ask,
                }
            },
        },
{
    match can_answer {
        CanAnswer::StillReadingTheProject => {
            return AskStep::StillStarting;
        },
        CanAnswer::NotThisText => {
            if waited < heard_within {
                return AskStep::Wait;
            }
            return AskStep::NotHeard(String::from_str(file_path));
        },
        CanAnswer::Yes => {},
    }
    if !has_caret {
        return AskStep::NoCaret;
    }
    match behind {
        Some(tab) => if waited < heard_within {
            AskStep::Wait
        } else {
            AskStep::NotHeard(tab)
        },
        None => AskStep::Ask,
    }
}

/// Where asking stands once a waiting question has taken its step: still waiting, out, or
/// given up.
pub fn after_ask<T, A>(session_id: String, pane_id: u64, since: u64, step: &AskStep) -> (acting:
    Option<CodeActing<T, A>>)
    ensures
        acting == match step {
            AskStep::Wait => Some(CodeActing::<T, A>::WaitingToAsk { session_id, pane_id, since }),
            AskStep::Ask => Some(CodeActing::<T, A>::Asking),
            _ => None,
        },
{
    match step {
        AskStep::Wait => Some(CodeActing::WaitingToAsk { session_id, pane_id, since }),
        AskStep::Ask => Some(CodeActing::Asking),
        _ => None,
    }
}

/// What the window says once the answer is in.
#[derive(PartialEq, Eq, Debug)]
pub enum Heard {
    /// Nothing to offer: a note that says so.
    Nothing(String),
    /// The palette lists what came back.
    Listed,
    /// The call failed: an error that says so.
    Failed(String),
}

/// What the server's answer comes to: an empty list is a note, a list is the palette turned
/// to it, and a failed call is an error. The question is over either way.
pub fn answered<T, A>(
    session_id: String,
    told: T,
    file_path: &str,
    result: Result<Vec<A>, String>,
) -> (outcome: (Option<CodeActing<T, A>>, Heard))
    ensures
        match result {
            Ok(actions) => if actions.len() == 0 {
                &&& outcome.0 is None
                &&& outcome.1 matches Heard::Nothing(said) && said@
                    == "nothing to do at the caret in "@ + file_path@
            } else {
                &&& outcome.0 == Some(CodeActing::Choosing { session_id, told, actions })
                &&& outcome.1 == Heard::Listed
            },
            Err(error) => {
                &&& outcome.0 is None
                &&& outcome.1 matches Heard::Failed(said) && said@
                    == "could not ask for the code actions in "@ + file_path@ + ": "@ + error@
            },
        },
{
    match result {
        Ok(actions) => {
            if actions.len() == 0 {
                let mut said = String::from_str("nothing to do at the caret in ");
                said.append(file_path);
                (None, Heard::Nothing(said))
            } else {
                (Some(CodeActing::Choosing { session_id, told, actions }), Heard::Listed)
            }
        },
        Err(error) => {
            let mut said = String::from_str("could not ask for the code actions in ");
            said.append(file_path);
            said.append(": ");
            said.append(error.as_str());
            (None, Heard::Failed(said))
        },
    }
}

/// The action picked from the palette, by its place in the list, with the session and the
/// texts its edits are places in. Picking ends the question whatever was picked, and whatever
/// the question was doing.
pub fn pick<T, A>(acting: &mut Option<CodeActing<T, A>>, index: usize) -> (picked: Option<
    (String, T, A),
>)
    ensures
        *final(acting) is None,
        match *old(acting) {
            Some(CodeActing::Choosing { session_id, told, actions }) => if index < actions.len() {
                picked == Some((session_id, told, actions@[index as int]))
            } else {
                picked is None
            },
            _ => picked is None,
        },
{
    let taken = acting.take();
    match taken {
        Some(CodeActing::Choosing { session_id, told, actions }) => {
            if index < actions.len() {
                let mut actions = actions;
                let action = actions.remove(index);
                Some((session_id, told, action))
            } else {
                None
            }
        },
        _ => None,
    }
}

} // verus!
