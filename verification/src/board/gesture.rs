//! What the pointer is doing to the board's cards: whether a press was a click on one of a
//! card's buttons, a click on the card itself, or the card being picked up and carried.
//!
//! How far the pointer is from where a press went down is measured where the pointer is read;
//! what reaches this module is whether that was further than a card is picked up by.

use vstd::prelude::*;

use crate::board::cards::{has_task, has_task_in};
use crate::board::selection::{
    carried_by, clicked, let_go, marked_in_order, marks, marks_after_click, marks_when_carried,
    same_but_marks, well_marked,
};
use crate::input::Modifiers;
use crate::model::{BoardState, TaskView};

verus! {

/// The buttons drawn inside something the board is watching for presses - a card, a column -
/// and whether one of them has the pointer down on it.
pub struct Controls {
    /// Whether cmd or shift is held, when every part of a card belongs to the card.
    pub marking: bool,
    /// Whether one of the buttons has the pointer down on it.
    pub took_the_press: bool,
}

impl Controls {
    /// The buttons of a card, with these keys held.
    pub fn new(modifiers: &Modifiers) -> (controls: Controls)
        ensures
            controls.marking == (modifiers.command || modifiers.shift),
            !controls.took_the_press,
    {
        Controls { marking: modifiers.command || modifiers.shift, took_the_press: false }
    }

    /// The same buttons drawn where no card is watching, where there is nothing to mark and
    /// nothing to pick up.
    pub fn elsewhere() -> (controls: Controls)
        ensures
            !controls.marking,
            !controls.took_the_press,
    {
        Controls { marking: false, took_the_press: false }
    }

    /// A button: whether it was pressed as a button. While cmd or shift is held it never is,
    /// and the press stays the card's. Otherwise the press is recorded - held down on the
    /// button, or a click over before it was ever held - so what is watching keeps its hands
    /// off it.
    pub fn pressed(&mut self, pointer_down_on: bool, clicked: bool) -> (acts: bool)
        ensures
            acts == (!old(self).marking && clicked),
            final(self).marking == old(self).marking,
            final(self).took_the_press == (old(self).took_the_press || (!old(self).marking && (
            pointer_down_on || clicked))),
    {
        if self.marking {
            return false;
        }
        self.took_the_press = self.took_the_press || pointer_down_on || clicked;
        clicked
    }

    pub fn took_the_press(&self) -> (took: bool)
        ensures
            took == self.took_the_press,
    {
        self.took_the_press
    }
}

/// A press in progress.
#[derive(Debug)]
pub struct Press {
    /// The card it went down on, or `None` for the board beside the cards.
    pub on: Option<String>,
    /// Whether it went down on that card's title, which is what a rename opens from.
    pub on_title: bool,
    /// Whether it went down on one of the card's own buttons.
    pub on_a_button: bool,
    /// The keys held when it went down. A gesture is read by the keys it began with.
    pub modifiers: Modifiers,
    /// Whether it has carried far enough to be a card being picked up.
    pub travelled: bool,
}

/// What a press turned out to be, once the button comes back up.
#[derive(Debug)]
pub enum Ended {
    /// Let go of where it went down: a click, on a card or on the board beside them.
    Click { on: Option<String>, on_title: bool, on_a_button: bool, modifiers: Modifiers },
    /// Carried somewhere: the cards were being dragged, and this is them being let go of.
    Dropped,
}

/// Whether the press being held is not the press the pointer is making. `button_down_far`
/// says, when a button is down, whether it went down further from where the press did than a
/// card is picked up by; `None` when no button is down.
pub open spec fn stale_spec(has_press: bool, button_down_far: Option<bool>, released: bool) -> bool {
    has_press && match button_down_far {
        Some(far) => far,
        None => !released,
    }
}

/// Whether the press being held is not the press the pointer is making: a button held down
/// somewhere else is another gesture, and no button down without a release this frame is a
/// press that ended out of sight.
pub fn stale(press: Option<&Press>, button_down_far: Option<bool>, released: bool) -> (stale: bool)
    ensures
        stale == stale_spec(press is Some, button_down_far, released),
{
    match press {
        None => false,
        Some(_) => match button_down_far {
            Some(far) => far,
            None => !released,
        },
    }
}

/// Take the press, if one has just begun where it `lands` - on a card, or the board beside
/// them, where it can be seen and no menu stands over it - and no press is already held.
pub fn claim(board: &mut BoardState, lands: bool, press: Press)
    ensures
        if old(board).press is None && lands {
            final(board).press == Some(press)
        } else {
            final(board).press == old(board).press
        },
        *final(board) == (BoardState { press: final(board).press, ..*old(board) }),
{
    if board.press.is_some() || !lands {
        return;
    }
    board.press = Some(press);
}

/// Follow the press, and say what it was on the frame the button comes back up.
///
/// A stale press is dropped, with whatever it was carrying. Otherwise a press that has carried
/// further than a card is picked up by - `carried_far`, when the pointer is anywhere - has
/// carried for good. On a release the press is over: one that carried a card is the cards
/// being dropped, and anything else is a click.
pub fn settle(
    board: &mut BoardState,
    button_down_far: Option<bool>,
    carried_far: Option<bool>,
    released: bool,
) -> (ended: Option<Ended>)
    ensures
        match old(board).press {
            None => ended is None && final(board).press is None && final(board).carrying
                == old(board).carrying,
            Some(press) => if stale_spec(true, button_down_far, released) {
                ended is None && final(board).press is None && final(board).carrying is None
            } else {
                let travelled = press.travelled || carried_far == Some(true);
                &&& final(board).carrying == old(board).carrying
                &&& if !released {
                    ended is None && final(board).press == Some(Press { travelled, ..press })
                } else {
                    &&& final(board).press is None
                    &&& if travelled && press.on is Some {
                        ended matches Some(Ended::Dropped)
                    } else {
                        ended == Some(
                            Ended::Click {
                                on: press.on,
                                on_title: press.on_title,
                                on_a_button: press.on_a_button,
                                modifiers: press.modifiers,
                            },
                        )
                    }
                }
            },
        },
        *final(board) == (BoardState {
            press: final(board).press,
            carrying: final(board).carrying,
            ..*old(board)
        }),
{
    let mut held: Option<Press> = None;
    std::mem::swap(&mut held, &mut board.press);
    let mut press = match held {
        None => {
            return None;
        },
        Some(press) => press,
    };
    if stale(Some(&press), button_down_far, released) {
        board.carrying = None;
        return None;
    }
    match carried_far {
        Some(far) => {
            press.travelled = press.travelled || far;
        },
        None => {},
    }
    if !released {
        board.press = Some(press);
        return None;
    }
    if press.travelled && press.on.is_some() {
        Some(Ended::Dropped)
    } else {
        Some(
            Ended::Click {
                on: press.on,
                on_title: press.on_title,
                on_a_button: press.on_a_button,
                modifiers: press.modifiers,
            },
        )
    }
}

/// The card the press has hold of, once it has carried far enough to have hold of anything.
pub fn grabbed(board: &BoardState) -> (grab: Option<(&str, Modifiers)>)
    ensures
        match board.press {
            Some(press) if press.travelled && press.on is Some => grab matches Some(g) && g.0@
                == press.on->0@ && g.1 == press.modifiers,
            _ => grab is None,
        },
{
    match &board.press {
        Some(press) => if press.travelled {
            match &press.on {
                Some(on) => Some((on.as_str(), press.modifiers)),
                None => None,
            }
        } else {
            None
        },
        None => None,
    }
}

/// The title of the first card that goes by `id`, or nothing when no card does.
pub open spec fn title_of(tasks: Seq<TaskView>, id: Seq<char>) -> Seq<char>
    decreases tasks.len(),
{
    if tasks.len() == 0 {
        Seq::empty()
    } else if tasks[0].id@ == id {
        tasks[0].title@
    } else {
        title_of(tasks.drop_first(), id)
    }
}

fn title_in(tasks: &Vec<TaskView>, id: &String) -> (title: String)
    ensures
        title@ == title_of(tasks@, id@),
{
    let mut i: usize = 0;
    assert(tasks@.skip(0) =~= tasks@);
    while i < tasks.len()
        invariant
            i <= tasks.len(),
            title_of(tasks@.skip(i as int), id@) == title_of(tasks@, id@),
        decreases tasks.len() - i,
    {
        assert(tasks@.skip(i as int).drop_first() =~= tasks@.skip(i + 1));
        assert(tasks@.skip(i as int)[0] == tasks@[i as int]);
        if tasks[i].id == *id {
            return tasks[i].title.clone();
        }
        i = i + 1;
    }
    String::new()
}

/// What the board does about a press once it has settled.
#[derive(Debug)]
pub enum Gesture {
    /// Nothing beyond what the press did to the marks and to what is being carried.
    Nothing,
    /// The second click of a double one on a card's title, which has opened the box that
    /// renames the card: the keyboard is that box's, whatever the first click promised it to.
    OpenRename(String),
    /// A plain click on a card: open the task's own page.
    OpenStart { task_id: String, title: String },
}

/// Whether the press was a click to be read as one: let go of, not stale, not a card carried
/// off, and not on one of the card's own buttons.
pub open spec fn reads_as_a_click(
    press: Press,
    button_down_far: Option<bool>,
    carried_far: Option<bool>,
    released: bool,
) -> bool {
    let travelled = press.travelled || carried_far == Some(true);
    &&& !stale_spec(true, button_down_far, released)
    &&& released
    &&& !(travelled && press.on is Some)
    &&& !press.on_a_button
}

/// Where a click on this card leaves the anchor a shift-click runs from: on the card, unless
/// shift alone is held and there already is one.
pub open spec fn anchor_after_click(board: BoardState, id: String, modifiers: Modifiers) -> Option<
    String,
> {
    if modifiers.command || modifiers.shift {
        match board.mark_anchor {
            Some(a) if !modifiers.command => Some(a),
            _ => Some(id),
        }
    } else {
        Some(id)
    }
}

/// Where picking up this card leaves the anchor: on the card, unless it was already marked and
/// is carried off with the rest by a plain press.
pub open spec fn anchor_after_carry(board: BoardState, id: String, modifiers: Modifiers) -> Option<
    String,
> {
    if modifiers.command || modifiers.shift || !marks(board).contains(id@) {
        Some(id)
    } else {
        board.mark_anchor
    }
}

/// What the press on the board turned out to be, read after the cards have had their chance to
/// claim it and the column under the pointer its chance to take a drop.
///
/// A press that has carried a card far enough picks up what it carries then and there, read
/// by the keys held when it went down. When the press settles: a drop lets go of what was
/// carried, a press on a card's own button is that button's, a double click on the title of a
/// card the board holds opens the box that renames it, and any other click marks cards the way
/// a click does - a plain click on a card opening its page.
pub fn settle_gesture(
    board: &mut BoardState,
    button_down_far: Option<bool>,
    carried_far: Option<bool>,
    released: bool,
    double_clicked: bool,
) -> (gesture: Gesture)
    requires
        well_marked(*old(board)),
    ensures
        well_marked(*final(board)),
        same_but_marks(
            *final(board),
            (BoardState {
                press: final(board).press,
                carrying: final(board).carrying,
                landing: final(board).landing,
                renaming: final(board).renaming,
                ..*old(board)
            }),
        ),
        match old(board).press {
            None => gesture is Nothing && *final(board) == *old(board),
            Some(press) => {
                let travelled = press.travelled || carried_far == Some(true);
                let stale = stale_spec(true, button_down_far, released);
                let grabs = old(board).carrying is None && press.travelled && press.on is Some;
                let dropped = !stale && released && travelled && press.on is Some;
                &&& final(board).press == if stale || released {
                    None
                } else {
                    Some(Press { travelled, ..press })
                }
                &&& if stale || dropped {
                    final(board).carrying is None
                } else if grabs {
                    final(board).carrying matches Some(c) && c.primary == press.on->0
                        && c.task_ids@ == marked_in_order(old(board).tasks@, marks(*final(board)))
                } else {
                    final(board).carrying == old(board).carrying
                }
                &&& final(board).landing == if dropped {
                    None
                } else {
                    old(board).landing
                }
                &&& final(board).renaming == if reads_as_a_click(
                    press,
                    button_down_far,
                    carried_far,
                    released,
                ) && press.on_title && double_clicked && press.on is Some && has_task(
                    old(board).tasks@,
                    press.on->0@,
                ) {
                    press.on
                } else {
                    old(board).renaming
                }
                &&& if reads_as_a_click(press, button_down_far, carried_far, released) {
                    if press.on_title && double_clicked && press.on is Some {
                        &&& gesture == if has_task(old(board).tasks@, press.on->0@) {
                            Gesture::OpenRename(press.on->0)
                        } else {
                            Gesture::Nothing
                        }
                        &&& final(board).marked == old(board).marked
                        &&& final(board).mark_anchor == old(board).mark_anchor
                        &&& final(board).pages_to_close == old(board).pages_to_close
                    } else {
                        &&& match press.on {
                            None => {
                                &&& marks(*final(board)) == Set::<Seq<char>>::empty()
                                &&& final(board).mark_anchor is None
                                &&& final(board).pages_to_close@ == old(board).pages_to_close@
                                    + old(board).marked@
                            },
                            Some(id) => {
                                &&& marks(*final(board)) == marks_after_click(
                                    *old(board),
                                    id@,
                                    press.modifiers,
                                )
                                &&& final(board).mark_anchor == anchor_after_click(
                                    *old(board),
                                    id,
                                    press.modifiers,
                                )
                                &&& final(board).pages_to_close@ == old(board).pages_to_close@
                                    + let_go(old(board).marked@, marks(*final(board)))
                            },
                        }
                        &&& if press.on is Some && !(press.modifiers.command
                            || press.modifiers.shift) {
                            gesture matches Gesture::OpenStart { task_id, title } && task_id
                                == press.on->0 && title@ == title_of(
                                old(board).tasks@,
                                task_id@,
                            )
                        } else {
                            gesture is Nothing
                        }
                    }
                } else {
                    &&& gesture is Nothing
                    &&& if grabs {
                        &&& marks(*final(board)) == marks_when_carried(
                            *old(board),
                            press.on->0@,
                            press.modifiers,
                        )
                        &&& final(board).mark_anchor == anchor_after_carry(
                            *old(board),
                            press.on->0,
                            press.modifiers,
                        )
                        &&& final(board).pages_to_close@ == old(board).pages_to_close@ + let_go(
                            old(board).marked@,
                            marks(*final(board)),
                        )
                    } else {
                        &&& final(board).marked == old(board).marked
                        &&& final(board).mark_anchor == old(board).mark_anchor
                        &&& final(board).pages_to_close == old(board).pages_to_close
                    }
                }
            },
        },
{
    let grab = if board.carrying.is_none() {
        match &board.press {
            Some(press) => if press.travelled {
                match &press.on {
                    Some(on) => Some((on.clone(), press.modifiers)),
                    None => None,
                }
            } else {
                None
            },
            None => None,
        }
    } else {
        None
    };
    match grab {
        Some((task_id, modifiers)) => {
            let carrying = carried_by(board, &task_id, modifiers);
            board.carrying = Some(carrying);
        },
        None => {},
    }
    let ended = settle(board, button_down_far, carried_far, released);
    let (on, on_title, on_a_button, modifiers) = match ended {
        None => {
            return Gesture::Nothing;
        },
        Some(Ended::Dropped) => {
            board.carrying = None;
            board.landing = None;
            return Gesture::Nothing;
        },
        Some(Ended::Click { on, on_title, on_a_button, modifiers }) => (
            on,
            on_title,
            on_a_button,
            modifiers,
        ),
    };
    if on_a_button {
        return Gesture::Nothing;
    }
    if on_title && double_clicked && on.is_some() {
        match on {
            Some(task_id) => {
                if has_task_in(&board.tasks, &task_id) {
                    board.renaming = Some(task_id.clone());
                    return Gesture::OpenRename(task_id);
                }
                return Gesture::Nothing;
            },
            None => {
                return Gesture::Nothing;
            },
        }
    }
    let opens = match &on {
        Some(id) => clicked(board, Some(id), modifiers),
        None => clicked(board, None, modifiers),
    };
    match opens {
        Some(task_id) => {
            let title = title_in(&board.tasks, &task_id);
            Gesture::OpenStart { task_id, title }
        },
        None => Gesture::Nothing,
    }
}

} // verus!
