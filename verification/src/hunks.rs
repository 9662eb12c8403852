//! The keys that stage and unstage the hunk under the caret of a review.

use vstd::prelude::*;

verus! {

/// What a staging key does to a hunk.
#[derive(Clone, Copy, PartialEq, Eq, Debug, Structural)]
pub enum HunkAct {
    Stage,
    Unstage,
}

/// What the forward key - or, with `forward` false, the reverse one - does to the hunk under
/// the caret: stage one that is not staged, unstage one that is. A review that cannot be
/// staged in, or a hunk already where the key would put it, takes nothing.
pub fn hunk_shortcut(read_only: bool, staged: bool, forward: bool) -> (act: Option<HunkAct>)
    ensures
        act == if read_only || staged == forward {
            None
        } else if forward {
            Some(HunkAct::Stage)
        } else {
            Some(HunkAct::Unstage)
        },
{
    if read_only || staged == forward {
        return None;
    }
    if forward {
        Some(HunkAct::Stage)
    } else {
        Some(HunkAct::Unstage)
    }
}

} // verus!
