//! The session status the Assetto Corsa games write on their graphics page.
use vstd::prelude::*;

verus! {

/// The graphics page's status while the player is driving
/// (`AC_STATUS_LIVE`; the others are off, replay and pause).
pub const AC_STATUS_LIVE: i32 = 2;

/// Whether the game is in a live driving session: the graphics page's status
/// is [`AC_STATUS_LIVE`], not a menu, a replay or a pause.
pub fn is_live(status: i32) -> (r: bool)
    ensures
        r == (status == AC_STATUS_LIVE),
{
    status == AC_STATUS_LIVE
}

} // verus!
