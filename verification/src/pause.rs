//! Pause control: letting go of the pause key flips the game between
//! running and paused; holding the key does nothing.

use crate::entities::Pauser;
use vstd::prelude::*;

verus! {

/// The pause state after a frame in which the pause key was let go
/// (`released`) or not.
pub open spec fn toggled(paused: bool, released: bool) -> bool {
    paused != released
}

/// Flips the pause state if the pause key was let go during the frame.
pub fn pause_system(released: bool, pauser: &mut Pauser)
    ensures
        final(pauser).paused == toggled(old(pauser).paused, released),
{
    if released {
        pauser.paused = !pauser.paused;
    }
}

} // verus!
