use vstd::prelude::*;

use crate::frame::Frame;
use crate::region::Region;

verus! {

/// One step of the reminder state machine. The state is
/// `(now_armed, enemy_armed)`: `Idle` is `(false, false)`, `NowArmed` is
/// `(true, false)` and `BothArmed` is `(true, true)`. Returns the next state
/// and whether a reminder fires, which happens only on `BothArmed -> Idle`.
pub open spec fn reminder_step(state: (bool, bool), now: bool, enemy: bool) -> ((bool, bool), bool) {
    if !state.0 && !state.1 {
        if now {
            ((true, false), false)
        } else {
            (state, false)
        }
    } else if state.0 && !state.1 {
        if enemy {
            ((true, true), false)
        } else {
            (state, false)
        }
    } else if state.0 && state.1 {
        if !enemy {
            ((false, false), true)
        } else {
            (state, false)
        }
    } else {
        (state, false)
    }
}

/// Feeds one pair of region results to the reminder state machine; returns
/// whether a reminder fires.
pub fn advance_reminder(state: &mut (bool, bool), now_match: bool, enemy_match: bool) -> (r: bool)
    ensures
        (*final(state), r) == reminder_step(*old(state), now_match, enemy_match),
{
    if !state.0 && !state.1 {
        if now_match {
            state.0 = true;
        }
        false
    } else if state.0 && !state.1 {
        if enemy_match {
            state.1 = true;
        }
        false
    } else if state.0 && state.1 && !enemy_match {
        state.0 = false;
        state.1 = false;
        true
    } else {
        false
    }
}

/// The two regions that drive the reminder state machine.
#[derive(Clone, Debug)]
pub struct ReminderRegions {
    pub reminder_now_region: Region,
    pub reminder_enemy_region: Region,
}

impl ReminderRegions {
    /// Runs one step of the reminder state machine on `image`; returns
    /// whether a reminder fires.
    pub fn check_reminder(&self, image: &Frame, state: &mut (bool, bool)) -> (r: bool)
        ensures
            (*final(state), r) == reminder_step(
                *old(state),
                self.reminder_now_region.matches(image),
                self.reminder_enemy_region.matches(image),
            ),
    {
        let idle = !state.0 && !state.1;
        let now_match = if idle {
            self.reminder_now_region.check_in_image(image)
        } else {
            false
        };
        let enemy_match = if state.0 {
            self.reminder_enemy_region.check_in_image(image)
        } else {
            false
        };
        advance_reminder(state, now_match, enemy_match)
    }
}

} // verus!
