use vstd::prelude::*;

use crate::config::Character;
use crate::event::Event;
use crate::frame::Frame;

verus! {

/// The per-character frame evaluator: the character's regions and its
/// reminder state, which starts `Idle`.
pub struct Monitor {
    pub character: Character,
    pub reminder_state: (bool, bool),
}

impl Monitor {
    pub fn new(character: Character) -> (r: Monitor)
        ensures
            r.character == character,
            r.reminder_state == (false, false),
    {
        Monitor { character, reminder_state: (false, false) }
    }

    /// Evaluates the next frame, in arrival order; returns the events to
    /// publish, a `Warn` first when the warn region matches, then a
    /// `Reminder` when the reminder state machine fires.
    pub fn on_frame(&mut self, frame: &Frame) -> (r: Vec<Event>)
        ensures
            final(self).character == old(self).character,
            ({
                let c = old(self).character;
                let warn = c.warn_region.matches(frame);
                let (next, fire) = c.reminder_outcome(frame, old(self).reminder_state);
                &&& final(self).reminder_state == next
                &&& r@.len() == (if warn { 1int } else { 0 }) + (if fire { 1int } else { 0 })
                &&& warn ==> r@[0].is_warn_for(c.title@)
                &&& fire ==> r@[r@.len() - 1].is_reminder_for(c.title@)
            }),
    {
        let mut state = self.reminder_state;
        let events = self.character.scan_frame(frame, &mut state);
        self.reminder_state = state;
        events
    }
}

} // verus!
