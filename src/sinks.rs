use vstd::prelude::*;

use crate::event::{Event, EventKind};
use crate::wire::kind_name;

verus! {

/// Reentrancy guards of the audio sink, one per event kind: a clip of a kind
/// is not started again while one of that kind is playing.
pub struct PlaybackGuard {
    pub warn_playing: bool,
    pub reminder_playing: bool,
}

impl PlaybackGuard {
    pub open spec fn playing(&self, kind: EventKind) -> bool {
        match kind {
            EventKind::Warn => self.warn_playing,
            EventKind::Reminder => self.reminder_playing,
        }
    }

    /// Nothing is playing.
    pub fn new() -> (r: PlaybackGuard)
        ensures
            !r.playing(EventKind::Warn),
            !r.playing(EventKind::Reminder),
    {
        PlaybackGuard { warn_playing: false, reminder_playing: false }
    }

    /// Claims the guard of `kind`. Returns `false`, and the trigger is
    /// dropped, when a clip of that kind is already playing. The other
    /// kind's guard is untouched.
    pub fn try_begin(&mut self, kind: EventKind) -> (r: bool)
        ensures
            r == !old(self).playing(kind),
            final(self).playing(kind),
            forall|k: EventKind| k != kind ==> final(self).playing(k) == old(self).playing(k),
    {
        match kind {
            EventKind::Warn => {
                if self.warn_playing {
                    false
                } else {
                    self.warn_playing = true;
                    true
                }
            },
            EventKind::Reminder => {
                if self.reminder_playing {
                    false
                } else {
                    self.reminder_playing = true;
                    true
                }
            },
        }
    }

    /// Releases the guard of `kind` once its clip ended or failed.
    pub fn finish(&mut self, kind: EventKind)
        ensures
            !final(self).playing(kind),
            forall|k: EventKind| k != kind ==> final(self).playing(k) == old(self).playing(k),
    {
        match kind {
            EventKind::Warn => {
                self.warn_playing = false;
            },
            EventKind::Reminder => {
                self.reminder_playing = false;
            },
        }
    }
}

/// Summary and body of the desktop popup for an event: the kind's name and
/// the window title.
pub fn notification_content(event: &Event) -> (r: (String, String))
    ensures
        r.0@ == kind_name(event@.0),
        r.1@ == event@.1,
{
    let summary = match event {
        Event::Warn { .. } => String::from_str("Warn"),
        Event::Reminder { .. } => String::from_str("Reminder"),
    };
    (summary, event.title().clone())
}

/// What the relay sink does once its connection failed or dropped.
#[derive(Clone, Copy, Debug, PartialEq, Eq, Structural)]
pub enum RelayAction {
    /// Wait this many milliseconds, then connect again with a fresh
    /// subscription.
    Reconnect { after_ms: u64 },
    GiveUp,
}

/// Retry settings of the relay sink.
#[derive(Clone, Copy, Debug, PartialEq, Eq, Structural)]
pub struct RelayPolicy {
    pub try_forever: bool,
    /// Pause between attempts, in milliseconds.
    pub try_spacing: u64,
}

impl RelayPolicy {
    pub fn after_failure(&self) -> (r: RelayAction)
        ensures
            self.try_forever ==> r == (RelayAction::Reconnect { after_ms: self.try_spacing }),
            !self.try_forever ==> r == RelayAction::GiveUp,
    {
        if self.try_forever {
            RelayAction::Reconnect { after_ms: self.try_spacing }
        } else {
            RelayAction::GiveUp
        }
    }
}

} // verus!
