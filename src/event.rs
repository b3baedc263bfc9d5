use vstd::prelude::*;

verus! {

/// The two kinds of domain event.
#[derive(Clone, Copy, Debug, PartialEq, Eq, Structural)]
pub enum EventKind {
    Warn,
    Reminder,
}

/// A domain event raised by a monitor: `Warn` is raised on every frame in
/// which the warn region matches, `Reminder` when the reminder state machine
/// fires.
#[derive(Debug, PartialEq, Eq)]
pub enum Event {
    Warn { title: String },
    Reminder { title: String },
}

/// What an event stands for: its kind and the title of its window.
pub type EventModel = (EventKind, Seq<char>);

impl View for Event {
    type V = EventModel;

    open spec fn view(&self) -> EventModel {
        match self {
            Event::Warn { title } => (EventKind::Warn, title@),
            Event::Reminder { title } => (EventKind::Reminder, title@),
        }
    }
}

impl Clone for Event {
    fn clone(&self) -> (r: Event)
        ensures
            r@ == self@,
    {
        match self {
            Event::Warn { title } => Event::Warn { title: title.clone() },
            Event::Reminder { title } => Event::Reminder { title: title.clone() },
        }
    }
}

impl Event {
    pub open spec fn is_warn_for(&self, t: Seq<char>) -> bool {
        self@ == (EventKind::Warn, t)
    }

    pub open spec fn is_reminder_for(&self, t: Seq<char>) -> bool {
        self@ == (EventKind::Reminder, t)
    }

    pub fn kind(&self) -> (r: EventKind)
        ensures
            r == self@.0,
    {
        match self {
            Event::Warn { .. } => EventKind::Warn,
            Event::Reminder { .. } => EventKind::Reminder,
        }
    }

    pub fn title(&self) -> (r: &String)
        ensures
            r@ == self@.1,
    {
        match self {
            Event::Warn { title } => title,
            Event::Reminder { title } => title,
        }
    }
}

} // verus!
