use vstd::prelude::*;

use crate::event::{Event, EventKind, EventModel};

verus! {

/// Text sent to the recipient for an event: the kind, a space, the title.
pub open spec fn gateway_text(e: EventModel) -> Seq<char> {
    match e.0 {
        EventKind::Warn => "Warn "@ + e.1,
        EventKind::Reminder => "Reminder "@ + e.1,
    }
}

pub open spec fn saturating_add(a: u64, b: u64) -> u64 {
    if a + b > u64::MAX {
        u64::MAX
    } else {
        (a + b) as u64
    }
}

/// One step of the warn debounce of a gateway connection. `until` is the
/// instant up to which further `Warn` events are suppressed. A `Warn` at
/// `now` is sent unless `now < until`, and a sent `Warn` suppresses the next
/// `spacing` milliseconds. A `Reminder` is always sent and leaves the state
/// alone. Returns the next state and whether the event is sent.
pub open spec fn debounce_step(until: Option<u64>, spacing: u64, now: u64, kind: EventKind) -> (
    Option<u64>,
    bool,
) {
    match kind {
        EventKind::Reminder => (until, true),
        EventKind::Warn => {
            if until matches Some(u) && now < u {
                (until, false)
            } else {
                (Some(saturating_add(now, spacing)), true)
            }
        },
    }
}

/// The per-connection state of the gateway: the warn spacing window and
/// when the current one ends.
pub struct WarnDebounce {
    pub spacing: u64,
    pub suppressed_until: Option<u64>,
}

impl WarnDebounce {
    /// A fresh connection: nothing is suppressed.
    pub fn new(spacing: u64) -> (r: WarnDebounce)
        ensures
            r.spacing == spacing,
            r.suppressed_until.is_none(),
    {
        WarnDebounce { spacing, suppressed_until: None }
    }

    /// Handles an event that arrives `now` milliseconds into the connection;
    /// returns the text to send to the recipient, or `None` when a `Warn` is
    /// suppressed.
    pub fn on_event(&mut self, now: u64, event: &Event) -> (r: Option<String>)
        ensures
            final(self).spacing == old(self).spacing,
            (final(self).suppressed_until, r is Some) == debounce_step(
                old(self).suppressed_until,
                old(self).spacing,
                now,
                event@.0,
            ),
            r matches Some(text) ==> text@ == gateway_text(event@),
    {
        match event {
            Event::Reminder { title } => {
                let mut text = String::from_str("Reminder ");
                text.append(title.as_str());
                Some(text)
            },
            Event::Warn { title } => {
                if let Some(u) = self.suppressed_until {
                    if now < u {
                        return None;
                    }
                }
                self.suppressed_until = Some(now.saturating_add(self.spacing));
                let mut text = String::from_str("Warn ");
                text.append(title.as_str());
                Some(text)
            },
        }
    }
}

/// Whether each of a run of events, the `i`th arriving at `times[i]`, is sent.
pub open spec fn sends(until: Option<u64>, spacing: u64, times: Seq<u64>, kinds: Seq<EventKind>) -> Seq<bool>
    decreases times.len(),
{
    if times.len() == 0 || kinds.len() == 0 {
        Seq::empty()
    } else {
        let (next, sent) = debounce_step(until, spacing, times[0], kinds[0]);
        seq![sent] + sends(next, spacing, times.drop_first(), kinds.drop_first())
    }
}

/// On a fresh connection, two `Warn` events within the spacing window give
/// one send, and a third `Warn` once the window has passed gives a second.
pub proof fn lemma_warn_debounce(spacing: u64, t1: u64, t2: u64, t3: u64)
    requires
        t1 <= t2,
        t2 < t1 + spacing,
        t1 + spacing <= t3,
    ensures
        sends(None, spacing, seq![t1, t2, t3], seq![EventKind::Warn, EventKind::Warn, EventKind::Warn])
            == seq![true, false, true],
{
    let times = seq![t1, t2, t3];
    let kinds = seq![EventKind::Warn, EventKind::Warn, EventKind::Warn];
    assert(times.drop_first() =~= seq![t2, t3]);
    assert(kinds.drop_first() =~= seq![EventKind::Warn, EventKind::Warn]);
    assert(seq![t2, t3].drop_first() =~= seq![t3]);
    assert(seq![EventKind::Warn, EventKind::Warn].drop_first() =~= seq![EventKind::Warn]);
    assert(seq![t3].drop_first() =~= Seq::<u64>::empty());
    assert(seq![EventKind::Warn].drop_first() =~= Seq::<EventKind>::empty());
    let u = saturating_add(t1, spacing);
    assert(u == t1 + spacing);
    let w = saturating_add(t3, spacing);
    assert(debounce_step(Some(u), spacing, t3, EventKind::Warn) == (Some(w), true));
    assert(sends(Some(w), spacing, Seq::<u64>::empty(), Seq::<EventKind>::empty()) == Seq::<
        bool,
    >::empty());
    assert(sends(Some(u), spacing, seq![t3], seq![EventKind::Warn]) == seq![true] + Seq::<
        bool,
    >::empty());
    assert(sends(Some(u), spacing, seq![t3], seq![EventKind::Warn]) =~= seq![true]);
    assert(sends(Some(u), spacing, seq![t2, t3], seq![EventKind::Warn, EventKind::Warn]) =~= seq![
        false,
        true,
    ]);
    assert(sends(None, spacing, times, kinds) =~= seq![true, false, true]);
}

/// A `Reminder` is never suppressed, whatever the state.
pub proof fn lemma_reminder_always_sent(until: Option<u64>, spacing: u64, now: u64)
    ensures
        debounce_step(until, spacing, now, EventKind::Reminder) == (until, true),
{
}

} // verus!
