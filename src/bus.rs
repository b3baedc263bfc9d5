use vstd::prelude::*;

use crate::event::{Event, EventModel};

verus! {

/// Capacity of the bus that the application creates.
pub const DEFAULT_CAPACITY: usize = 16;

/// What one receive attempt of a subscriber yields, as a mathematical value.
pub enum Delivery {
    Event(EventModel),
    /// The subscriber fell behind and this many of the oldest unread events
    /// were skipped.
    Lagged(nat),
    Empty,
    Closed,
}

/// The outcome of [`EventBus::try_recv`].
#[derive(Debug, PartialEq, Eq)]
pub enum Received {
    Event(Event),
    /// The subscriber fell behind and this many events were lost; its next
    /// receive yields the oldest event still held.
    Lagged(u64),
    /// Nothing new has been published since the last receive.
    Empty,
    /// The subscription does not exist or was dropped.
    Closed,
}

impl View for Received {
    type V = Delivery;

    open spec fn view(&self) -> Delivery {
        match self {
            Received::Event(e) => Delivery::Event(e@),
            Received::Lagged(n) => Delivery::Lagged(*n as nat),
            Received::Empty => Delivery::Empty,
            Received::Closed => Delivery::Closed,
        }
    }
}

/// Mathematical picture of the bus: its capacity, every event it has ever
/// accepted in arrival order, and for each subscription ever made the index
/// in that history of the next event to read (`None` once dropped).
pub struct BusView {
    pub capacity: nat,
    pub history: Seq<EventModel>,
    pub cursors: Seq<Option<nat>>,
}

impl BusView {
    pub open spec fn is_subscribed(self, id: int) -> bool {
        0 <= id < self.cursors.len() && self.cursors[id] is Some
    }

    pub open spec fn has_subscribers(self) -> bool {
        exists|id: int| self.is_subscribed(id)
    }

    /// A publish is kept only while someone is subscribed.
    pub open spec fn publish(self, e: EventModel) -> BusView {
        if self.has_subscribers() {
            BusView { history: self.history.push(e), ..self }
        } else {
            self
        }
    }

    /// A new subscription starts after everything published so far.
    pub open spec fn subscribe(self) -> BusView {
        BusView { cursors: self.cursors.push(Some(self.history.len())), ..self }
    }

    pub open spec fn unsubscribe(self, id: int) -> BusView {
        if 0 <= id < self.cursors.len() {
            BusView { cursors: self.cursors.update(id, None), ..self }
        } else {
            self
        }
    }

    /// One receive attempt of subscription `id`: an event in order, or the
    /// number of events lost when more than `capacity` are unread, after
    /// which reading resumes at the oldest event still held.
    pub open spec fn recv(self, id: int) -> (BusView, Delivery) {
        if !self.is_subscribed(id) {
            (self, Delivery::Closed)
        } else {
            let c = self.cursors[id]->Some_0;
            let t = self.history.len();
            if c >= t {
                (self, Delivery::Empty)
            } else if t - c > self.capacity {
                (
                    BusView {
                        cursors: self.cursors.update(id, Some((t - self.capacity) as nat)),
                        ..self
                    },
                    Delivery::Lagged((t - self.capacity - c) as nat),
                )
            } else {
                (
                    BusView { cursors: self.cursors.update(id, Some(c + 1)), ..self },
                    Delivery::Event(self.history[c as int]),
                )
            }
        }
    }
}

/// A bounded broadcast channel of events: a ring buffer of `capacity` slots
/// shared by all subscribers, each with its own read cursor. A subscriber
/// that falls more than `capacity` events behind loses the oldest ones.
pub struct EventBus {
    slots: Vec<Option<Event>>,
    tail: u64,
    cursors: Vec<Option<u64>>,
    history: Ghost<Seq<EventModel>>,
}

pub open spec fn cursor_view(c: Option<u64>) -> Option<nat> {
    match c {
        Some(x) => Some(x as nat),
        None => None,
    }
}

impl View for EventBus {
    type V = BusView;

    closed spec fn view(&self) -> BusView {
        BusView {
            capacity: self.slots@.len(),
            history: self.history@,
            cursors: self.cursors@.map_values(|c: Option<u64>| cursor_view(c)),
        }
    }
}

proof fn lemma_mod_distinct(s: int, t: int, cap: int)
    requires
        0 < cap,
        0 <= s < t,
        t - s < cap,
    ensures
        s % cap != t % cap,
{
    vstd::arithmetic::div_mod::lemma_fundamental_div_mod(s, cap);
    vstd::arithmetic::div_mod::lemma_fundamental_div_mod(t, cap);
    let qs = s / cap;
    let qt = t / cap;
    if s % cap == t % cap {
        assert(t - s == (qt - qs) * cap) by (nonlinear_arith)
            requires
                s == cap * qs + s % cap,
                t == cap * qt + t % cap,
                s % cap == t % cap,
        ;
        assert(false) by (nonlinear_arith)
            requires
                t - s == (qt - qs) * cap,
                0 < t - s < cap,
        ;
    }
}

impl EventBus {
    /// The ring buffer holds every event of the last `capacity` publishes, and
    /// no cursor is ahead of the history.
    pub closed spec fn wf(&self) -> bool {
        &&& self.slots@.len() > 0
        &&& self.tail == self.history@.len()
        &&& forall|s: int|
            0 <= s < self.tail && self.tail - self.slots@.len() <= s ==> #[trigger] self.holds_at(s)
        &&& forall|i: int|
            0 <= i < self.cursors@.len() ==> (#[trigger] self.cursors@[i] matches Some(c) ==> c
                <= self.tail)
    }

    /// Slot `s % capacity` holds event `s` of the history.
    closed spec fn holds_at(&self, s: int) -> bool {
        self.slots@[s % self.slots@.len() as int] matches Some(e) && e@ == self.history@[s]
    }

    /// An empty bus with `capacity` slots and no subscriber.
    pub fn new(capacity: usize) -> (r: EventBus)
        requires
            capacity > 0,
        ensures
            r.wf(),
            r@ == (BusView { capacity: capacity as nat, history: Seq::empty(), cursors: Seq::empty() }),
    {
        let mut slots: Vec<Option<Event>> = Vec::new();
        let mut i: usize = 0;
        while i < capacity
            invariant
                i <= capacity,
                slots@.len() == i,
            decreases capacity - i,
        {
            slots.push(None);
            i += 1;
        }
        let r = EventBus { slots, tail: 0, cursors: Vec::new(), history: Ghost(Seq::empty()) };
        assert(r@.cursors =~= Seq::<Option<nat>>::empty());
        r
    }

    /// Number of events accepted so far.
    pub fn published(&self) -> (r: u64)
        requires
            self.wf(),
        ensures
            r == self@.history.len(),
    {
        self.tail
    }

    /// Opens a subscription that sees only events published from now on.
    pub fn subscribe(&mut self) -> (id: usize)
        requires
            old(self).wf(),
        ensures
            final(self).wf(),
            id == old(self)@.cursors.len(),
            final(self)@ == old(self)@.subscribe(),
    {
        let id = self.cursors.len();
        self.cursors.push(Some(self.tail));
        assert(self@.cursors =~= old(self)@.subscribe().cursors);
        assert forall|i: int|
            0 <= i < self.cursors@.len() implies (#[trigger] self.cursors@[i] matches Some(c) ==> c
                <= self.tail) by {
            if i < id {
                assert(self.cursors@[i] == old(self).cursors@[i]);
            }
        }
        proof {
            lemma_ring_frame(&*old(self), &*self);
        }
        id
    }

    /// Drops subscription `id`; later receives on it yield `Closed`.
    pub fn unsubscribe(&mut self, id: usize)
        requires
            old(self).wf(),
        ensures
            final(self).wf(),
            final(self)@ == old(self)@.unsubscribe(id as int),
    {
        if id < self.cursors.len() {
            self.cursors.set(id, None);
            assert(self@.cursors =~= old(self)@.unsubscribe(id as int).cursors);
            assert forall|i: int|
                0 <= i < self.cursors@.len() implies (#[trigger] self.cursors@[i] matches Some(c)
                    ==> c <= self.tail) by {
                if i != id {
                    assert(self.cursors@[i] == old(self).cursors@[i]);
                }
            }
        }
        proof {
            lemma_ring_frame(&*old(self), &*self);
        }
    }

    /// Whether some subscription is open.
    pub fn has_subscribers(&self) -> (r: bool)
        requires
            self.wf(),
        ensures
            r == self@.has_subscribers(),
    {
        let mut i: usize = 0;
        while i < self.cursors.len()
            invariant
                i <= self.cursors@.len(),
                forall|j: int| 0 <= j < i ==> #[trigger] self.cursors@[j] is None,
            decreases self.cursors@.len() - i,
        {
            if self.cursors[i].is_some() {
                assert(self@.is_subscribed(i as int));
                return true;
            }
            i += 1;
        }
        assert forall|id: int| !self@.is_subscribed(id) by {
            if 0 <= id < self.cursors@.len() {
                assert(self.cursors@[id] is None);
            }
        }
        false
    }

    /// Appends `event` for every open subscription; with no subscriber the
    /// event is dropped. Returns whether it was kept.
    pub fn publish(&mut self, event: Event) -> (r: bool)
        requires
            old(self).wf(),
            old(self)@.history.len() < u64::MAX,
        ensures
            final(self).wf(),
            r == old(self)@.has_subscribers(),
            final(self)@ == old(self)@.publish(event@),
    {
        if !self.has_subscribers() {
            return false;
        }
        let cap = self.slots.len();
        let slot = (self.tail % (cap as u64)) as usize;
        let ghost old_hist = self.history@;
        let ghost e = event@;
        self.slots.set(slot, Some(event));
        self.tail = self.tail + 1;
        self.history = Ghost(old_hist.push(e));
        proof {
            assert forall|s: int|
                0 <= s < self.tail && self.tail - self.slots@.len() <= s implies #[trigger] self.holds_at(s) by {
                assert(self.slots@[(self.tail - 1) % cap as int] matches Some(x) && x@ == e);
                if s < self.tail - 1 {
                    lemma_mod_distinct(s, self.tail - 1, cap as int);
                    assert(old_hist[s] == self.history@[s]);
                    assert(self.slots@[s % cap as int] == old(self).slots@[s % cap as int]);
                    assert(old(self).holds_at(s));
                }
            }
            assert forall|i: int|
                0 <= i < self.cursors@.len() implies (#[trigger] self.cursors@[i] matches Some(c)
                    ==> c <= self.tail) by {
                assert(self.cursors@[i] == old(self).cursors@[i]);
            }
        }
        true
    }

    /// One receive attempt of subscription `id`.
    pub fn try_recv(&mut self, id: usize) -> (r: Received)
        requires
            old(self).wf(),
        ensures
            final(self).wf(),
            (final(self)@, r@) == old(self)@.recv(id as int),
    {
        let cursor = if id < self.cursors.len() {
            self.cursors[id]
        } else {
            None
        };
        let r = match cursor {
            None => Received::Closed,
            Some(c) => {
                assert(self.cursors@[id as int] matches Some(x) && x <= self.tail);
                let cap = self.slots.len() as u64;
                if c >= self.tail {
                    Received::Empty
                } else if self.tail - c > cap {
                    self.set_cursor(id, self.tail - cap);
                    Received::Lagged(self.tail - cap - c)
                } else {
                    let slot = (c % cap) as usize;
                    assert(self.holds_at(c as int));
                    let e = match &self.slots[slot] {
                        Some(x) => Received::Event(x.clone()),
                        None => Received::Closed,
                    };
                    self.set_cursor(id, c + 1);
                    e
                }
            },
        };
        proof {
            lemma_ring_frame(&*old(self), &*self);
        }
        r
    }

    fn set_cursor(&mut self, id: usize, c: u64)
        requires
            old(self).wf(),
            id < old(self).cursors@.len(),
            c <= old(self).tail,
        ensures
            final(self).slots == old(self).slots,
            final(self).tail == old(self).tail,
            final(self).history == old(self).history,
            final(self).cursors@ == old(self).cursors@.update(id as int, Some(c)),
            final(self)@.cursors == old(self)@.cursors.update(id as int, Some(c as nat)),
            forall|i: int|
                0 <= i < final(self).cursors@.len() ==> (#[trigger] final(self).cursors@[i] matches Some(x)
                    ==> x <= final(self).tail),
    {
        self.cursors.set(id, Some(c));
        assert(self@.cursors =~= old(self)@.cursors.update(id as int, Some(c as nat)));
        assert forall|i: int|
            0 <= i < self.cursors@.len() implies (#[trigger] self.cursors@[i] matches Some(x) ==> x
                <= self.tail) by {
            if i != id {
                assert(self.cursors@[i] == old(self).cursors@[i]);
            }
        }
    }
}

/// The ring buffer part of the invariant depends on the slots, the history
/// and the count of events only.
proof fn lemma_ring_frame(a: &EventBus, b: &EventBus)
    requires
        a.wf(),
        a.slots == b.slots,
        a.tail == b.tail,
        a.history == b.history,
        forall|i: int|
            0 <= i < b.cursors@.len() ==> (#[trigger] b.cursors@[i] matches Some(x) ==> x <= b.tail),
    ensures
        b.wf(),
{
    assert forall|s: int| 0 <= s < b.tail && b.tail - b.slots@.len() <= s implies #[trigger] b.holds_at(s) by {
        assert(a.holds_at(s));
    }
}

/// The bus after `events` are published one after the other.
pub open spec fn publish_all(v: BusView, events: Seq<EventModel>) -> BusView
    decreases events.len(),
{
    if events.len() == 0 {
        v
    } else {
        publish_all(v, events.drop_last()).publish(events.last())
    }
}

/// What `n` receive attempts in a row of subscription `id` yield.
pub open spec fn receive_n(v: BusView, id: int, n: nat) -> Seq<Delivery>
    decreases n,
{
    if n == 0 {
        Seq::empty()
    } else {
        let (w, d) = v.recv(id);
        seq![d] + receive_n(w, id, (n - 1) as nat)
    }
}

pub open spec fn as_deliveries(events: Seq<EventModel>) -> Seq<Delivery> {
    events.map_values(|e: EventModel| Delivery::Event(e))
}

/// While someone is subscribed, every publish is appended to the history.
pub proof fn lemma_publish_all(v: BusView, events: Seq<EventModel>)
    requires
        v.has_subscribers(),
    ensures
        publish_all(v, events) == (BusView { history: v.history + events, ..v }),
    decreases events.len(),
{
    if events.len() > 0 {
        lemma_publish_all(v, events.drop_last());
        let w = publish_all(v, events.drop_last());
        let id = choose|id: int| v.is_subscribed(id);
        assert(w.is_subscribed(id));
        assert((v.history + events.drop_last()).push(events.last()) =~= v.history + events);
    } else {
        assert(v.history + events =~= v.history);
    }
}

/// A subscription at most `capacity` events behind reads them all in order,
/// then finds the bus empty.
proof fn lemma_drain(v: BusView, id: int)
    requires
        v.is_subscribed(id),
        v.cursors[id]->Some_0 <= v.history.len(),
        v.history.len() - v.cursors[id]->Some_0 <= v.capacity,
    ensures
        ({
            let c = v.cursors[id]->Some_0 as int;
            let t = v.history.len() as int;
            receive_n(v, id, (t - c + 1) as nat) == as_deliveries(v.history.subrange(c, t)).push(
                Delivery::Empty,
            )
        }),
    decreases v.history.len() - v.cursors[id]->Some_0,
{
    let c = v.cursors[id]->Some_0 as int;
    let t = v.history.len() as int;
    if c == t {
        assert(receive_n(v, id, 0) == Seq::<Delivery>::empty());
        assert(as_deliveries(v.history.subrange(c, t)) =~= Seq::<Delivery>::empty());
        assert(receive_n(v, id, 1) =~= seq![Delivery::Empty]);
    } else {
        let (w, d) = v.recv(id);
        assert(w.cursors[id] == Some((c + 1) as nat));
        lemma_drain(w, id);
        assert(as_deliveries(v.history.subrange(c, t)) =~= seq![Delivery::Event(v.history[c])]
            + as_deliveries(v.history.subrange(c + 1, t)));
        assert(receive_n(v, id, (t - c + 1) as nat) =~= seq![d] + receive_n(w, id, (t - c) as nat));
    }
}

/// Subscriptions opened after the last publish all receive the next
/// `events`, as long as there are at most `capacity` of them, in the order
/// in which they were published, and then find the bus empty.
pub proof fn lemma_fan_out(v: BusView, ids: Seq<int>, events: Seq<EventModel>)
    requires
        ids.len() > 0,
        forall|k: int|
            0 <= k < ids.len() ==> v.is_subscribed(#[trigger] ids[k]) && v.cursors[ids[k]]
                == Some(v.history.len()),
        events.len() <= v.capacity,
    ensures
        forall|k: int|
            0 <= k < ids.len() ==> receive_n(
                publish_all(v, events),
                #[trigger] ids[k],
                events.len() + 1,
            ) == as_deliveries(events).push(Delivery::Empty),
{
    assert(v.is_subscribed(ids[0]));
    lemma_publish_all(v, events);
    let w = publish_all(v, events);
    assert forall|k: int| 0 <= k < ids.len() implies receive_n(w, #[trigger] ids[k], events.len() + 1)
        == as_deliveries(events).push(Delivery::Empty) by {
        assert(v.is_subscribed(ids[k]));
        lemma_drain(w, ids[k]);
        assert(w.history.subrange(v.history.len() as int, w.history.len() as int) =~= events);
    }
}

/// A subscription that reads nothing while more than `capacity` events are
/// published first learns how many of the oldest it lost, then receives the
/// last `capacity` of them in order, then finds the bus empty.
pub proof fn lemma_overflow(v: BusView, id: int, events: Seq<EventModel>)
    requires
        v.capacity > 0,
        v.is_subscribed(id),
        v.cursors[id] == Some(v.history.len()),
        events.len() > v.capacity,
    ensures
        ({
            let m = events.len() as int;
            let cap = v.capacity as int;
            receive_n(publish_all(v, events), id, (cap + 2) as nat) == seq![
                Delivery::Lagged((m - cap) as nat),
            ] + as_deliveries(events.subrange(m - cap, m)).push(Delivery::Empty)
        }),
{
    let m = events.len() as int;
    let cap = v.capacity as int;
    lemma_publish_all(v, events);
    let w = publish_all(v, events);
    let (x, d) = w.recv(id);
    assert(d == Delivery::Lagged((m - cap) as nat));
    assert(x.cursors[id] == Some((w.history.len() - cap) as nat));
    lemma_drain(x, id);
    assert(x.history.subrange(x.history.len() - cap, x.history.len() as int) =~= events.subrange(
        m - cap,
        m,
    ));
    assert(receive_n(w, id, (cap + 2) as nat) =~= seq![d] + receive_n(x, id, (cap + 1) as nat));
}

} // verus!
