//! Telemetry events and the bus that fans them out to subscribers.
//!
//! Every subscriber has a queue of its own, bounded by the capacity of the
//! bus. Publishing never waits: where a queue is full its oldest event is
//! dropped, and the subscriber is told how many it missed.

use vstd::prelude::*;
use std::collections::VecDeque;
use crate::text::{clone_opt_text, opt_text};

verus! {

/// What an event carries.
#[derive(Debug, Clone, Copy, PartialEq, Eq, Structural)]
pub enum EventKind {
    /// A periodic performance sample.
    RealtimeMonitor,
    BenchmarkResult,
    StressTestResult,
    GamePerformanceResult,
    /// Static facts about the device's chip.
    SocInfo,
}

/// One accepted frame on its way to the subscribers. The payload is the
/// frame as it came; the bus does not look into it.
#[derive(Debug, PartialEq, Eq)]
pub struct TelemetryEvent {
    pub kind: EventKind,
    pub device_id: Option<String>,
    pub timestamp: u64,
    pub payload: String,
}

/// The mathematical value of a `TelemetryEvent`.
pub struct EventView {
    pub kind: EventKind,
    pub device_id: Option<Seq<char>>,
    pub timestamp: u64,
    pub payload: Seq<char>,
}

impl View for TelemetryEvent {
    type V = EventView;

    open spec fn view(&self) -> EventView {
        EventView {
            kind: self.kind,
            device_id: opt_text(self.device_id),
            timestamp: self.timestamp,
            payload: self.payload@,
        }
    }
}

impl Clone for TelemetryEvent {
    fn clone(&self) -> (r: Self)
        ensures
            r@ == self@,
    {
        TelemetryEvent {
            kind: self.kind,
            device_id: clone_opt_text(&self.device_id),
            timestamp: self.timestamp,
            payload: self.payload.clone(),
        }
    }
}

/// The queue of one subscriber: the events it has not read yet, oldest
/// first, and how many were dropped since it was last told.
pub struct QueueView {
    pub pending: Seq<EventView>,
    pub missed: u64,
}

/// The mathematical value of a bus.
pub struct BusView {
    /// The most events that a queue holds.
    pub capacity: usize,
    /// The id that the next subscriber gets.
    pub next_id: u64,
    /// The queue of each current subscriber, by its id.
    pub queues: Map<u64, QueueView>,
}

/// The queue of a subscriber that has just joined.
pub open spec fn empty_queue() -> QueueView {
    QueueView { pending: Seq::empty(), missed: 0 }
}

/// `n + 1`, held at the largest `u64`.
pub open spec fn bumped(n: u64) -> u64 {
    if n < u64::MAX {
        (n + 1) as u64
    } else {
        n
    }
}

/// The count `n` as the bus keeps it: held at the largest `u64`.
pub open spec fn counted(n: int) -> u64 {
    if n <= u64::MAX {
        n as u64
    } else {
        u64::MAX
    }
}

/// A queue after `e` was published to it: appended where there is room;
/// else appended while the oldest event is dropped and counted as missed.
pub open spec fn enqueue(q: QueueView, e: EventView, capacity: usize) -> QueueView {
    if q.pending.len() < capacity {
        QueueView { pending: q.pending.push(e), missed: q.missed }
    } else {
        QueueView { pending: q.pending.push(e).drop_first(), missed: bumped(q.missed) }
    }
}

/// What a subscriber is handed when it asks for its next event.
#[derive(Debug, PartialEq, Eq)]
pub enum Received {
    /// The oldest unread event.
    Item(TelemetryEvent),
    /// Events were dropped since the last call, this many. The next call
    /// goes on with the oldest event that is left.
    Lagged(u64),
    /// Nothing is waiting.
    Empty,
    /// The handle is not subscribed to this bus.
    Closed,
}

/// The mathematical value of a `Received`.
pub enum ReceivedView {
    Item(EventView),
    Lagged(u64),
    Empty,
    Closed,
}

impl View for Received {
    type V = ReceivedView;

    open spec fn view(&self) -> ReceivedView {
        match *self {
            Received::Item(e) => ReceivedView::Item(e@),
            Received::Lagged(n) => ReceivedView::Lagged(n),
            Received::Empty => ReceivedView::Empty,
            Received::Closed => ReceivedView::Closed,
        }
    }
}

/// What a subscriber with the queue `q` is handed next.
pub open spec fn next_of(q: QueueView) -> ReceivedView {
    if q.missed > 0 {
        ReceivedView::Lagged(q.missed)
    } else if q.pending.len() > 0 {
        ReceivedView::Item(q.pending[0])
    } else {
        ReceivedView::Empty
    }
}

/// The queue `q` after its subscriber was handed `next_of(q)`.
pub open spec fn after_receive(q: QueueView) -> QueueView {
    if q.missed > 0 {
        QueueView { pending: q.pending, missed: 0 }
    } else if q.pending.len() > 0 {
        QueueView { pending: q.pending.drop_first(), missed: 0 }
    } else {
        q
    }
}

/// The queues after `e` was published to each of them.
pub open spec fn publish_to_all(queues: Map<u64, QueueView>, e: EventView, capacity: usize) -> Map<
    u64,
    QueueView,
> {
    queues.map_values(|q: QueueView| enqueue(q, e, capacity))
}

/// A queue after each of `events` was published to it, the first first.
pub open spec fn enqueue_all(q: QueueView, events: Seq<EventView>, capacity: usize) -> QueueView
    decreases events.len(),
{
    if events.len() == 0 {
        q
    } else {
        enqueue(enqueue_all(q, events.drop_last(), capacity), events.last(), capacity)
    }
}

/// Everything that a subscriber with the queue `q` is handed when it reads
/// until nothing is waiting: the count of missed events, if there is one,
/// and then the pending events, oldest first.
pub open spec fn drained(q: QueueView) -> Seq<ReceivedView> {
    let items = q.pending.map_values(|e: EventView| ReceivedView::Item(e));
    if q.missed > 0 {
        seq![ReceivedView::Lagged(q.missed)] + items
    } else {
        items
    }
}

/// What a subscriber is handed that reads once after each of `events` is
/// published, and the queue that this leaves.
pub open spec fn relayed(q: QueueView, events: Seq<EventView>, capacity: usize) -> (
    QueueView,
    Seq<ReceivedView>,
)
    decreases events.len(),
{
    if events.len() == 0 {
        (q, Seq::empty())
    } else {
        let (before, seen) = relayed(q, events.drop_last(), capacity);
        let filled = enqueue(before, events.last(), capacity);
        (after_receive(filled), seen.push(next_of(filled)))
    }
}

/// `drained` is what reading one by one gives: the next thing handed out,
/// then what the rest of the queue gives.
pub proof fn lemma_drained_unfolds(q: QueueView)
    ensures
        next_of(q) is Empty ==> drained(q) == Seq::<ReceivedView>::empty(),
        !(next_of(q) is Empty) ==> drained(q) == seq![next_of(q)] + drained(after_receive(q)),
{
    let items = q.pending.map_values(|e: EventView| ReceivedView::Item(e));
    if q.missed > 0 {
        assert(drained(q) =~= seq![next_of(q)] + drained(after_receive(q)));
    } else if q.pending.len() > 0 {
        let rest = q.pending.drop_first().map_values(|e: EventView| ReceivedView::Item(e));
        assert(items =~= seq![ReceivedView::Item(q.pending[0])] + rest);
    } else {
        assert(drained(q) =~= Seq::<ReceivedView>::empty());
    }
}

/// A subscriber that reads nothing while `events` are published keeps the
/// newest `capacity` of them, in order, and the count of those it lost.
pub proof fn lemma_slow_subscriber_keeps_newest(events: Seq<EventView>, capacity: usize)
    ensures
        events.len() <= capacity ==> enqueue_all(empty_queue(), events, capacity) == (QueueView {
            pending: events,
            missed: 0,
        }),
        events.len() > capacity ==> enqueue_all(empty_queue(), events, capacity).pending
            == events.skip(events.len() - capacity),
        events.len() > capacity ==> enqueue_all(empty_queue(), events, capacity).missed
            == counted(events.len() - capacity),
    decreases events.len(),
{
    if events.len() == 0 {
        assert(enqueue_all(empty_queue(), events, capacity).pending =~= events);
    } else {
        let head = events.drop_last();
        lemma_slow_subscriber_keeps_newest(head, capacity);
        let before = enqueue_all(empty_queue(), head, capacity);
        let after = enqueue_all(empty_queue(), events, capacity);
        assert(after == enqueue(before, events.last(), capacity));
        if events.len() <= capacity {
            assert(after.pending =~= events);
        } else if head.len() <= capacity {
            assert(after.pending =~= events.skip(events.len() - capacity));
        } else {
            assert(before.pending.len() == capacity);
            assert(after.pending =~= events.skip(events.len() - capacity));
        }
    }
}

/// The law of the slow subscriber: after more events than its queue holds,
/// reading gives first the count of the events that were dropped and then
/// exactly the newest `capacity` events, in the order of publishing.
pub proof fn lemma_slow_subscriber_observes(events: Seq<EventView>, capacity: usize)
    requires
        capacity < events.len(),
    ensures
        drained(enqueue_all(empty_queue(), events, capacity)) == seq![
            ReceivedView::Lagged(counted(events.len() - capacity)),
        ] + events.skip(events.len() - capacity).map_values(|e: EventView| ReceivedView::Item(e)),
{
    lemma_slow_subscriber_keeps_newest(events, capacity);
}

/// The law of the fast subscriber: one that reads after every publish is
/// handed every event, in the order of publishing, and is never told of a
/// loss.
pub proof fn lemma_fast_subscriber_observes_all(events: Seq<EventView>, capacity: usize)
    requires
        capacity > 0,
    ensures
        relayed(empty_queue(), events, capacity).0 == empty_queue(),
        relayed(empty_queue(), events, capacity).1 == events.map_values(
            |e: EventView| ReceivedView::Item(e),
        ),
    decreases events.len(),
{
    if events.len() == 0 {
        assert(relayed(empty_queue(), events, capacity).1 =~= events.map_values(
            |e: EventView| ReceivedView::Item(e),
        ));
    } else {
        let head = events.drop_last();
        lemma_fast_subscriber_observes_all(head, capacity);
        let (before, seen) = relayed(empty_queue(), head, capacity);
        let filled = enqueue(before, events.last(), capacity);
        assert(filled.pending =~= seq![events.last()]);
        assert(after_receive(filled).pending =~= Seq::<EventView>::empty());
        assert(seen.push(next_of(filled)) =~= events.map_values(
            |e: EventView| ReceivedView::Item(e),
        ));
    }
}

/// The queues after each of `events` was published to all of them, the
/// first first.
pub open spec fn publish_all(queues: Map<u64, QueueView>, events: Seq<EventView>, capacity: usize) -> Map<
    u64,
    QueueView,
>
    decreases events.len(),
{
    if events.len() == 0 {
        queues
    } else {
        publish_to_all(publish_all(queues, events.drop_last(), capacity), events.last(), capacity)
    }
}

/// Publishing reaches every subscriber alike and no one else: after a run
/// of events the subscribers are the same, and the queue of each is what
/// the run makes of it alone.
pub proof fn lemma_publish_all_is_per_subscriber(
    queues: Map<u64, QueueView>,
    events: Seq<EventView>,
    capacity: usize,
)
    ensures
        publish_all(queues, events, capacity).dom() == queues.dom(),
        forall|id: u64|
            queues.contains_key(id) ==> #[trigger] publish_all(queues, events, capacity)[id]
                == enqueue_all(queues[id], events, capacity),
    decreases events.len(),
{
    if events.len() > 0 {
        lemma_publish_all_is_per_subscriber(queues, events.drop_last(), capacity);
    }
    assert(publish_all(queues, events, capacity).dom() =~= queues.dom());
}

/// A subscriber's handle. It is given out by `subscribe` and given back to
/// `unsubscribe`.
#[derive(Debug, PartialEq, Eq)]
pub struct Subscription {
    id: u64,
}

impl Subscription {
    /// The id of the subscriber.
    pub closed spec fn spec_id(&self) -> u64 {
        self.id
    }

    /// The id of the subscriber.
    #[verifier::when_used_as_spec(spec_id)]
    pub fn id(&self) -> (id: u64)
        ensures
            id == self.spec_id(),
    {
        self.id
    }
}

struct Subscriber {
    id: u64,
    queue: VecDeque<TelemetryEvent>,
    missed: u64,
}

impl Subscriber {
    spec fn queue_view(self) -> QueueView {
        QueueView { pending: self.queue@.map_values(|e: TelemetryEvent| e@), missed: self.missed }
    }
}

spec fn subscribed(subs: Seq<Subscriber>, id: u64) -> bool {
    exists|i: int| 0 <= i < subs.len() && subs[i].id == id
}

spec fn place_of(subs: Seq<Subscriber>, id: u64) -> int {
    choose|i: int| 0 <= i < subs.len() && subs[i].id == id
}

spec fn queues_of(subs: Seq<Subscriber>) -> Map<u64, QueueView> {
    Map::new(|id: u64| subscribed(subs, id), |id: u64| subs[place_of(subs, id)].queue_view())
}

spec fn subscribers_ok(subs: Seq<Subscriber>, capacity: usize, next_id: u64) -> bool {
    &&& forall|i: int, j: int| 0 <= i < j < subs.len() ==> subs[i].id != subs[j].id
    &&& forall|i: int| 0 <= i < subs.len() ==> (#[trigger] subs[i]).id < next_id
    &&& forall|i: int| 0 <= i < subs.len() ==> (#[trigger] subs[i]).queue@.len() <= capacity
}

proof fn lemma_place_of(subs: Seq<Subscriber>, capacity: usize, next_id: u64, i: int)
    requires
        subscribers_ok(subs, capacity, next_id),
        0 <= i < subs.len(),
    ensures
        subscribed(subs, subs[i].id),
        place_of(subs, subs[i].id) == i,
        queues_of(subs)[subs[i].id] == subs[i].queue_view(),
        queues_of(subs).contains_key(subs[i].id),
{
    let j = place_of(subs, subs[i].id);
    assert(0 <= j < subs.len() && subs[j].id == subs[i].id);
    if j < i {
        assert(subs[j].id != subs[i].id);
    } else if i < j {
        assert(subs[i].id != subs[j].id);
    }
}

proof fn lemma_queue_count(subs: Seq<Subscriber>)
    requires
        forall|i: int, j: int| 0 <= i < j < subs.len() ==> subs[i].id != subs[j].id,
    ensures
        queues_of(subs).dom().finite(),
        queues_of(subs).dom().len() == subs.len(),
    decreases subs.len(),
{
    if subs.len() == 0 {
        assert(queues_of(subs).dom() =~= Set::<u64>::empty());
    } else {
        let head = subs.drop_last();
        let last = subs.last();
        lemma_queue_count(head);
        assert forall|k: u64| subscribed(subs, k) <==> (k == last.id || subscribed(head, k)) by {
            if subscribed(subs, k) {
                let i = place_of(subs, k);
                if i < head.len() {
                    assert(head[i].id == k);
                }
            }
            if subscribed(head, k) {
                let i = place_of(head, k);
                assert(subs[i].id == k);
            }
            if k == last.id {
                assert(subs[subs.len() - 1].id == k);
            }
        }
        assert(!subscribed(head, last.id)) by {
            if subscribed(head, last.id) {
                let i = place_of(head, last.id);
                assert(subs[i].id != subs[subs.len() - 1].id);
            }
        }
        assert(queues_of(subs).dom() =~= queues_of(head).dom().insert(last.id));
    }
}

/// The capacity of a bus that is made without one.
pub const DEFAULT_CAPACITY: usize = 100;

/// The bus.
pub struct TelemetryBus {
    capacity: usize,
    next_id: u64,
    subscribers: Vec<Subscriber>,
}

impl View for TelemetryBus {
    type V = BusView;

    closed spec fn view(&self) -> BusView {
        BusView {
            capacity: self.capacity,
            next_id: self.next_id,
            queues: queues_of(self.subscribers@),
        }
    }
}

/// What holds of every bus: no queue is longer than the capacity, and
/// every subscriber's id lies below the next id to be given out.
pub open spec fn bus_ok(bus: BusView) -> bool {
    forall|id: u64| #[trigger]
        bus.queues.contains_key(id) ==> id < bus.next_id && bus.queues[id].pending.len()
            <= bus.capacity
}

impl TelemetryBus {
    /// What holds of every bus.
    #[verifier::type_invariant]
    pub closed spec fn well_formed(self) -> bool {
        subscribers_ok(self.subscribers@, self.capacity, self.next_id)
    }

    /// In a bus no queue is longer than the capacity, and every
    /// subscriber's id lies below the next id.
    pub proof fn lemma_well_formed(self)
        requires
            self.well_formed(),
        ensures
            bus_ok(self@),
    {
        self.lemma_bus_ok();
    }

    /// A bus without subscribers, whose queues will hold `capacity` events.
    pub fn new(capacity: usize) -> (bus: Self)
        ensures
            bus@.capacity == capacity,
            bus@.next_id == 0,
            bus@.queues == Map::<u64, QueueView>::empty(),
    {
        let bus = TelemetryBus { capacity, next_id: 0, subscribers: Vec::new() };
        assert(bus@.queues =~= Map::<u64, QueueView>::empty());
        bus
    }

    /// The most events that a queue holds.
    pub fn capacity(&self) -> (c: usize)
        ensures
            c == self@.capacity,
            bus_ok(self@),
    {
        proof {
            use_type_invariant(self);
            self.lemma_bus_ok();
        }
        self.capacity
    }

    /// The number of subscribers.
    pub fn subscriber_count(&self) -> (n: usize)
        ensures
            self@.queues.dom().finite(),
            n == self@.queues.dom().len(),
    {
        proof {
            use_type_invariant(self);
            lemma_queue_count(self.subscribers@);
        }
        self.subscribers.len()
    }

    fn position(&self, id: u64) -> (r: Option<usize>)
        ensures
            subscribers_ok(self.subscribers@, self.capacity, self.next_id),
            match r {
                Some(i) => i < self.subscribers@.len() && self.subscribers@[i as int].id == id
                    && self@.queues.contains_key(id),
                None => !self@.queues.contains_key(id),
            },
    {
        proof {
            use_type_invariant(self);
        }
        let mut i: usize = 0;
        while i < self.subscribers.len()
            invariant
                i <= self.subscribers.len(),
                subscribers_ok(self.subscribers@, self.capacity, self.next_id),
                forall|k: int| 0 <= k < i ==> self.subscribers@[k].id != id,
            decreases self.subscribers.len() - i,
        {
            if self.subscribers[i].id == id {
                assert(subscribed(self.subscribers@, id));
                return Some(i);
            }
            i += 1;
        }
        None
    }

    fn take_subscribers(&mut self) -> (subs: Vec<Subscriber>)
        ensures
            subs == old(self).subscribers,
            subscribers_ok(subs@, old(self).capacity, old(self).next_id),
            final(self).capacity == old(self).capacity,
            final(self).next_id == old(self).next_id,
            final(self).subscribers@.len() == 0,
    {
        proof {
            use_type_invariant(&*self);
        }
        let mut subs: Vec<Subscriber> = Vec::new();
        core::mem::swap(&mut self.subscribers, &mut subs);
        subs
    }

    /// Whether `handle` is subscribed to this bus.
    pub fn is_subscribed(&self, handle: &Subscription) -> (b: bool)
        ensures
            b == self@.queues.contains_key(handle.id()),
    {
        self.position(handle.id).is_some()
    }

    /// Adds a subscriber with an empty queue: it will see the events that
    /// are published from now on, and none from before. `None`, and no
    /// change, once every id has been given out.
    pub fn subscribe(&mut self) -> (r: Option<Subscription>)
        ensures
            bus_ok(final(self)@),
            final(self)@.capacity == old(self)@.capacity,
            match r {
                Some(handle) => {
                    &&& old(self)@.next_id < u64::MAX
                    &&& handle.id() == old(self)@.next_id
                    &&& !old(self)@.queues.contains_key(handle.id())
                    &&& final(self)@.next_id == old(self)@.next_id + 1
                    &&& final(self)@.queues == old(self)@.queues.insert(handle.id(), empty_queue())
                },
                None => old(self)@.next_id == u64::MAX && final(self)@ == old(self)@,
            },
    {
        proof {
            use_type_invariant(&*self);
            self.lemma_bus_ok();
        }
        if self.next_id == u64::MAX {
            return None;
        }
        let id = self.next_id;
        let mut subs = self.take_subscribers();
        let ghost before = subs@;
        subs.push(Subscriber { id, queue: VecDeque::new(), missed: 0 });
        proof {
            let after = subs@;
            assert(after[before.len() as int].queue_view().pending =~= empty_queue().pending);
            assert forall|k: u64| subscribed(after, k) <==> (k == id || subscribed(before, k)) by {
                if subscribed(after, k) {
                    let i = place_of(after, k);
                    if i < before.len() {
                        assert(before[i].id == k);
                    }
                }
                if subscribed(before, k) {
                    let i = place_of(before, k);
                    assert(after[i].id == k);
                }
                if k == id {
                    assert(after[before.len() as int].id == k);
                }
            }
            assert forall|k: u64| subscribed(after, k) implies #[trigger] queues_of(after)[k]
                == old(self)@.queues.insert(id, empty_queue())[k] by {
                let i = place_of(after, k);
                lemma_place_of(after, self.capacity, (id + 1) as u64, i);
                if i < before.len() {
                    lemma_place_of(before, self.capacity, id, i);
                }
            }
            assert(queues_of(after) =~= old(self)@.queues.insert(id, empty_queue()));
        }
        self.next_id = id + 1;
        self.subscribers = subs;
        proof {
            self.lemma_bus_ok();
        }
        Some(Subscription { id })
    }

    /// Takes a subscriber off the bus, with its queue. Says whether the
    /// handle was subscribed.
    pub fn unsubscribe(&mut self, handle: Subscription) -> (was_subscribed: bool)
        ensures
            bus_ok(final(self)@),
            final(self)@.capacity == old(self)@.capacity,
            final(self)@.next_id == old(self)@.next_id,
            was_subscribed == old(self)@.queues.contains_key(handle.id()),
            final(self)@.queues == old(self)@.queues.remove(handle.id()),
    {
        let id = handle.id;
        let found = self.position(id);
        let mut subs = self.take_subscribers();
        let ghost before = subs@;
        let r = match found {
            Some(i) => {
                let _ = subs.remove(i);
                proof {
                    let after = subs@;
                    let gone = i as int;
                    assert forall|k: u64| subscribed(after, k) <==> (k != id && subscribed(
                        before,
                        k,
                    )) by {
                        if subscribed(after, k) {
                            let a = place_of(after, k);
                            let b = if a < gone { a } else { a + 1 };
                            assert(before[b].id == k);
                            if b < gone {
                                assert(before[b].id != before[gone].id);
                            } else {
                                assert(before[gone].id != before[b].id);
                            }
                        }
                        if k != id && subscribed(before, k) {
                            let b = place_of(before, k);
                            let a = if b < gone { b } else { b - 1 };
                            assert(after[a].id == k);
                        }
                    }
                    assert(subscribers_ok(after, self.capacity, self.next_id)) by {
                        assert forall|x: int, y: int| 0 <= x < y < after.len() implies after[x].id
                            != after[y].id by {
                            let bx = if x < gone { x } else { x + 1 };
                            let by_ = if y < gone { y } else { y + 1 };
                            assert(before[bx].id != before[by_].id);
                        }
                    }
                    assert forall|k: u64| subscribed(after, k) implies #[trigger] queues_of(
                        after,
                    )[k] == old(self)@.queues.remove(id)[k] by {
                        let a = place_of(after, k);
                        let b = if a < gone { a } else { a + 1 };
                        lemma_place_of(after, self.capacity, self.next_id, a);
                        lemma_place_of(before, self.capacity, self.next_id, b);
                    }
                    assert(queues_of(after) =~= old(self)@.queues.remove(id));
                }
                true
            },
            None => {
                assert(old(self)@.queues.remove(id) =~= old(self)@.queues);
                false
            },
        };
        self.subscribers = subs;
        proof {
            self.lemma_bus_ok();
        }
        r
    }

    /// Publishes `event`: a copy goes to the end of every subscriber's
    /// queue. A queue that is full loses its oldest event to make room.
    pub fn publish(&mut self, event: TelemetryEvent)
        ensures
            bus_ok(final(self)@),
            final(self)@.capacity == old(self)@.capacity,
            final(self)@.next_id == old(self)@.next_id,
            final(self)@.queues == publish_to_all(
                old(self)@.queues,
                event@,
                old(self)@.capacity,
            ),
    {
        let capacity = self.capacity;
        let mut subs = self.take_subscribers();
        let ghost before = subs@;
        let mut i: usize = 0;
        while i < subs.len()
            invariant
                i <= subs@.len(),
                subs@.len() == before.len(),
                capacity == self.capacity,
                subscribers_ok(before, capacity, self.next_id),
                forall|k: int| 0 <= k < subs@.len() ==> (#[trigger] subs@[k]).id == before[k].id,
                forall|k: int|
                    0 <= k < i ==> (#[trigger] subs@[k]).queue_view() == enqueue(
                        before[k].queue_view(),
                        event@,
                        capacity,
                    ),
                forall|k: int| i <= k < subs@.len() ==> subs@[k] == before[k],
                forall|k: int| 0 <= k < subs@.len() ==> (#[trigger] subs@[k]).queue@.len() <= capacity,
            decreases subs@.len() - i,
        {
            let ghost q = subs@[i as int].queue_view();
            if subs[i].queue.len() >= capacity {
                let _ = subs[i].queue.pop_front();
                if subs[i].missed < u64::MAX {
                    subs[i].missed = subs[i].missed + 1;
                }
            }
            if capacity > 0 {
                subs[i].queue.push_back(event.clone());
            }
            proof {
                assert(subs@[i as int].queue_view().pending =~= enqueue(q, event@, capacity).pending);
            }
            i += 1;
        }
        proof {
            let after = subs@;
            assert forall|k: u64| subscribed(after, k) <==> subscribed(before, k) by {
                if subscribed(after, k) {
                    let a = place_of(after, k);
                    assert(before[a].id == k);
                }
                if subscribed(before, k) {
                    let b = place_of(before, k);
                    assert(after[b].id == k);
                }
            }
            assert(subscribers_ok(after, capacity, self.next_id)) by {
                assert forall|x: int, y: int| 0 <= x < y < after.len() implies after[x].id
                    != after[y].id by {
                    assert(before[x].id != before[y].id);
                }
                assert forall|x: int| 0 <= x < after.len() implies (#[trigger] after[x]).id
                    < self.next_id by {
                    assert(before[x].id < self.next_id);
                }
            }
            assert forall|k: u64| subscribed(after, k) implies #[trigger] queues_of(after)[k]
                == publish_to_all(old(self)@.queues, event@, capacity)[k] by {
                let a = place_of(after, k);
                lemma_place_of(after, capacity, self.next_id, a);
                lemma_place_of(before, capacity, self.next_id, a);
            }
            assert(queues_of(after) =~= publish_to_all(old(self)@.queues, event@, capacity));
        }
        self.subscribers = subs;
        proof {
            self.lemma_bus_ok();
        }
    }

    /// Hands the subscriber its next event, or says why there is none. A
    /// subscriber that fell behind is told once how many events it missed,
    /// and then goes on with the oldest that is left.
    pub fn try_recv(&mut self, handle: &Subscription) -> (r: Received)
        ensures
            bus_ok(final(self)@),
            final(self)@.capacity == old(self)@.capacity,
            final(self)@.next_id == old(self)@.next_id,
            old(self)@.queues.contains_key(handle.id()) ==> {
                &&& r@ == next_of(old(self)@.queues[handle.id()])
                &&& final(self)@.queues == old(self)@.queues.insert(
                    handle.id(),
                    after_receive(old(self)@.queues[handle.id()]),
                )
            },
            !old(self)@.queues.contains_key(handle.id()) ==> {
                &&& r@ == ReceivedView::Closed
                &&& final(self)@.queues == old(self)@.queues
            },
    {
        let id = handle.id;
        let found = self.position(id);
        let mut subs = self.take_subscribers();
        let ghost before = subs@;
        let r = match found {
            Some(i) => {
                proof {
                    lemma_place_of(before, self.capacity, self.next_id, i as int);
                }
                let ghost q = before[i as int].queue_view();
                let r = if subs[i].missed > 0 {
                    let n = subs[i].missed;
                    subs[i].missed = 0;
                    Received::Lagged(n)
                } else {
                    match subs[i].queue.pop_front() {
                        Some(e) => Received::Item(e),
                        None => Received::Empty,
                    }
                };
                proof {
                    let after = subs@;
                    assert(after[i as int].queue_view().pending =~= after_receive(q).pending);
                    assert(r@ == next_of(q));
                    assert forall|k: u64| subscribed(after, k) <==> subscribed(before, k) by {
                        if subscribed(after, k) {
                            let a = place_of(after, k);
                            assert(before[a].id == k);
                        }
                        if subscribed(before, k) {
                            let b = place_of(before, k);
                            assert(after[b].id == k);
                        }
                    }
                    assert(subscribers_ok(after, self.capacity, self.next_id)) by {
                        assert forall|x: int, y: int| 0 <= x < y < after.len() implies after[x].id
                            != after[y].id by {
                            assert(before[x].id != before[y].id);
                        }
                        assert forall|x: int| 0 <= x < after.len() implies (#[trigger] after[x]).id
                            < self.next_id by {
                            assert(before[x].id < self.next_id);
                        }
                        assert forall|x: int| 0 <= x < after.len() implies (#[trigger] after[x]).queue@.len()
                            <= self.capacity by {
                            assert(before[x].queue@.len() <= self.capacity);
                        }
                    }
                    assert forall|k: u64| subscribed(after, k) implies #[trigger] queues_of(
                        after,
                    )[k] == old(self)@.queues.insert(id, after_receive(q))[k] by {
                        let a = place_of(after, k);
                        lemma_place_of(after, self.capacity, self.next_id, a);
                        lemma_place_of(before, self.capacity, self.next_id, a);
                    }
                    assert(queues_of(after) =~= old(self)@.queues.insert(id, after_receive(q)));
                }
                r
            },
            None => Received::Closed,
        };
        self.subscribers = subs;
        proof {
            self.lemma_bus_ok();
        }
        r
    }

    proof fn lemma_bus_ok(&self)
        requires
            subscribers_ok(self.subscribers@, self.capacity, self.next_id),
        ensures
            bus_ok(self@),
    {
        let subs = self.subscribers@;
        assert forall|id: u64| #[trigger] self@.queues.contains_key(id) implies id < self@.next_id
            && self@.queues[id].pending.len() <= self@.capacity by {
            let i = place_of(subs, id);
            assert(subs[i].id < self.next_id);
            assert(subs[i].queue@.len() <= self.capacity);
        }
    }
}

impl Default for TelemetryBus {
    /// A bus without subscribers, of the default capacity.
    fn default() -> (bus: Self)
        ensures
            bus@.capacity == DEFAULT_CAPACITY,
            bus@.next_id == 0,
            bus@.queues == Map::<u64, QueueView>::empty(),
    {
        TelemetryBus::new(DEFAULT_CAPACITY)
    }
}

} // verus!
