//! The broadcast hub: every published sample is handed to each subscriber's
//! own bounded queue.
//!
//! A queue that is full when a sample is published does not take it. The
//! sample is dropped for that subscriber alone and counted as missed; the
//! publisher never waits and the other subscribers are not affected. A
//! subscriber reads its queue oldest first, and learns how many samples it
//! missed once the queue has run empty.

use std::collections::VecDeque;
use vstd::prelude::*;
use crate::shared::SystemMetric;

verus! {

/// Capacity of a subscriber's queue unless chosen otherwise.
pub const DEFAULT_CAPACITY: usize = 100;

/// What a subscriber is handed when it asks for the next sample.
#[derive(Debug, PartialEq, Eq)]
pub enum Delivery {
    /// The oldest sample waiting in the queue.
    Metric(SystemMetric),
    /// The queue is empty, and this many samples were dropped while it was
    /// full. They are reported once.
    Lagged(u64),
    /// Nothing is waiting and nothing was missed.
    Empty,
    /// There is no such subscription.
    Closed,
}

/// What can happen to one subscription: a sample is published, or the
/// subscriber reads its next delivery.
pub enum QueueEvent {
    Published(SystemMetric),
    Read,
}

/// The state of one subscription.
pub struct Subscription {
    pub id: u64,
    /// Samples waiting to be read, oldest first.
    pub pending: Seq<SystemMetric>,
    /// Samples dropped since the last report.
    pub missed: u64,
}

/// The state of a hub.
pub struct HubState {
    /// Capacity of every queue.
    pub capacity: nat,
    /// Number of tickets handed out so far, which is the next ticket.
    pub issued: nat,
    /// The subscriptions, in the order in which they were made.
    pub subscriptions: Seq<Subscription>,
}

impl Subscription {
    /// The subscription after `metric` was published: queued where there is
    /// room, else counted as missed.
    pub open spec fn offered(self, metric: SystemMetric, capacity: nat) -> Subscription {
        if self.pending.len() < capacity {
            Subscription { pending: self.pending.push(metric), ..self }
        } else if self.missed < u64::MAX {
            Subscription { missed: (self.missed + 1) as u64, ..self }
        } else {
            self
        }
    }

    /// What the subscriber is handed next.
    pub open spec fn next_delivery(self) -> Delivery {
        if self.pending.len() > 0 {
            Delivery::Metric(self.pending[0])
        } else if self.missed > 0 {
            Delivery::Lagged(self.missed)
        } else {
            Delivery::Empty
        }
    }

    /// The subscription after the subscriber was handed [`Self::next_delivery`].
    pub open spec fn after_delivery(self) -> Subscription {
        if self.pending.len() > 0 {
            Subscription { pending: self.pending.skip(1), ..self }
        } else {
            Subscription { missed: 0, ..self }
        }
    }

    /// The subscription after one event.
    pub open spec fn after(self, event: QueueEvent, capacity: nat) -> Subscription {
        match event {
            QueueEvent::Published(metric) => self.offered(metric, capacity),
            QueueEvent::Read => self.after_delivery(),
        }
    }

    /// The subscription after a course of events.
    pub open spec fn after_all(self, events: Seq<QueueEvent>, capacity: nat) -> Subscription
        decreases events.len(),
    {
        if events.len() == 0 {
            self
        } else {
            self.after_all(events.drop_last(), capacity).after(events.last(), capacity)
        }
    }
}

/// How often the subscriber reads in a course of events.
pub open spec fn reads(events: Seq<QueueEvent>) -> nat
    decreases events.len(),
{
    if events.len() == 0 {
        0
    } else if events.last() is Read {
        reads(events.drop_last()) + 1
    } else {
        reads(events.drop_last())
    }
}

impl HubState {
    /// A hub without subscriptions.
    pub open spec fn empty(capacity: nat) -> HubState {
        HubState { capacity, issued: 0, subscriptions: Seq::empty() }
    }

    /// What holds of every hub: no queue holds more than its capacity, and
    /// tickets are handed out in rising order, so that no two subscriptions
    /// share one.
    pub open spec fn well_formed(self) -> bool {
        &&& self.issued <= u64::MAX
        &&& forall|at: int|
            0 <= at < self.subscriptions.len() ==> {
                &&& (#[trigger] self.subscriptions[at]).pending.len() <= self.capacity
                &&& self.subscriptions[at].id < self.issued
            }
        &&& forall|earlier: int, later: int|
            0 <= earlier < later < self.subscriptions.len() ==> (
            #[trigger] self.subscriptions[earlier]).id < (#[trigger] self.subscriptions[later]).id
    }

    /// There is a subscription with ticket `id`.
    pub open spec fn registered(self, id: u64) -> bool {
        exists|at: int|
            0 <= at < self.subscriptions.len() && (#[trigger] self.subscriptions[at]).id == id
    }

    /// Where the subscription with ticket `id` stands.
    pub open spec fn position(self, id: u64) -> int {
        choose|at: int|
            0 <= at < self.subscriptions.len() && (#[trigger] self.subscriptions[at]).id == id
    }

    /// The hub after one more subscription was made. Its ticket is
    /// `self.issued`.
    pub open spec fn subscribed(self) -> HubState {
        HubState {
            issued: self.issued + 1,
            subscriptions: self.subscriptions.push(
                Subscription { id: self.issued as u64, pending: Seq::empty(), missed: 0 },
            ),
            ..self
        }
    }

    /// The hub after the subscription with ticket `id` was given up.
    pub open spec fn unsubscribed(self, id: u64) -> HubState {
        if self.registered(id) {
            HubState { subscriptions: self.subscriptions.remove(self.position(id)), ..self }
        } else {
            self
        }
    }

    /// The hub after `metric` was published: every subscription was offered
    /// it, each on its own.
    pub open spec fn published(self, metric: SystemMetric) -> HubState {
        HubState {
            subscriptions: Seq::new(
                self.subscriptions.len(),
                |at: int| self.subscriptions[at].offered(metric, self.capacity),
            ),
            ..self
        }
    }

    /// What the subscriber with ticket `id` is handed next.
    pub open spec fn delivery(self, id: u64) -> Delivery {
        if self.registered(id) {
            self.subscriptions[self.position(id)].next_delivery()
        } else {
            Delivery::Closed
        }
    }

    /// The hub after the subscriber with ticket `id` was handed
    /// [`Self::delivery`].
    pub open spec fn received(self, id: u64) -> HubState {
        if self.registered(id) {
            HubState {
                subscriptions: self.subscriptions.update(
                    self.position(id),
                    self.subscriptions[self.position(id)].after_delivery(),
                ),
                ..self
            }
        } else {
            self
        }
    }
}

/// In a well-formed hub a ticket names one subscription only.
pub proof fn lemma_position(hub: HubState, id: u64, at: int)
    requires
        hub.well_formed(),
        0 <= at < hub.subscriptions.len(),
        hub.subscriptions[at].id == id,
    ensures
        hub.registered(id),
        hub.position(id) == at,
{
}

/// Whatever happens to a well-formed hub leaves it well-formed.
pub proof fn lemma_well_formed_is_kept(hub: HubState, id: u64, metric: SystemMetric)
    requires
        hub.well_formed(),
    ensures
        hub.issued < u64::MAX ==> hub.subscribed().well_formed(),
        hub.unsubscribed(id).well_formed(),
        hub.published(metric).well_formed(),
        hub.received(id).well_formed(),
{
}

/// A queued sample moves one place forward with every read and is never
/// overtaken or displaced, whatever is published in the meantime.
proof fn lemma_place_in_line(
    subscription: Subscription,
    metric: SystemMetric,
    place: int,
    events: Seq<QueueEvent>,
    capacity: nat,
)
    requires
        0 <= place < subscription.pending.len(),
        subscription.pending[place] == metric,
        reads(events) <= place,
    ensures
        place - reads(events) < subscription.after_all(events, capacity).pending.len(),
        subscription.after_all(events, capacity).pending[place - reads(events)] == metric,
    decreases events.len(),
{
    if events.len() > 0 {
        lemma_place_in_line(subscription, metric, place, events.drop_last(), capacity);
    }
}

/// A sample published while a subscription's queue has room reaches that
/// subscriber. Whatever is published afterwards and whenever the subscriber
/// reads: once it has read what was queued before the sample, the sample is
/// what it is handed next.
pub proof fn lemma_published_metric_is_delivered(
    hub: HubState,
    metric: SystemMetric,
    at: int,
    events: Seq<QueueEvent>,
)
    requires
        0 <= at < hub.subscriptions.len(),
        hub.subscriptions[at].pending.len() < hub.capacity,
        reads(events) == hub.subscriptions[at].pending.len(),
    ensures
        hub.published(metric).subscriptions[at].pending == hub.subscriptions[at].pending.push(
            metric,
        ),
        hub.published(metric).subscriptions[at].after_all(events, hub.capacity).next_delivery()
            == Delivery::Metric(metric),
{
    let before = hub.subscriptions[at];
    let queued = hub.published(metric).subscriptions[at];
    lemma_place_in_line(queued, metric, before.pending.len() as int, events, hub.capacity);
}

/// What a publication does to one subscription does not depend on the others:
/// a subscriber whose queue is full holds nobody up, and every other subscriber
/// is handed what it would be handed without it.
pub proof fn lemma_subscribers_are_independent(
    hub: HubState,
    other: HubState,
    metric: SystemMetric,
    at: int,
    there: int,
)
    requires
        0 <= at < hub.subscriptions.len(),
        0 <= there < other.subscriptions.len(),
        hub.capacity == other.capacity,
        hub.subscriptions[at] == other.subscriptions[there],
    ensures
        hub.published(metric).subscriptions.len() == hub.subscriptions.len(),
        hub.published(metric).subscriptions[at] == other.published(metric).subscriptions[there],
{
}

/// A viewer that subscribes and disconnects leaves no trace in the registry:
/// after the next publication the hub has as many subscribers as before the
/// viewer came.
pub proof fn lemma_disconnect_restores_count(hub: HubState, metric: SystemMetric)
    requires
        hub.well_formed(),
        hub.issued < u64::MAX,
    ensures
        hub.subscribed().unsubscribed(hub.issued as u64).subscriptions == hub.subscriptions,
        hub.subscribed().unsubscribed(hub.issued as u64).published(metric).subscriptions.len()
            == hub.subscriptions.len(),
{
    let joined = hub.subscribed();
    lemma_position(joined, hub.issued as u64, hub.subscriptions.len() as int);
}

/// One subscriber's queue.
struct Queue {
    id: u64,
    pending: VecDeque<SystemMetric>,
    missed: u64,
}

impl View for Queue {
    type V = Subscription;

    closed spec fn view(&self) -> Subscription {
        Subscription { id: self.id, pending: self.pending@, missed: self.missed }
    }
}

/// The subscriptions that a list of queues stands for.
spec fn subscriptions_of(queues: Seq<Queue>) -> Seq<Subscription> {
    Seq::new(queues.len(), |at: int| queues[at]@)
}

/// Finds the queue with ticket `id`.
fn find(queues: &Vec<Queue>, id: u64) -> (found: Option<usize>)
    ensures
        match found {
            Some(at) => at < queues@.len() && queues@[at as int].id == id,
            None => forall|at: int| 0 <= at < queues@.len() ==> (#[trigger] queues@[at]).id != id,
        },
{
    let mut at: usize = 0;
    while at < queues.len()
        invariant
            at <= queues.len(),
            forall|seen: int| 0 <= seen < at ==> (#[trigger] queues@[seen]).id != id,
        decreases queues.len() - at,
    {
        if queues[at].id == id {
            return Some(at);
        }
        at = at + 1;
    }
    None
}

/// The registry of subscriptions and their queues.
pub struct BroadcastHub {
    capacity: usize,
    issued: u64,
    queues: Vec<Queue>,
}

impl View for BroadcastHub {
    type V = HubState;

    closed spec fn view(&self) -> HubState {
        HubState {
            capacity: self.capacity as nat,
            issued: self.issued as nat,
            subscriptions: subscriptions_of(self.queues@),
        }
    }
}

impl BroadcastHub {
    #[verifier::type_invariant]
    spec fn valid(&self) -> bool {
        self@.well_formed()
    }

    /// A hub without subscribers whose queues will hold `capacity` samples.
    pub fn new(capacity: usize) -> (hub: BroadcastHub)
        ensures
            hub@ == HubState::empty(capacity as nat),
            hub@.well_formed(),
    {
        let hub = BroadcastHub { capacity, issued: 0, queues: Vec::new() };
        proof {
            assert(hub@.subscriptions =~= Seq::empty());
        }
        hub
    }

    /// Capacity of every queue.
    pub fn capacity(&self) -> (capacity: usize)
        ensures
            capacity == self@.capacity,
            self@.well_formed(),
    {
        proof {
            use_type_invariant(self);
        }
        self.capacity
    }

    /// Number of subscriptions.
    pub fn subscriber_count(&self) -> (count: usize)
        ensures
            count == self@.subscriptions.len(),
    {
        self.queues.len()
    }

    /// Whether there is a subscription with ticket `id`.
    pub fn is_subscribed(&self, id: u64) -> (yes: bool)
        ensures
            yes == self@.registered(id),
    {
        match find(&self.queues, id) {
            Some(at) => {
                proof {
                    assert(self@.subscriptions[at as int].id == id);
                }
                true
            },
            None => false,
        }
    }

    /// Number of samples waiting for the subscriber with ticket `id`.
    pub fn waiting(&self, id: u64) -> (count: Option<usize>)
        ensures
            match count {
                Some(n) => self@.registered(id) && n == self@.subscriptions[self@.position(
                    id,
                )].pending.len(),
                None => !self@.registered(id),
            },
    {
        proof {
            use_type_invariant(self);
        }
        match find(&self.queues, id) {
            Some(at) => {
                proof {
                    lemma_position(self@, id, at as int);
                }
                Some(self.queues[at].pending.len())
            },
            None => None,
        }
    }

    /// Registers a subscription with an empty queue and returns its ticket.
    /// `None` only when every ticket has been handed out.
    pub fn subscribe(&mut self) -> (ticket: Option<u64>)
        ensures
            final(self)@.well_formed(),
            match ticket {
                Some(id) => old(self)@.issued < u64::MAX && id == old(self)@.issued && final(self)@
                    == old(self)@.subscribed(),
                None => old(self)@.issued == u64::MAX && final(self)@ == old(self)@,
            },
    {
        proof {
            use_type_invariant(&*self);
        }
        if self.issued == u64::MAX {
            return None;
        }
        let id = self.issued;
        let ghost before = self@;
        let mut queues: Vec<Queue> = Vec::new();
        core::mem::swap(&mut self.queues, &mut queues);
        queues.push(Queue { id, pending: VecDeque::new(), missed: 0 });
        proof {
            assert(subscriptions_of(queues@) =~= before.subscribed().subscriptions);
        }
        *self = BroadcastHub { capacity: self.capacity, issued: id + 1, queues };
        Some(id)
    }

    /// Gives up the subscription with ticket `id` and discards what waits in
    /// its queue. Returns whether there was such a subscription.
    pub fn unsubscribe(&mut self, id: u64) -> (was_subscribed: bool)
        ensures
            final(self)@.well_formed(),
            was_subscribed == old(self)@.registered(id),
            final(self)@ == old(self)@.unsubscribed(id),
    {
        proof {
            use_type_invariant(&*self);
        }
        let ghost before = self@;
        match find(&self.queues, id) {
            Some(at) => {
                proof {
                    lemma_position(before, id, at as int);
                }
                let mut queues: Vec<Queue> = Vec::new();
                core::mem::swap(&mut self.queues, &mut queues);
                queues.remove(at);
                proof {
                    assert(subscriptions_of(queues@) =~= before.unsubscribed(id).subscriptions);
                }
                core::mem::swap(&mut self.queues, &mut queues);
                true
            },
            None => false,
        }
    }

    /// Hands `metric` to every subscription and returns how many there are.
    /// A subscription whose queue is full does not take the sample and counts
    /// it as missed. Publishing never waits for a subscriber.
    pub fn publish(&mut self, metric: SystemMetric) -> (receivers: usize)
        ensures
            final(self)@.well_formed(),
            final(self)@ == old(self)@.published(metric),
            receivers == old(self)@.subscriptions.len(),
    {
        proof {
            use_type_invariant(&*self);
        }
        let ghost before = self@;
        let capacity = self.capacity;
        let mut queues: Vec<Queue> = Vec::new();
        core::mem::swap(&mut self.queues, &mut queues);
        let mut at: usize = 0;
        while at < queues.len()
            invariant
                at <= queues@.len(),
                queues@.len() == before.subscriptions.len(),
                capacity == before.capacity,
                forall|done: int|
                    0 <= done < at ==> (#[trigger] queues@[done])@
                        == before.subscriptions[done].offered(metric, before.capacity),
                forall|ahead: int|
                    at <= ahead < queues@.len() ==> (#[trigger] queues@[ahead])@
                        == before.subscriptions[ahead],
            decreases queues.len() - at,
        {
            if queues[at].pending.len() < capacity {
                queues[at].pending.push_back(metric.clone());
            } else if queues[at].missed < u64::MAX {
                queues[at].missed = queues[at].missed + 1;
            }
            at = at + 1;
        }
        let receivers = queues.len();
        proof {
            assert(subscriptions_of(queues@) =~= before.published(metric).subscriptions);
        }
        core::mem::swap(&mut self.queues, &mut queues);
        receivers
    }

    /// Hands the subscriber with ticket `id` its next delivery: the oldest
    /// sample waiting, else the number of samples it missed, else nothing.
    pub fn receive(&mut self, id: u64) -> (delivery: Delivery)
        ensures
            final(self)@.well_formed(),
            delivery == old(self)@.delivery(id),
            final(self)@ == old(self)@.received(id),
    {
        proof {
            use_type_invariant(&*self);
        }
        let ghost before = self@;
        match find(&self.queues, id) {
            Some(at) => {
                proof {
                    lemma_position(before, id, at as int);
                }
                let mut queues: Vec<Queue> = Vec::new();
                core::mem::swap(&mut self.queues, &mut queues);
                let delivery = match queues[at].pending.pop_front() {
                    Some(metric) => Delivery::Metric(metric),
                    None => {
                        let missed = queues[at].missed;
                        queues[at].missed = 0;
                        if missed > 0 {
                            Delivery::Lagged(missed)
                        } else {
                            Delivery::Empty
                        }
                    },
                };
                proof {
                    assert(subscriptions_of(queues@) =~= before.received(id).subscriptions);
                }
                core::mem::swap(&mut self.queues, &mut queues);
                delivery
            },
            None => Delivery::Closed,
        }
    }
}

} // verus!
