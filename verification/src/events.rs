//! Analysis event runtime: one bounded queue per event family, delivered to
//! the family's subscribers under the family's delivery policy.
//!
//! A slow family never blocks another one: each family has its own queue,
//! capacity, and validity.
use std::collections::VecDeque;

use vstd::prelude::*;

verus! {

/// How events of one family are delivered when its queue is full.
#[derive(Clone, Copy, Debug, PartialEq, Eq, Structural)]
pub enum DeliveryPolicy {
    /// Only changes are published; overflow drops the new event.
    OnChange,
    /// Overflow replaces the oldest queued event.
    LatestOnly,
    /// Overflow is a gap that marks the family incomplete.
    ContinuousAndDisplay,
    /// Publications must come at a rate between the two bounds.
    Cadenced { min_hz: u16, max_hz: u16 },
}

/// How far the events of a family can be trusted.
#[derive(Clone, Copy, Debug, PartialEq, Eq, Structural)]
pub enum EventValidity {
    Measured,
    Incomplete,
    Unavailable,
}

/// What became of one published event.
#[derive(Clone, Copy, Debug, PartialEq, Eq, Structural)]
pub enum MeteringPublishResult {
    Accepted,
    Dropped,
    Gap,
    ReceiverGone,
    CadenceRejected,
}

impl MeteringPublishResult {
    /// Whether the event was queued.
    pub fn is_accepted(self) -> (result: bool)
        ensures
            result == (self == MeteringPublishResult::Accepted),
    {
        match self {
            MeteringPublishResult::Accepted => true,
            _ => false,
        }
    }

    /// Whether an event was dropped for lack of room.
    pub fn is_dropped(self) -> (result: bool)
        ensures
            result == (self == MeteringPublishResult::Dropped),
    {
        match self {
            MeteringPublishResult::Dropped => true,
            _ => false,
        }
    }

    /// Whether the event was lost on a continuous family.
    pub fn is_gap(self) -> (result: bool)
        ensures
            result == (self == MeteringPublishResult::Gap),
    {
        match self {
            MeteringPublishResult::Gap => true,
            _ => false,
        }
    }
}

/// One analysis event. A family is named by its index in the runtime's
/// family table.
#[derive(Clone, Copy, Debug, PartialEq, Eq, Structural)]
pub struct EventEnvelope {
    family: usize,
    sequence: u64,
    timestamp_samples: u64,
    cadence_hz: u16,
    validity: EventValidity,
}

impl EventEnvelope {
    /// An event of `family` with its sequence number, timestamp, and validity.
    pub fn new(family: usize, sequence: u64, timestamp_samples: u64, validity: EventValidity) -> (
        event: Self)
        ensures
            event.family() == family,
            event.sequence() == sequence,
            event.timestamp_samples() == timestamp_samples,
            event.validity() == validity,
            event.cadence_hz() == 0,
    {
        EventEnvelope { family, sequence, timestamp_samples, cadence_hz: 0, validity }
    }

    /// The family of this event.
    #[verifier::when_used_as_spec(spec_family)]
    pub fn family(&self) -> (result: usize)
        ensures
            result == self.spec_family(),
    {
        self.family
    }

    /// The family of this event.
    pub closed spec fn spec_family(&self) -> usize {
        self.family
    }

    /// The sequence number of this event.
    #[verifier::when_used_as_spec(spec_sequence)]
    pub fn sequence(&self) -> (result: u64)
        ensures
            result == self.spec_sequence(),
    {
        self.sequence
    }

    /// The sequence number of this event.
    pub closed spec fn spec_sequence(&self) -> u64 {
        self.sequence
    }

    /// The timestamp of this event, in samples.
    #[verifier::when_used_as_spec(spec_timestamp_samples)]
    pub fn timestamp_samples(&self) -> (result: u64)
        ensures
            result == self.spec_timestamp_samples(),
    {
        self.timestamp_samples
    }

    /// The timestamp of this event, in samples.
    pub closed spec fn spec_timestamp_samples(&self) -> u64 {
        self.timestamp_samples
    }

    /// The validity this event was measured with.
    #[verifier::when_used_as_spec(spec_validity)]
    pub fn validity(&self) -> (result: EventValidity)
        ensures
            result == self.spec_validity(),
    {
        self.validity
    }

    /// The validity this event was measured with.
    pub closed spec fn spec_validity(&self) -> EventValidity {
        self.validity
    }

    /// The cadence this event was published at.
    #[verifier::when_used_as_spec(spec_cadence_hz)]
    pub fn cadence_hz(&self) -> (result: u16)
        ensures
            result == self.spec_cadence_hz(),
    {
        self.cadence_hz
    }

    /// The cadence this event was published at.
    pub closed spec fn spec_cadence_hz(&self) -> u16 {
        self.cadence_hz
    }
}

struct Slot {
    policy: DeliveryPolicy,
    capacity: usize,
    queue: VecDeque<EventEnvelope>,
    receivers: usize,
    validity: EventValidity,
}

/// The abstract state of one family's slot.
pub struct SlotState {
    pub policy: DeliveryPolicy,
    pub capacity: usize,
    pub queue: Seq<EventEnvelope>,
    pub receivers: usize,
    pub validity: EventValidity,
}

/// The abstract state of the runtime.
pub struct RuntimeState {
    pub slots: Seq<SlotState>,
    pub subscriptions: Map<u64, usize>,
    pub next_id: u64,
}

/// Routes analysis events from producers to family subscribers.
pub struct AnalysisEventRuntime {
    slots: Vec<Slot>,
    subscription_ids: Vec<u64>,
    subscription_families: Vec<usize>,
    next_id: u64,
}

/// A subscription to one family.
pub struct EventReceiver {
    family: usize,
    id: u64,
    active: bool,
}

impl EventReceiver {
    /// The subscription id.
    pub fn id(&self) -> (id: u64)
        ensures
            id == self.spec_id(),
    {
        self.id
    }

    /// The subscription id.
    pub closed spec fn spec_id(&self) -> u64 {
        self.id
    }

    /// The subscribed family.
    pub closed spec fn spec_family(&self) -> usize {
        self.family
    }

    /// Whether this receiver still holds its subscription.
    pub closed spec fn spec_active(&self) -> bool {
        self.active
    }
}

/// The abstract state of one slot.
pub open spec fn slot_state_of(
    policy: DeliveryPolicy,
    capacity: usize,
    queue: Seq<EventEnvelope>,
    receivers: usize,
    validity: EventValidity,
) -> SlotState {
    SlotState { policy, capacity, queue, receivers, validity }
}

/// The subscription map that parallel id and family lists stand for.
pub open spec fn subscription_map(ids: Seq<u64>, families: Seq<usize>) -> Map<u64, usize> {
    Map::new(
        |id: u64| ids.contains(id),
        |id: u64| families[choose|i: int| 0 <= i < ids.len() && ids[i] == id],
    )
}

impl View for AnalysisEventRuntime {
    type V = RuntimeState;

    closed spec fn view(&self) -> RuntimeState {
        RuntimeState {
            slots: self.slots@.map_values(
                |s: Slot|
                    slot_state_of(s.policy, s.capacity, s.queue@, s.receivers, s.validity),
            ),
            subscriptions: subscription_map(self.subscription_ids@, self.subscription_families@),
            next_id: self.next_id,
        }
    }
}

/// The larger of a requested capacity and one.
pub open spec fn at_least_one(capacity: usize) -> usize {
    if capacity == 0 {
        1
    } else {
        capacity
    }
}

/// The result and new slot of publishing `event` into `slot`.
pub open spec fn publish_into(slot: SlotState, event: EventEnvelope) -> (SlotState, MeteringPublishResult) {
    if slot.receivers == 0 {
        (slot, MeteringPublishResult::ReceiverGone)
    } else if slot.queue.len() >= slot.capacity {
        match slot.policy {
            DeliveryPolicy::LatestOnly => (
                SlotState { queue: slot.queue.drop_first().push(event), ..slot },
                MeteringPublishResult::Dropped,
            ),
            DeliveryPolicy::ContinuousAndDisplay => (
                SlotState { validity: EventValidity::Incomplete, ..slot },
                MeteringPublishResult::Gap,
            ),
            _ => (slot, MeteringPublishResult::Dropped),
        }
    } else {
        (SlotState { queue: slot.queue.push(event), ..slot }, MeteringPublishResult::Accepted)
    }
}

/// The slot after one subscriber left: when none is left its queue empties.
pub open spec fn leave_slot(slot: SlotState) -> SlotState {
    let receivers = if slot.receivers == 0 {
        0usize
    } else {
        (slot.receivers - 1) as usize
    };
    SlotState {
        receivers,
        queue: if receivers == 0 {
            Seq::empty()
        } else {
            slot.queue
        },
        ..slot
    }
}

/// Every subscription names an existing family.
pub open spec fn runtime_wf(s: RuntimeState) -> bool {
    forall|id: u64| #[trigger] s.subscriptions.contains_key(id) ==> s.subscriptions[id] < s.slots.len()
}

impl AnalysisEventRuntime {
    /// Subscription ids are listed once each, and every one names a family.
    pub closed spec fn inv(&self) -> bool {
        &&& self.subscription_ids@.len() == self.subscription_families@.len()
        &&& forall|i: int, j: int|
            0 <= i < j < self.subscription_ids@.len() ==> self.subscription_ids@[i]
                != self.subscription_ids@[j]
        &&& forall|i: int|
            0 <= i < self.subscription_families@.len() ==> self.subscription_families@[i]
                < self.slots@.len()
        &&& forall|f: int| 0 <= f < self.slots@.len() ==> (#[trigger] self.slots@[f]).capacity > 0
        &&& forall|i: int|
            0 <= i < self.subscription_ids@.len() ==> self.subscription_ids@[i] <= self.next_id
    }

    /// A runtime for the families whose policies `policies` lists, each with
    /// an empty queue of `default_capacity` (at least one) and no subscriber.
    pub fn new(default_capacity: usize, policies: &Vec<DeliveryPolicy>) -> (runtime: Self)
        ensures
            runtime.inv(),
            runtime@.slots.len() == policies@.len(),
            forall|f: int|
                0 <= f < policies@.len() ==> #[trigger] runtime@.slots[f] == slot_state_of(
                    policies@[f],
                    at_least_one(default_capacity),
                    Seq::empty(),
                    0,
                    EventValidity::Measured,
                ),
            runtime@.subscriptions == Map::<u64, usize>::empty(),
            runtime@.next_id == 0,
    {
        let capacity = if default_capacity == 0 {
            1
        } else {
            default_capacity
        };
        let mut slots: Vec<Slot> = Vec::new();
        let mut f: usize = 0;
        while f < policies.len()
            invariant
                f <= policies@.len(),
                slots@.len() == f,
                capacity == at_least_one(default_capacity),
                forall|k: int|
                    0 <= k < f ==> {
                        &&& (#[trigger] slots@[k]).policy == policies@[k]
                        &&& slots@[k].capacity == capacity
                        &&& slots@[k].queue@ == Seq::<EventEnvelope>::empty()
                        &&& slots@[k].receivers == 0
                        &&& slots@[k].validity == EventValidity::Measured
                    },
            decreases policies.len() - f,
        {
            slots.push(
                Slot {
                    policy: policies[f],
                    capacity,
                    queue: VecDeque::new(),
                    receivers: 0,
                    validity: EventValidity::Measured,
                },
            );
            f = f + 1;
        }
        let runtime = AnalysisEventRuntime {
            slots,
            subscription_ids: Vec::new(),
            subscription_families: Vec::new(),
            next_id: 0,
        };
        assert(runtime@.subscriptions =~= Map::<u64, usize>::empty());
        runtime
    }

    /// The number of families.
    pub fn family_count(&self) -> (count: usize)
        ensures
            count == self@.slots.len(),
    {
        self.slots.len()
    }

    proof fn lemma_lookup(&self, i: int)
        requires
            self.inv(),
            0 <= i < self.subscription_ids@.len(),
        ensures
            self@.subscriptions.contains_key(self.subscription_ids@[i]),
            self@.subscriptions[self.subscription_ids@[i]] == self.subscription_families@[i],
    {
        let id = self.subscription_ids@[i];
        assert(self.subscription_ids@.contains(id));
        let k = choose|k: int|
            0 <= k < self.subscription_ids@.len() && self.subscription_ids@[k] == id;
        assert(k == i);
    }

    /// Subscribes to `family` with a queue of `capacity` (at least one);
    /// `None` for an unknown family.
    pub fn subscribe(&mut self, family: usize, capacity: usize) -> (receiver: Option<
        EventReceiver,
    >)
        requires
            old(self).inv(),
            old(self)@.next_id < u64::MAX,
            family < old(self)@.slots.len() ==> old(self)@.slots[family as int].receivers
                < usize::MAX,
        ensures
            final(self).inv(),
            family >= old(self)@.slots.len() ==> receiver is None && final(self)@ == old(self)@,
            family < old(self)@.slots.len() ==> {
                let id = (old(self)@.next_id + 1) as u64;
                let slot = old(self)@.slots[family as int];
                &&& receiver matches Some(r) && r.spec_id() == id && r.spec_family() == family
                    && r.spec_active()
                &&& final(self)@.next_id == id
                &&& final(self)@.subscriptions == old(self)@.subscriptions.insert(id, family)
                &&& final(self)@.slots == old(self)@.slots.update(
                    family as int,
                    SlotState {
                        capacity: at_least_one(capacity),
                        receivers: (slot.receivers + 1) as usize,
                        ..slot
                    },
                )
            },
    {
        if family >= self.slots.len() {
            return None;
        }
        let ghost old_view = self@;
        let cap = if capacity == 0 {
            1
        } else {
            capacity
        };
        let mut slot = self.slots.remove(family);
        slot.capacity = cap;
        slot.receivers = slot.receivers + 1;
        self.slots.insert(family, slot);
        let id = self.next_id + 1;
        self.next_id = id;
        let ghost old_ids = self.subscription_ids@;
        let ghost old_families = self.subscription_families@;
        self.subscription_ids.push(id);
        self.subscription_families.push(family);
        assert(self@.slots =~= old_view.slots.update(
            family as int,
            SlotState {
                capacity: at_least_one(capacity),
                receivers: (old_view.slots[family as int].receivers + 1) as usize,
                ..old_view.slots[family as int]
            },
        ));
        assert(!old_ids.contains(id)) by {
            if old_ids.contains(id) {
                assert(subscription_map(old_ids, old_families).contains_key(id));
            }
        }
        assert(self@.subscriptions =~= old_view.subscriptions.insert(id, family)) by {
            assert forall|key: u64| #[trigger] self@.subscriptions.contains_key(key)
                == old_view.subscriptions.insert(id, family).contains_key(key) by {
                if key == id {
                    assert(self.subscription_ids@[old_ids.len() as int] == key);
                } else if old_ids.contains(key) {
                    let k = choose|k: int| 0 <= k < old_ids.len() && old_ids[k] == key;
                    assert(self.subscription_ids@[k] == key);
                }
            }
            assert forall|key: u64| #[trigger] self@.subscriptions.contains_key(key)
                implies self@.subscriptions[key] == old_view.subscriptions.insert(id, family)[key] by {
                let k = choose|k: int|
                    0 <= k < self.subscription_ids@.len() && self.subscription_ids@[k] == key;
                if key == id {
                    assert(k == old_ids.len());
                } else {
                    assert(old_ids.contains(key));
                    let k2 = choose|k2: int| 0 <= k2 < old_ids.len() && old_ids[k2] == key;
                    assert(self.subscription_ids@[k2] == key);
                    assert(k2 == k);
                }
            }
        }
        Some(EventReceiver { family, id, active: true })
    }

    /// Publishes an event at `cadence_hz`: refused when the family is
    /// cadenced and the rate lies outside its bounds.
    pub fn publish_at(&mut self, event: EventEnvelope, cadence_hz: u16) -> (result:
        MeteringPublishResult)
        requires
            old(self).inv(),
        ensures
            final(self).inv(),
            cadence_rejected(old(self)@, event.family(), cadence_hz) ==> result
                == MeteringPublishResult::CadenceRejected && final(self)@ == old(self)@,
            !cadence_rejected(old(self)@, event.family(), cadence_hz) ==> publish_ensures(
                old(self)@,
                final(self)@,
                event,
                result,
            ),
    {
        if event.family < self.slots.len() {
            match self.slots[event.family].policy {
                DeliveryPolicy::Cadenced { min_hz, max_hz } => {
                    if !(min_hz <= cadence_hz && cadence_hz <= max_hz) {
                        return MeteringPublishResult::CadenceRejected;
                    }
                },
                _ => {},
            }
        }
        self.publish(event)
    }

    /// Publishes an event to its family.
    pub fn publish(&mut self, event: EventEnvelope) -> (result: MeteringPublishResult)
        requires
            old(self).inv(),
        ensures
            final(self).inv(),
            publish_ensures(old(self)@, final(self)@, event, result),
    {
        let family = event.family;
        if family >= self.slots.len() {
            return MeteringPublishResult::ReceiverGone;
        }
        if self.slots[family].receivers == 0 {
            assert(self@.slots.update(family as int, self@.slots[family as int]) =~= self@.slots);
            return MeteringPublishResult::ReceiverGone;
        }
        let ghost old_view = self@;
        let mut slot = self.slots.remove(family);
        let ghost before = slot.queue@;
        let result = if slot.queue.len() >= slot.capacity {
            match slot.policy {
                DeliveryPolicy::LatestOnly => {
                    let _ = slot.queue.pop_front();
                    slot.queue.push_back(event);
                    assert(slot.queue@ =~= before.drop_first().push(event));
                    MeteringPublishResult::Dropped
                },
                DeliveryPolicy::ContinuousAndDisplay => {
                    slot.validity = EventValidity::Incomplete;
                    MeteringPublishResult::Gap
                },
                _ => MeteringPublishResult::Dropped,
            }
        } else {
            slot.queue.push_back(event);
            MeteringPublishResult::Accepted
        };
        self.slots.insert(family, slot);
        assert(self@.slots =~= old_view.slots.update(
            family as int,
            publish_into(old_view.slots[family as int], event).0,
        ));
        assert(self@.subscriptions =~= old_view.subscriptions);
        result
    }

    /// The validity of a family; unavailable for an unknown one.
    pub fn family_validity(&self, family: usize) -> (validity: EventValidity)
        ensures
            validity == (if family < self@.slots.len() {
                self@.slots[family as int].validity
            } else {
                EventValidity::Unavailable
            }),
    {
        if family < self.slots.len() {
            self.slots[family].validity
        } else {
            EventValidity::Unavailable
        }
    }

    /// Ends subscription `id`; `false` when it is unknown or already ended.
    pub fn unsubscribe(&mut self, id: u64) -> (removed: bool)
        requires
            old(self).inv(),
        ensures
            final(self).inv(),
            removed == old(self)@.subscriptions.contains_key(id),
            final(self)@.next_id == old(self)@.next_id,
            final(self)@.subscriptions == old(self)@.subscriptions.remove(id),
            removed ==> final(self)@.slots == old(self)@.slots.update(
                old(self)@.subscriptions[id] as int,
                leave_slot(old(self)@.slots[old(self)@.subscriptions[id] as int]),
            ),
            !removed ==> final(self)@.slots == old(self)@.slots,
    {
        let mut i: usize = 0;
        while i < self.subscription_ids.len() && self.subscription_ids[i] != id
            invariant
                self.inv(),
                i <= self.subscription_ids@.len(),
                forall|k: int| 0 <= k < i ==> self.subscription_ids@[k] != id,
            decreases self.subscription_ids.len() - i,
        {
            i = i + 1;
        }
        if i == self.subscription_ids.len() {
            assert(!self@.subscriptions.contains_key(id));
            assert(self@.subscriptions =~= self@.subscriptions.remove(id));
            return false;
        }
        proof {
            self.lemma_lookup(i as int);
        }
        let ghost old_view = self@;
        let ghost old_ids = self.subscription_ids@;
        let ghost old_families = self.subscription_families@;
        let family = self.subscription_families[i];
        self.subscription_ids.remove(i);
        self.subscription_families.remove(i);
        assert(self@.subscriptions =~= old_view.subscriptions.remove(id)) by {
            assert forall|key: u64| #[trigger] self@.subscriptions.contains_key(key)
                == old_view.subscriptions.remove(id).contains_key(key) by {
                if old_ids.contains(key) && key != id {
                    let k = choose|k: int| 0 <= k < old_ids.len() && old_ids[k] == key;
                    if k < i {
                        assert(self.subscription_ids@[k] == key);
                    } else {
                        assert(self.subscription_ids@[k - 1] == key);
                    }
                }
                if self.subscription_ids@.contains(key) {
                    let k = choose|k: int|
                        0 <= k < self.subscription_ids@.len() && self.subscription_ids@[k] == key;
                    if k < i {
                        assert(old_ids[k] == key);
                    } else {
                        assert(old_ids[k + 1] == key);
                    }
                }
            }
            assert forall|key: u64| #[trigger] self@.subscriptions.contains_key(key)
                implies self@.subscriptions[key] == old_view.subscriptions.remove(id)[key] by {
                let k = choose|k: int|
                    0 <= k < self.subscription_ids@.len() && self.subscription_ids@[k] == key;
                let k2 = choose|k2: int| 0 <= k2 < old_ids.len() && old_ids[k2] == key;
                if k < i {
                    assert(old_ids[k] == key);
                    assert(k2 == k);
                } else {
                    assert(old_ids[k + 1] == key);
                    assert(k2 == k + 1);
                }
            }
        }
        let mut slot = self.slots.remove(family);
        if slot.receivers > 0 {
            slot.receivers = slot.receivers - 1;
        }
        if slot.receivers == 0 {
            slot.queue.clear();
        }
        self.slots.insert(family, slot);
        assert(self@.slots =~= old_view.slots.update(
            family as int,
            leave_slot(old_view.slots[family as int]),
        ));
        true
    }

    /// The oldest queued event of the receiver's family.
    pub fn try_receive(&mut self, receiver: &EventReceiver) -> (event: Option<EventEnvelope>)
        requires
            old(self).inv(),
        ensures
            final(self).inv(),
            final(self)@.subscriptions == old(self)@.subscriptions,
            final(self)@.next_id == old(self)@.next_id,
            receiver.spec_family() < old(self)@.slots.len() && old(self)@.slots[receiver.spec_family() as int].queue.len() > 0 ==> {
                let slot = old(self)@.slots[receiver.spec_family() as int];
                &&& event == Some(slot.queue[0])
                &&& final(self)@.slots == old(self)@.slots.update(
                    receiver.spec_family() as int,
                    SlotState { queue: slot.queue.drop_first(), ..slot },
                )
            },
            !(receiver.spec_family() < old(self)@.slots.len() && old(self)@.slots[receiver.spec_family() as int].queue.len() > 0) ==> event is None && final(self)@ == old(self)@,
    {
        let family = receiver.family;
        if family >= self.slots.len() || self.slots[family].queue.len() == 0 {
            return None;
        }
        let ghost old_view = self@;
        let mut slot = self.slots.remove(family);
        let ghost before = slot.queue@;
        let event = slot.queue.pop_front();
        self.slots.insert(family, slot);
        assert(self@.slots =~= old_view.slots.update(
            family as int,
            SlotState { queue: before.drop_first(), ..old_view.slots[family as int] },
        ));
        assert(self@.subscriptions =~= old_view.subscriptions);
        event
    }

    /// A receiver giving up its subscription; `false` when it had already
    /// ended it or the runtime had ended it.
    pub fn release(&mut self, receiver: &mut EventReceiver) -> (removed: bool)
        requires
            old(self).inv(),
        ensures
            final(self).inv(),
            !final(receiver).spec_active(),
            final(receiver).spec_id() == old(receiver).spec_id(),
            final(receiver).spec_family() == old(receiver).spec_family(),
            removed == (old(receiver).spec_active() && old(self)@.subscriptions.contains_key(
                old(receiver).spec_id(),
            )),
            final(self)@.subscriptions == (if old(receiver).spec_active() {
                old(self)@.subscriptions.remove(old(receiver).spec_id())
            } else {
                old(self)@.subscriptions
            }),
            final(self)@.next_id == old(self)@.next_id,
            removed ==> final(self)@.slots == old(self)@.slots.update(
                old(self)@.subscriptions[old(receiver).spec_id()] as int,
                leave_slot(old(self)@.slots[old(self)@.subscriptions[old(receiver).spec_id()] as int]),
            ),
            !removed ==> final(self)@.slots == old(self)@.slots,
    {
        if !receiver.active {
            return false;
        }
        let removed = self.unsubscribe(receiver.id);
        receiver.active = false;
        removed
    }
}

/// Whether a publication at `cadence_hz` lies outside the bounds of a
/// cadenced family.
pub open spec fn cadence_rejected(s: RuntimeState, family: usize, cadence_hz: u16) -> bool {
    family < s.slots.len() && match s.slots[family as int].policy {
        DeliveryPolicy::Cadenced { min_hz, max_hz } => !(min_hz <= cadence_hz <= max_hz),
        _ => false,
    }
}

/// What `publish` guarantees: an unknown family or one without subscribers
/// refuses the event; otherwise the family's slot follows [`publish_into`]
/// and no other family changes.
pub open spec fn publish_ensures(
    before: RuntimeState,
    after: RuntimeState,
    event: EventEnvelope,
    result: MeteringPublishResult,
) -> bool {
    &&& after.subscriptions == before.subscriptions
    &&& after.next_id == before.next_id
    &&& if event.family() >= before.slots.len() {
        result == MeteringPublishResult::ReceiverGone && after == before
    } else {
        let (slot, r) = publish_into(before.slots[event.family() as int], event);
        &&& result == r
        &&& after.slots == before.slots.update(event.family() as int, slot)
    }
}

/// Publishing an event touches only the event's own family: every other
/// family's queue, subscribers and validity stay as they were.
pub proof fn law_publish_isolates_families(
    before: RuntimeState,
    after: RuntimeState,
    event: EventEnvelope,
    result: MeteringPublishResult,
    other: int,
)
    requires
        publish_ensures(before, after, event, result),
        0 <= other < before.slots.len(),
        other != event.family() as int,
    ensures
        after.slots.len() == before.slots.len(),
        after.slots[other] == before.slots[other],
        after.subscriptions == before.subscriptions,
{
}

/// A family's queue never grows past its capacity, and on a latest-only
/// family the newest event is always kept.
pub proof fn law_publish_keeps_queue_bounded(slot: SlotState, event: EventEnvelope)
    requires
        slot.capacity > 0,
        slot.queue.len() <= slot.capacity,
    ensures
        publish_into(slot, event).0.queue.len() <= slot.capacity,
        slot.receivers > 0 && slot.policy == DeliveryPolicy::LatestOnly ==> publish_into(slot, event).0.queue.last() == event,
        publish_into(slot, event).1 == MeteringPublishResult::Accepted ==> publish_into(slot, event).0.queue == slot.queue.push(event),
{
}

/// A family that lost an event stays incomplete: no later publication
/// makes it complete again.
pub proof fn law_incomplete_family_stays_incomplete(slot: SlotState, event: EventEnvelope)
    requires
        slot.validity == EventValidity::Incomplete,
    ensures
        publish_into(slot, event).0.validity == EventValidity::Incomplete,
        leave_slot(slot).validity == EventValidity::Incomplete,
{
}

/// What publishing does to the event's family, by case: with no subscriber
/// the event is refused and nothing changes; with room in the queue the
/// event is queued at its end; on a full queue only a latest-only family
/// gives up its oldest event for the new one, a continuous family keeps its
/// queue and becomes incomplete, and every other family drops the new event
/// and keeps its queue and validity as they were. Policy, capacity and
/// subscribers never change, and other families stay as they were.
pub proof fn law_publish_by_policy(
    before: RuntimeState,
    after: RuntimeState,
    event: EventEnvelope,
    result: MeteringPublishResult,
)
    requires
        publish_ensures(before, after, event, result),
    ensures
        event.family() >= before.slots.len() ==> result == MeteringPublishResult::ReceiverGone && after == before,
        event.family() < before.slots.len() ==> ({
            let f = event.family() as int;
            let old_slot = before.slots[f];
            let new_slot = after.slots[f];
            let full = old_slot.queue.len() >= old_slot.capacity;
            &&& after.slots.len() == before.slots.len()
            &&& forall|g: int| 0 <= g < before.slots.len() && g != f ==> after.slots[g] == before.slots[g]
            &&& new_slot.policy == old_slot.policy
            &&& new_slot.capacity == old_slot.capacity
            &&& new_slot.receivers == old_slot.receivers
            &&& old_slot.receivers == 0 ==> result == MeteringPublishResult::ReceiverGone && new_slot == old_slot
            &&& old_slot.receivers > 0 && !full ==> result == MeteringPublishResult::Accepted
                && new_slot.queue == old_slot.queue.push(event) && new_slot.validity == old_slot.validity
            &&& old_slot.receivers > 0 && full && old_slot.policy == DeliveryPolicy::LatestOnly ==> result
                == MeteringPublishResult::Dropped && new_slot.queue == old_slot.queue.drop_first().push(event)
                && new_slot.validity == old_slot.validity
            &&& old_slot.receivers > 0 && full && old_slot.policy == DeliveryPolicy::ContinuousAndDisplay
                ==> result == MeteringPublishResult::Gap && new_slot.queue == old_slot.queue
                && new_slot.validity == EventValidity::Incomplete
            &&& old_slot.receivers > 0 && full && old_slot.policy != DeliveryPolicy::LatestOnly
                && old_slot.policy != DeliveryPolicy::ContinuousAndDisplay ==> result
                == MeteringPublishResult::Dropped && new_slot.queue == old_slot.queue && new_slot.validity
                == old_slot.validity
            &&& result == MeteringPublishResult::Accepted <==> (old_slot.receivers > 0 && !full)
        }),
{
}

} // verus!
