//! What each subscriber observes over a run of the broadcaster.
//!
//! The run is a sequence of steps: a subscription, or the publication of one
//! event during which the sends to some subscribers fail. The laws proved here
//! say that a subscriber sees the published events in publication order, that
//! it sees nothing from before it subscribed, and that one pass prunes every
//! failing subscriber without touching the others.

use vstd::prelude::*;
use crate::event::InputEvent;
use crate::linux::broadcaster::{ascending_below, ids_of, kept, Subscriber, SubscriberId};
use crate::linux::listening_device::{
    actions_over, decoded, forwarded, law_reader_preserves_order, well_driven, ReaderInput,
    ReaderState,
};

verus! {

/// The broadcaster reduced to what delivery depends on.
pub struct Hub {
    /// The ids of the current subscribers, in registration order.
    pub subscribers: Seq<SubscriberId>,
    /// The id that the next subscriber gets.
    pub next_id: nat,
}

/// One step of a run.
pub enum HubStep {
    /// A new subscriber registers.
    Subscribe,
    /// One event is fanned out; the sends to the subscribers in `closed` fail.
    Publish { event: InputEvent, closed: Set<SubscriberId> },
}

impl Hub {
    /// Ids are handed out in ascending order and never twice.
    pub open spec fn wf(self) -> bool {
        &&& ascending_below(self.subscribers, self.next_id)
        &&& self.next_id <= u64::MAX
    }

    /// The hub after one more subscription.
    pub open spec fn subscribe(self) -> Hub {
        if self.next_id < u64::MAX {
            Hub {
                subscribers: self.subscribers.push(self.next_id as SubscriberId),
                next_id: self.next_id + 1,
            }
        } else {
            self
        }
    }

    /// Whether a pass in which the sends to `closed` fail delivers to `id`.
    pub open spec fn receives(self, closed: Set<SubscriberId>, id: SubscriberId) -> bool {
        self.subscribers.contains(id) && !closed.contains(id)
    }

    /// The hub after a pass in which the sends to `closed` failed.
    pub open spec fn publish(self, closed: Set<SubscriberId>) -> Hub {
        Hub {
            subscribers: self.subscribers.filter(|id: SubscriberId| !closed.contains(id)),
            next_id: self.next_id,
        }
    }

    /// The hub after `step`.
    pub open spec fn step(self, step: HubStep) -> Hub {
        match step {
            HubStep::Subscribe => self.subscribe(),
            HubStep::Publish { closed, .. } => self.publish(closed),
        }
    }

    /// The hub after all of `steps`, in order.
    pub open spec fn run(self, steps: Seq<HubStep>) -> Hub
        decreases steps.len(),
    {
        if steps.len() == 0 {
            self
        } else {
            self.run(steps.drop_last()).step(steps.last())
        }
    }

    /// The events delivered to `id` over `steps`, in delivery order.
    pub open spec fn inbox(self, steps: Seq<HubStep>, id: SubscriberId) -> Seq<InputEvent>
        decreases steps.len(),
    {
        if steps.len() == 0 {
            Seq::empty()
        } else {
            let earlier = self.inbox(steps.drop_last(), id);
            match steps.last() {
                HubStep::Publish { event, closed } => if self.run(steps.drop_last()).receives(
                    closed,
                    id,
                ) {
                    earlier.push(event)
                } else {
                    earlier
                },
                HubStep::Subscribe => earlier,
            }
        }
    }
}

/// The events published over `steps`, in publication order.
pub open spec fn published(steps: Seq<HubStep>) -> Seq<InputEvent>
    decreases steps.len(),
{
    if steps.len() == 0 {
        Seq::empty()
    } else {
        match steps.last() {
            HubStep::Publish { event, .. } => published(steps.drop_last()).push(event),
            HubStep::Subscribe => published(steps.drop_last()),
        }
    }
}

/// No send to `id` fails anywhere in `steps`.
pub open spec fn never_closed(steps: Seq<HubStep>, id: SubscriberId) -> bool {
    forall|i: int|
        0 <= i < steps.len() ==> match #[trigger] steps[i] {
            HubStep::Publish { closed, .. } => !closed.contains(id),
            HubStep::Subscribe => true,
        }
}

/// Pruning subscribers and then taking ids is pruning the ids.
pub proof fn lemma_ids_of_kept<S>(subs: Seq<Subscriber<S>>, failed: Set<SubscriberId>)
    ensures
        ids_of(kept(subs, failed)) == ids_of(subs).filter(
            |id: SubscriberId| !failed.contains(id),
        ),
    decreases subs.len(),
{
    let keep = |s: Subscriber<S>| !failed.contains(s.id);
    let keep_id = |id: SubscriberId| !failed.contains(id);
    if subs.len() == 0 {
        reveal(Seq::filter);
    } else {
        let front = subs.drop_last();
        let last = subs.last();
        lemma_ids_of_kept(front, failed);
        assert(subs =~= front.push(last));
        front.lemma_filter_push(last, keep);
        assert(ids_of(subs) =~= ids_of(front).push(last.id));
        ids_of(front).lemma_filter_push(last.id, keep_id);
    }
}

/// A pass keeps the hub well-formed, and what it keeps was there before.
pub proof fn lemma_publish_wf(hub: Hub, closed: Set<SubscriberId>)
    requires
        hub.wf(),
    ensures
        hub.publish(closed).wf(),
        forall|id: SubscriberId|
            hub.publish(closed).subscribers.contains(id) <==> hub.receives(closed, id),
    decreases hub.subscribers.len(),
{
    let keep = |id: SubscriberId| !closed.contains(id);
    let subs = hub.subscribers;
    if subs.len() == 0 {
        reveal(Seq::filter);
    } else {
        let front = Hub { subscribers: subs.drop_last(), next_id: hub.next_id };
        let last = subs.last();
        assert(subs =~= front.subscribers.push(last));
        front.subscribers.lemma_filter_push(last, keep);
        lemma_publish_wf(front, closed);
        let kept_front = front.publish(closed).subscribers;
        let all = hub.publish(closed).subscribers;
        assert forall|id: SubscriberId| all.contains(id) <==> hub.receives(closed, id) by {
            if all.contains(id) {
                let i = choose|i: int| 0 <= i < all.len() && all[i] == id;
                if i < kept_front.len() {
                    // kept from the front, so it was in the front
                    assert(front.receives(closed, id));
                    let k = choose|k: int|
                        0 <= k < front.subscribers.len() && front.subscribers[k] == id;
                    assert(subs[k] == id);
                } else {
                    assert(subs[subs.len() - 1] == id);
                }
            }
            if hub.receives(closed, id) {
                let k = choose|k: int| 0 <= k < subs.len() && subs[k] == id;
                if k < subs.len() - 1 {
                    assert(front.receives(closed, id));
                    let i = choose|i: int| 0 <= i < kept_front.len() && kept_front[i] == id;
                    assert(all[i] == id);
                } else {
                    assert(all[all.len() - 1] == id);
                }
            }
        }
        assert forall|i: int, j: int| 0 <= i < j < all.len() implies all[i] < all[j] by {
            if j >= kept_front.len() {
                // `all[j]` is the last subscriber; `all[i]` stood somewhere before it
                assert(front.receives(closed, kept_front[i]));
                let k = choose|k: int|
                    0 <= k < front.subscribers.len() && front.subscribers[k] == kept_front[i];
                assert(subs[k] < subs[subs.len() - 1]);
            }
        }
    }
}

/// A subscription keeps the hub well-formed and never hands out an id that is
/// or was in use.
pub proof fn lemma_subscribe_wf(hub: Hub)
    requires
        hub.wf(),
    ensures
        hub.subscribe().wf(),
        hub.next_id <= hub.subscribe().next_id,
        forall|id: SubscriberId|
            id < hub.next_id ==> (hub.subscribe().subscribers.contains(id)
                <==> hub.subscribers.contains(id)),
        forall|id: SubscriberId|
            hub.subscribe().subscribers.contains(id) ==> id < hub.subscribe().next_id,
{
    let next = hub.subscribe();
    if hub.next_id < u64::MAX {
        assert forall|id: SubscriberId| id < hub.next_id implies (next.subscribers.contains(id)
            <==> hub.subscribers.contains(id)) by {
            if hub.subscribers.contains(id) {
                let k = choose|k: int| 0 <= k < hub.subscribers.len() && hub.subscribers[k] == id;
                assert(next.subscribers[k] == id);
            }
        }
    }
}

/// A run keeps the hub well-formed and only ever hands out more ids.
pub proof fn lemma_run_wf(hub: Hub, steps: Seq<HubStep>)
    requires
        hub.wf(),
    ensures
        hub.run(steps).wf(),
        hub.next_id <= hub.run(steps).next_id,
    decreases steps.len(),
{
    if steps.len() > 0 {
        lemma_run_wf(hub, steps.drop_last());
        let mid = hub.run(steps.drop_last());
        match steps.last() {
            HubStep::Subscribe => lemma_subscribe_wf(mid),
            HubStep::Publish { closed, .. } => lemma_publish_wf(mid, closed),
        }
    }
}

/// Running two stretches one after the other is running their concatenation,
/// and the inbox of the whole is the two inboxes joined.
pub proof fn lemma_run_concat(hub: Hub, first: Seq<HubStep>, second: Seq<HubStep>, id: SubscriberId)
    ensures
        hub.run(first + second) == hub.run(first).run(second),
        hub.inbox(first + second, id) == hub.inbox(first, id) + hub.run(first).inbox(second, id),
        published(first + second) == published(first) + published(second),
    decreases second.len(),
{
    if second.len() > 0 {
        assert((first + second).drop_last() =~= first + second.drop_last());
        lemma_run_concat(hub, first, second.drop_last(), id);
    }
}

/// One fan-out pass prunes every subscriber whose send failed and no other:
/// the subscribers that remain are exactly those that the event was delivered
/// to, and they keep their relative order.
pub proof fn law_pass_prunes_only_failed(hub: Hub, closed: Set<SubscriberId>, id: SubscriberId)
    requires
        hub.wf(),
    ensures
        hub.publish(closed).wf(),
        closed.contains(id) ==> !hub.publish(closed).subscribers.contains(id),
        hub.subscribers.contains(id) && !closed.contains(id) ==> hub.receives(closed, id)
            && hub.publish(closed).subscribers.contains(id),
        hub.publish(closed).subscribers == hub.subscribers.filter(
            |other: SubscriberId| !closed.contains(other),
        ),
{
    lemma_publish_wf(hub, closed);
}

/// A subscriber that registers while a pass is under way is not part of the
/// pass and is not pruned by it: when the pass ends, the outcome is the same
/// as if the subscriber had registered right after it.
pub proof fn law_pass_spares_newcomers(hub: Hub, closed: Set<SubscriberId>)
    requires
        hub.wf(),
        forall|id: SubscriberId| closed.contains(id) ==> id < hub.next_id,
    ensures
        hub.subscribe().publish(closed) == hub.publish(closed).subscribe(),
{
    if hub.next_id < u64::MAX {
        let newcomer = hub.next_id as SubscriberId;
        hub.subscribers.lemma_filter_push(newcomer, |id: SubscriberId| !closed.contains(id));
    }
}

/// A subscriber observes the published events in publication order: its inbox
/// is a prefix of what was published since, and all of it when no send to the
/// subscriber ever failed.
pub proof fn law_inbox_in_publication_order(hub: Hub, steps: Seq<HubStep>, id: SubscriberId)
    requires
        hub.wf(),
        hub.subscribers.contains(id),
    ensures
        hub.inbox(steps, id).is_prefix_of(published(steps)),
        hub.run(steps).subscribers.contains(id) ==> hub.inbox(steps, id) == published(steps),
        never_closed(steps, id) ==> hub.run(steps).subscribers.contains(id),
    decreases steps.len(),
{
    if steps.len() > 0 {
        let earlier = steps.drop_last();
        law_inbox_in_publication_order(hub, earlier, id);
        lemma_run_wf(hub, earlier);
        let mid = hub.run(earlier);
        // the id is in use, so no later subscription hands it out again
        let k = choose|k: int| 0 <= k < hub.subscribers.len() && hub.subscribers[k] == id;
        assert(hub.subscribers[k] < hub.next_id);
        if never_closed(steps, id) {
            assert forall|i: int| 0 <= i < earlier.len() implies match #[trigger] earlier[i] {
                HubStep::Publish { closed, .. } => !closed.contains(id),
                HubStep::Subscribe => true,
            } by {
                assert(earlier[i] == steps[i]);
            }
        }
        match steps.last() {
            HubStep::Subscribe => lemma_subscribe_wf(mid),
            HubStep::Publish { closed, .. } => lemma_publish_wf(mid, closed),
        }
    }
}

/// Whatever part of the events one looks at (those of one device, say), a
/// subscriber observes that part in the order in which it was published.
pub proof fn law_inbox_keeps_relative_order(
    hub: Hub,
    steps: Seq<HubStep>,
    id: SubscriberId,
    part: spec_fn(InputEvent) -> bool,
)
    requires
        hub.wf(),
        hub.subscribers.contains(id),
    ensures
        hub.inbox(steps, id).filter(part).is_prefix_of(published(steps).filter(part)),
{
    law_inbox_in_publication_order(hub, steps, id);
    let seen = hub.inbox(steps, id);
    let all = published(steps);
    let rest = all.subrange(seen.len() as int, all.len() as int);
    assert(all =~= seen + rest);
    Seq::filter_distributes_over_add(seen, rest, part);
}

/// From the device to the subscriber: where the part of the published stream
/// that comes from one device is what that device's reader forwarded, a
/// subscriber observes the device's events in the order in which the device
/// yielded them.
pub proof fn law_device_order_reaches_subscriber(
    inputs: Seq<ReaderInput>,
    hub: Hub,
    steps: Seq<HubStep>,
    id: SubscriberId,
    from_device: spec_fn(InputEvent) -> bool,
)
    requires
        well_driven(ReaderState::Reading, inputs),
        published(steps).filter(from_device) == forwarded(
            actions_over(ReaderState::Reading, inputs),
        ),
        hub.wf(),
        hub.subscribers.contains(id),
    ensures
        hub.inbox(steps, id).filter(from_device).is_prefix_of(decoded(inputs)),
{
    law_reader_preserves_order(inputs);
    law_inbox_keeps_relative_order(hub, steps, id, from_device);
}

/// No replay: an id that has not been handed out by the end of `before` gets
/// nothing of what was published during `before`, whatever happens `after`.
pub proof fn law_no_replay(hub: Hub, before: Seq<HubStep>, after: Seq<HubStep>, id: SubscriberId)
    requires
        hub.wf(),
        hub.run(before).next_id <= id,
    ensures
        hub.inbox(before, id) == Seq::<InputEvent>::empty(),
        hub.inbox(before + after, id) == hub.run(before).inbox(after, id),
    decreases before.len(),
{
    if before.len() > 0 {
        let earlier = before.drop_last();
        lemma_run_wf(hub, earlier);
        let mid = hub.run(earlier);
        match before.last() {
            HubStep::Subscribe => lemma_subscribe_wf(mid),
            HubStep::Publish { closed, .. } => lemma_publish_wf(mid, closed),
        }
        law_no_replay(hub, earlier, Seq::empty(), id);
        if mid.subscribers.contains(id) {
            // impossible: every id in use lies below the next one
            let k = choose|k: int| 0 <= k < mid.subscribers.len() && mid.subscribers[k] == id;
            assert(mid.subscribers[k] < mid.next_id);
        }
    }
    lemma_run_concat(hub, before, after, id);
}

} // verus!
