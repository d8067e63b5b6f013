//! The fan-out stage: one merged stream of events in, every event out to each
//! current subscriber, in registration order.
//!
//! A pass over the subscribers is taken from a snapshot ([`FanOut`]), so no
//! lock is held while a send is awaited. A subscriber whose send failed is
//! pruned when the pass ends; the others are attempted regardless.

use vstd::prelude::*;
use crate::linux::delivery::{lemma_ids_of_kept, lemma_publish_wf, Hub};
use crate::Error;

verus! {

/// Seconds that a subscriber whose buffer is full may hold up a pass before
/// the send to it counts as failed.
pub const SEND_DEADLINE_SECS: u64 = 1;

/// Names one subscription for as long as the broadcaster lives.
pub type SubscriberId = u64;

/// One registered subscriber: its id and the send end of its channel.
pub struct Subscriber<S> {
    pub id: SubscriberId,
    pub sender: S,
}

/// The ids of `subs`, in the same order.
pub open spec fn ids_of<S>(subs: Seq<Subscriber<S>>) -> Seq<SubscriberId> {
    subs.map_values(|s: Subscriber<S>| s.id)
}

/// Ids grow along the sequence and all lie below `bound`.
pub open spec fn ascending_below(ids: Seq<SubscriberId>, bound: nat) -> bool {
    &&& forall|i: int| 0 <= i < ids.len() ==> (#[trigger] ids[i]) < bound
    &&& forall|i: int, j: int| 0 <= i < j < ids.len() ==> ids[i] < ids[j]
}

/// The subscribers that remain once those in `failed` are pruned.
pub open spec fn kept<S>(subs: Seq<Subscriber<S>>, failed: Set<SubscriberId>) -> Seq<
    Subscriber<S>,
> {
    subs.filter(|s: Subscriber<S>| !failed.contains(s.id))
}

/// The targets whose recorded outcome is a failure.
pub open spec fn failed_among(targets: Seq<SubscriberId>, outcomes: Seq<bool>) -> Set<
    SubscriberId,
> {
    Set::new(
        |id: SubscriberId|
            exists|i: int|
                0 <= i < outcomes.len() && i < targets.len() && !outcomes[i] && #[trigger] targets[i]
                    == id,
    )
}

/// One pass of one event over a snapshot of the subscribers.
pub struct FanOut {
    targets: Vec<SubscriberId>,
    outcomes: Vec<bool>,
}

impl FanOut {
    /// The subscribers of the snapshot, in registration order.
    pub closed spec fn targets(&self) -> Seq<SubscriberId> {
        self.targets@
    }

    /// What was recorded so far: `outcomes()[i]` tells whether the send to
    /// `targets()[i]` succeeded.
    pub closed spec fn outcomes(&self) -> Seq<bool> {
        self.outcomes@
    }

    /// The subscribers that this pass could not deliver to.
    pub open spec fn failed(&self) -> Set<SubscriberId> {
        failed_among(self.targets(), self.outcomes())
    }

    /// Every target has been attempted.
    pub open spec fn complete(&self) -> bool {
        self.outcomes().len() >= self.targets().len()
    }

    /// The subscriber to send to next, or `None` once all were attempted.
    pub fn next_target(&self) -> (next: Option<SubscriberId>)
        ensures
            next == if self.complete() {
                None
            } else {
                Some(self.targets()[self.outcomes().len() as int])
            },
    {
        let at: usize = self.outcomes.len();
        if at < self.targets.len() {
            Some(self.targets[at])
        } else {
            None
        }
    }

    /// Records how the send to the current target went and moves on to the
    /// next one, whatever the outcome. On a complete pass nothing changes.
    pub fn record(&mut self, delivered: bool)
        ensures
            final(self).targets() == old(self).targets(),
            final(self).outcomes() == if old(self).complete() {
                old(self).outcomes()
            } else {
                old(self).outcomes().push(delivered)
            },
    {
        if self.outcomes.len() < self.targets.len() {
            self.outcomes.push(delivered);
        }
    }

    /// How many targets have been attempted.
    pub fn attempted(&self) -> (n: usize)
        ensures
            n == self.outcomes().len(),
    {
        self.outcomes.len()
    }

    /// Whether every target has been attempted.
    pub fn is_complete(&self) -> (done: bool)
        ensures
            done == self.complete(),
    {
        self.outcomes.len() >= self.targets.len()
    }

    /// Whether the send to `id` was recorded as failed.
    pub fn has_failed(&self, id: SubscriberId) -> (b: bool)
        ensures
            b == self.failed().contains(id),
    {
        let mut i: usize = 0;
        while i < self.outcomes.len() && i < self.targets.len()
            invariant
                forall|k: int| 0 <= k < i ==> self.outcomes@[k] || self.targets@[k] != id,
            decreases self.outcomes.len() - i,
        {
            if !self.outcomes[i] && self.targets[i] == id {
                return true;
            }
            i += 1;
        }
        false
    }
}

/// The subscriber collection of the fan-out stage.
pub struct Broadcaster<S> {
    subscribers: Vec<Subscriber<S>>,
    next_id: u64,
}

impl<S> View for Broadcaster<S> {
    type V = Seq<Subscriber<S>>;

    /// The current subscribers, in registration order.
    closed spec fn view(&self) -> Seq<Subscriber<S>> {
        self.subscribers@
    }
}

impl<S> Broadcaster<S> {
    /// The id that the next subscriber gets; every id in use lies below it.
    pub closed spec fn next_id(&self) -> nat {
        self.next_id as nat
    }

    /// The ids of the current subscribers, in registration order.
    pub open spec fn ids(&self) -> Seq<SubscriberId> {
        ids_of(self@)
    }

    /// Ids are handed out in ascending order and never twice.
    pub open spec fn wf(&self) -> bool {
        &&& ascending_below(self.ids(), self.next_id())
        &&& self.next_id() <= u64::MAX
    }

    /// This broadcaster as the delivery laws see it.
    pub open spec fn hub(&self) -> Hub {
        Hub { subscribers: self.ids(), next_id: self.next_id() }
    }

    /// A broadcaster without subscribers.
    pub fn new() -> (b: Self)
        ensures
            b.wf(),
            b@ == Seq::<Subscriber<S>>::empty(),
            b.next_id() == 0,
    {
        Broadcaster { subscribers: Vec::new(), next_id: 0 }
    }

    /// A broadcaster without subscribers that hands out `first_id` first.
    pub fn starting_at(first_id: SubscriberId) -> (b: Self)
        ensures
            b.wf(),
            b@ == Seq::<Subscriber<S>>::empty(),
            b.next_id() == first_id,
    {
        Broadcaster { subscribers: Vec::new(), next_id: first_id }
    }

    /// The number of current subscribers.
    pub fn len(&self) -> (n: usize)
        ensures
            n == self@.len(),
    {
        self.subscribers.len()
    }

    /// The subscriber at position `i` of the registration order.
    pub fn get(&self, i: usize) -> (s: Option<&Subscriber<S>>)
        ensures
            s == if i < self@.len() {
                Some(&self@[i as int])
            } else {
                None
            },
    {
        if i < self.subscribers.len() {
            Some(&self.subscribers[i])
        } else {
            None
        }
    }

    /// Registers `sender` behind all current subscribers and returns its id.
    ///
    /// Fails, and changes nothing, only when there is no id left to hand out.
    pub fn subscribe(&mut self, sender: S) -> (r: Result<SubscriberId, Error>)
        requires
            old(self).wf(),
        ensures
            final(self).wf(),
            final(self).hub() == old(self).hub().subscribe(),
            match r {
                Ok(id) => {
                    &&& old(self).next_id() < u64::MAX
                    &&& id == old(self).next_id()
                    &&& final(self)@ == old(self)@.push(Subscriber { id, sender })
                    &&& final(self).next_id() == old(self).next_id() + 1
                },
                Err(e) => {
                    &&& old(self).next_id() == u64::MAX
                    &&& e is BroadcastPoisoned
                    &&& final(self)@ == old(self)@
                    &&& final(self).next_id() == old(self).next_id()
                },
            },
    {
        if self.next_id == u64::MAX {
            return Err(Error::BroadcastPoisoned);
        }
        let id: SubscriberId = self.next_id;
        self.subscribers.push(Subscriber { id, sender });
        self.next_id = self.next_id + 1;
        proof {
            assert(ids_of(self@) =~= ids_of(old(self)@).push(id));
        }
        Ok(id)
    }

    /// Takes the snapshot that one pass works on: the current subscribers'
    /// ids, in registration order, and no outcome yet.
    pub fn begin_pass(&self) -> (pass: FanOut)
        ensures
            pass.targets() == self.ids(),
            pass.outcomes() == Seq::<bool>::empty(),
    {
        let mut targets: Vec<SubscriberId> = Vec::new();
        let mut i: usize = 0;
        while i < self.subscribers.len()
            invariant
                i <= self.subscribers.len(),
                targets@ == ids_of(self.subscribers@.take(i as int)),
            decreases self.subscribers.len() - i,
        {
            targets.push(self.subscribers[i].id);
            i += 1;
        }
        FanOut { targets, outcomes: Vec::new() }
    }

    /// Ends a pass: prunes exactly the subscribers that the pass failed to
    /// deliver to. Those that remain keep their order; so do subscribers that
    /// registered while the pass was under way.
    pub fn end_pass(&mut self, pass: &FanOut)
        requires
            old(self).wf(),
        ensures
            final(self).wf(),
            final(self)@ == kept(old(self)@, pass.failed()),
            final(self).next_id() == old(self).next_id(),
            final(self).hub() == old(self).hub().publish(pass.failed()),
    {
        let ghost before = self.subscribers@;
        let ghost failed = pass.failed();
        let ghost keep = |s: Subscriber<S>| !failed.contains(s.id);
        let mut i: usize = 0;
        let ghost mut seen: int = 0;
        while i < self.subscribers.len()
            invariant
                failed == pass.failed(),
                keep == (|s: Subscriber<S>| !failed.contains(s.id)),
                self.next_id == old(self).next_id,
                0 <= seen <= before.len(),
                i <= self.subscribers.len(),
                self.subscribers@.len() - i == before.len() - seen,
                self.subscribers@.take(i as int) == before.take(seen).filter(keep),
                self.subscribers@.skip(i as int) == before.skip(seen),
            decreases self.subscribers.len() - i,
        {
            proof {
                assert(before[seen] == before.skip(seen)[0]);
                assert(before.take(seen + 1) =~= before.take(seen).push(before[seen]));
                before.take(seen).lemma_filter_push(before[seen], keep);
            }
            if pass.has_failed(self.subscribers[i].id) {
                self.subscribers.remove(i);
            } else {
                i += 1;
            }
            proof {
                assert(before.skip(seen + 1) =~= before.skip(seen).skip(1));
                seen = seen + 1;
            }
        }
        proof {
            assert(self.subscribers@.take(i as int) =~= self.subscribers@);
            assert(before.take(seen) =~= before);
            lemma_ids_of_kept(before, failed);
            lemma_publish_wf(old(self).hub(), failed);
        }
    }
}

/// In a pass over subscribers that all differ, a subscriber counts as failed
/// exactly when the send to it was recorded as failed: whoever the event was
/// delivered to stays.
pub proof fn law_delivered_subscribers_stay(
    targets: Seq<SubscriberId>,
    outcomes: Seq<bool>,
    bound: nat,
    at: int,
)
    requires
        ascending_below(targets, bound),
        0 <= at < outcomes.len(),
        at < targets.len(),
    ensures
        outcomes[at] <==> !failed_among(targets, outcomes).contains(targets[at]),
{
    if failed_among(targets, outcomes).contains(targets[at]) {
        // the failed send was the one to `targets[at]`: no other target has its id
        let i = choose|i: int|
            0 <= i < outcomes.len() && i < targets.len() && !outcomes[i] && #[trigger] targets[i]
                == targets[at];
        assert(i == at);
    }
}

} // verus!
