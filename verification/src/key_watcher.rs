//! The key-combination watcher: it follows which keys are held down and
//! resolves at the first event after which every target key is down at once.

use vstd::prelude::*;
use crate::event::{EventKind, InputEvent, PRESSED, RELEASED};

verus! {

/// The keys held down once `event` is taken into account: a key press adds
/// its code, a key release takes it away, and every other event, autorepeat
/// among them, leaves the set as it is.
pub open spec fn apply_event(down: Set<u16>, event: InputEvent) -> Set<u16> {
    if event.kind == EventKind::Key && event.value == PRESSED {
        down.insert(event.code)
    } else if event.kind == EventKind::Key && event.value == RELEASED {
        down.remove(event.code)
    } else {
        down
    }
}

/// The keys held down after `events`, starting with none.
pub open spec fn down_after(events: Seq<InputEvent>) -> Set<u16>
    decreases events.len(),
{
    if events.len() == 0 {
        Set::empty()
    } else {
        apply_event(down_after(events.drop_last()), events.last())
    }
}

/// Whether every target is down right after the event at position `at`.
pub open spec fn matched_at(targets: Set<u16>, events: Seq<InputEvent>, at: int) -> bool {
    0 <= at < events.len() && targets.subset_of(down_after(events.take(at + 1)))
}

/// Whether `outcome` names the first position at which all targets are down,
/// or rightly says that there is none.
pub open spec fn is_first_match(
    targets: Set<u16>,
    events: Seq<InputEvent>,
    outcome: Option<usize>,
) -> bool {
    match outcome {
        Some(at) => {
            &&& matched_at(targets, events, at as int)
            &&& forall|earlier: int| 0 <= earlier < at ==> !matched_at(targets, events, earlier)
        },
        None => forall|at: int| 0 <= at < events.len() ==> !matched_at(targets, events, at),
    }
}

/// The codes of the keys that are held down.
pub struct KeyDownSet {
    codes: Vec<u16>,
}

impl View for KeyDownSet {
    type V = Set<u16>;

    closed spec fn view(&self) -> Set<u16> {
        self.codes@.to_set()
    }
}

impl KeyDownSet {
    /// No code is kept twice.
    pub closed spec fn wf(&self) -> bool {
        self.codes@.no_duplicates()
    }

    /// No key is down.
    pub fn new() -> (down: Self)
        ensures
            down.wf(),
            down@ == Set::<u16>::empty(),
    {
        KeyDownSet { codes: Vec::new() }
    }

    /// Where `code` is kept, if it is.
    fn position(&self, code: u16) -> (at: Option<usize>)
        ensures
            match at {
                Some(i) => i < self.codes@.len() && self.codes@[i as int] == code,
                None => !self@.contains(code),
            },
    {
        let mut i: usize = 0;
        while i < self.codes.len()
            invariant
                i <= self.codes.len(),
                forall|j: int| 0 <= j < i ==> self.codes@[j] != code,
            decreases self.codes.len() - i,
        {
            if self.codes[i] == code {
                return Some(i);
            }
            i += 1;
        }
        None
    }

    /// Whether the key `code` is down.
    pub fn contains(&self, code: u16) -> (b: bool)
        ensures
            b == self@.contains(code),
    {
        self.position(code).is_some()
    }

    /// The key `code` goes down.
    pub fn insert(&mut self, code: u16)
        requires
            old(self).wf(),
        ensures
            final(self).wf(),
            final(self)@ == old(self)@.insert(code),
    {
        if self.position(code).is_none() {
            self.codes.push(code);
            proof {
                let before = old(self).codes@;
                let after = self.codes@;
                assert forall|c: u16| after.to_set().contains(c) <==> before.to_set().insert(
                    code,
                ).contains(c) by {
                    if before.contains(c) {
                        let i = choose|i: int| 0 <= i < before.len() && before[i] == c;
                        assert(after[i] == c);
                    }
                    if c == code {
                        assert(after[after.len() - 1] == c);
                    }
                }
            }
        }
    }

    /// The key `code` comes up.
    pub fn remove(&mut self, code: u16)
        requires
            old(self).wf(),
        ensures
            final(self).wf(),
            final(self)@ == old(self)@.remove(code),
    {
        match self.position(code) {
            Some(i) => {
                self.codes.remove(i);
                proof {
                    let before = old(self).codes@;
                    let after = self.codes@;
                    assert forall|c: u16| after.to_set().contains(c) <==> before.to_set().remove(
                        code,
                    ).contains(c) by {
                        if before.contains(c) && c != code {
                            let k0 = choose|k0: int| 0 <= k0 < before.len() && before[k0] == c;
                            let k = if k0 < i { k0 } else { k0 - 1 };
                            assert(after[k] == c);
                        }
                    }
                }
            },
            None => {},
        }
    }

    /// Takes one event into account.
    pub fn apply(&mut self, event: InputEvent)
        requires
            old(self).wf(),
        ensures
            final(self).wf(),
            final(self)@ == apply_event(old(self)@, event),
    {
        if event.is_press() {
            self.insert(event.code);
        } else if event.is_release() {
            self.remove(event.code);
        }
    }

    /// Whether every one of `targets` is down.
    pub fn contains_all(&self, targets: &Vec<u16>) -> (b: bool)
        ensures
            b == targets@.to_set().subset_of(self@),
    {
        let mut i: usize = 0;
        while i < targets.len()
            invariant
                i <= targets.len(),
                forall|j: int| 0 <= j < i ==> self@.contains(targets@[j]),
            decreases targets.len() - i,
        {
            if !self.contains(targets[i]) {
                return false;
            }
            i += 1;
        }
        true
    }
}

/// What a watch knows: the keys that are down as far as it has seen, and
/// whether the combination has occurred.
pub struct WatchState {
    pub down: Set<u16>,
    pub matched: bool,
}

/// A watch that has seen nothing.
pub open spec fn watch_start() -> WatchState {
    WatchState { down: Set::empty(), matched: false }
}

/// The watch for `targets` after one more event. A watch that is resolved
/// stays as it is: it is one-shot.
pub open spec fn watch_step(targets: Set<u16>, state: WatchState, event: InputEvent) -> WatchState {
    if state.matched {
        state
    } else {
        let down = apply_event(state.down, event);
        WatchState { down, matched: targets.subset_of(down) }
    }
}

/// The watch for `targets` after `events`, taken in order from the start.
pub open spec fn watch_after(targets: Set<u16>, events: Seq<InputEvent>) -> WatchState
    decreases events.len(),
{
    if events.len() == 0 {
        watch_start()
    } else {
        watch_step(targets, watch_after(targets, events.drop_last()), events.last())
    }
}

/// One watch for one combination of keys.
pub struct KeyWatcher {
    targets: Vec<u16>,
    down: KeyDownSet,
    matched: bool,
}

impl View for KeyWatcher {
    type V = WatchState;

    closed spec fn view(&self) -> WatchState {
        WatchState { down: self.down@, matched: self.matched }
    }
}

impl KeyWatcher {
    /// The keys that have to be down at once.
    pub closed spec fn targets(&self) -> Set<u16> {
        self.targets@.to_set()
    }

    /// The watch is consistent with itself.
    pub closed spec fn wf(&self) -> bool {
        self.down.wf()
    }

    /// A watch for `target_codes` that has seen nothing yet.
    pub fn new(target_codes: Vec<u16>) -> (watcher: Self)
        ensures
            watcher.wf(),
            watcher.targets() == target_codes@.to_set(),
            watcher@ == watch_start(),
    {
        KeyWatcher { targets: target_codes, down: KeyDownSet::new(), matched: false }
    }

    /// Whether the combination has occurred.
    pub fn is_matched(&self) -> (b: bool)
        ensures
            b == self@.matched,
    {
        self.matched
    }

    /// Takes the next event of the subscription and says whether the watch is
    /// resolved. It resolves on the first event after which all targets are
    /// down, and from then on nothing changes it.
    pub fn observe(&mut self, event: InputEvent) -> (resolved: bool)
        requires
            old(self).wf(),
        ensures
            final(self).wf(),
            final(self).targets() == old(self).targets(),
            final(self)@ == watch_step(old(self).targets(), old(self)@, event),
            resolved == final(self)@.matched,
    {
        if !self.matched {
            self.down.apply(event);
            self.matched = self.down.contains_all(&self.targets);
        }
        self.matched
    }

    /// The subscription has ended: `Some(())` where the combination occurred
    /// before that, `None` where it did not.
    pub fn finish(self) -> (outcome: Option<()>)
        ensures
            outcome.is_some() == self@.matched,
    {
        if self.matched {
            Some(())
        } else {
            None
        }
    }
}

/// A watch is resolved after `events` exactly when the targets were all down
/// right after one of them; until then it tracks every event.
pub proof fn law_watch_resolves_on_match(targets: Set<u16>, events: Seq<InputEvent>)
    ensures
        watch_after(targets, events).matched <==> exists|at: int|
            matched_at(targets, events, at),
        !watch_after(targets, events).matched ==> watch_after(targets, events).down == down_after(
            events,
        ),
    decreases events.len(),
{
    if events.len() > 0 {
        let earlier = events.drop_last();
        law_watch_resolves_on_match(targets, earlier);
        let last_index = events.len() - 1;
        assert(events.take(last_index + 1) =~= events);
        assert forall|at: int| 0 <= at < earlier.len() implies (matched_at(targets, earlier, at)
            <==> matched_at(targets, events, at)) by {
            assert(earlier.take(at + 1) =~= events.take(at + 1));
        }
        if watch_after(targets, earlier).matched {
            // resolved earlier: the same position matches in the longer stream
            let at = choose|at: int| matched_at(targets, earlier, at);
            assert(matched_at(targets, events, at));
        } else if watch_after(targets, events).matched {
            assert(matched_at(targets, events, last_index));
        }
    }
}

/// A watch whose subscription closes before the targets were ever all down
/// ends unresolved.
pub proof fn law_watch_unmatched_at_close(targets: Set<u16>, events: Seq<InputEvent>)
    requires
        forall|at: int| 0 <= at < events.len() ==> !matched_at(targets, events, at),
    ensures
        !watch_after(targets, events).matched,
{
    law_watch_resolves_on_match(targets, events);
}

/// The position of the event on which a watch for `target_codes` resolves
/// when `events` is all that its subscription delivers before it closes, or
/// `None` where the combination never occurs.
pub fn first_match(target_codes: &Vec<u16>, events: &Vec<InputEvent>) -> (outcome: Option<usize>)
    ensures
        is_first_match(target_codes@.to_set(), events@, outcome),
{
    let ghost targets = target_codes@.to_set();
    let mut down = KeyDownSet::new();
    let mut i: usize = 0;
    while i < events.len()
        invariant
            i <= events.len(),
            down.wf(),
            targets == target_codes@.to_set(),
            down@ == down_after(events@.take(i as int)),
            forall|earlier: int| 0 <= earlier < i ==> !matched_at(targets, events@, earlier),
        decreases events.len() - i,
    {
        down.apply(events[i]);
        proof {
            assert(events@.take(i + 1).drop_last() =~= events@.take(i as int));
        }
        if down.contains_all(target_codes) {
            return Some(i);
        }
        i += 1;
    }
    None
}

/// Watches `events`, which is all that the subscription delivers before it
/// closes: `Some(())` where the combination of `target_codes` occurs, `None`
/// where the stream ends without it.
pub fn listen_for_keys(target_codes: &Vec<u16>, events: &Vec<InputEvent>) -> (outcome: Option<()>)
    ensures
        outcome.is_some() <==> exists|at: int| matched_at(target_codes@.to_set(), events@, at),
{
    match first_match(target_codes, events) {
        Some(_) => Some(()),
        None => None,
    }
}

} // verus!
