//! The reader of one device: it decodes the device's stream one event at a
//! time and forwards each event before it reads the next.
//!
//! The reader itself is a state machine. Whoever drives it performs the action
//! that a step returns (reads the stream, sends on the channel) and feeds the
//! outcome back as the next input.

use vstd::prelude::*;
use crate::event::InputEvent;

verus! {

/// Why a reader stopped.
#[derive(Clone, Copy, Debug, PartialEq, Eq, Structural)]
pub enum StopReason {
    /// The device's stream could not be decoded any further.
    StreamError,
    /// Nobody receives what the reader forwards.
    ChannelClosed,
    /// The reader was told to stop.
    Cancelled,
}

/// Where a reader stands.
#[derive(Clone, Copy, Debug, PartialEq, Eq, Structural)]
pub enum ReaderState {
    /// Waiting for the stream to yield the next event.
    Reading,
    /// Waiting for the channel to take this event.
    Forwarding(InputEvent),
    /// Done for good: the device has to be found again to be read again.
    Stopped(StopReason),
}

/// What the driver reports to the reader.
#[derive(Clone, Copy, Debug, PartialEq, Eq, Structural)]
pub enum ReaderInput {
    /// The stream yielded this event.
    Decoded(InputEvent),
    /// The stream failed.
    DecodeFailed,
    /// The channel took the event.
    Forwarded,
    /// The channel has no receiver.
    ForwardFailed,
    /// The reader is told to stop.
    Cancelled,
}

/// What the reader asks the driver to do next.
#[derive(Clone, Copy, Debug, PartialEq, Eq, Structural)]
pub enum ReaderAction {
    /// Read the next event from the stream.
    ReadNext,
    /// Send this event on the channel.
    Forward(InputEvent),
    /// Ask the registry to remove the device's record, then exit.
    RemoveAndExit(StopReason),
    /// Exit; there is nothing left to do.
    Exit,
}

/// The action that `state` is waiting on.
pub open spec fn awaited(state: ReaderState) -> ReaderAction {
    match state {
        ReaderState::Reading => ReaderAction::ReadNext,
        ReaderState::Forwarding(event) => ReaderAction::Forward(event),
        ReaderState::Stopped(_) => ReaderAction::Exit,
    }
}

/// Whether `input` is an outcome of the action that `state` is waiting on, or
/// a cancellation, which may arrive at any time.
pub open spec fn answers(state: ReaderState, input: ReaderInput) -> bool {
    match (state, input) {
        (ReaderState::Stopped(_), _) => false,
        (_, ReaderInput::Cancelled) => true,
        (ReaderState::Reading, ReaderInput::Decoded(_)) => true,
        (ReaderState::Reading, ReaderInput::DecodeFailed) => true,
        (ReaderState::Forwarding(_), ReaderInput::Forwarded) => true,
        (ReaderState::Forwarding(_), ReaderInput::ForwardFailed) => true,
        _ => false,
    }
}

/// One step of the reader: the state it moves to and the action it asks for.
///
/// An input that does not answer the awaited action changes nothing: the
/// reader asks for the same action again.
pub open spec fn next(state: ReaderState, input: ReaderInput) -> (ReaderState, ReaderAction) {
    match (state, input) {
        (ReaderState::Stopped(_), _) => (state, ReaderAction::Exit),
        (_, ReaderInput::Cancelled) => (
            ReaderState::Stopped(StopReason::Cancelled),
            ReaderAction::Exit,
        ),
        (ReaderState::Reading, ReaderInput::Decoded(event)) => (
            ReaderState::Forwarding(event),
            ReaderAction::Forward(event),
        ),
        (ReaderState::Reading, ReaderInput::DecodeFailed) => (
            ReaderState::Stopped(StopReason::StreamError),
            ReaderAction::RemoveAndExit(StopReason::StreamError),
        ),
        (ReaderState::Forwarding(_), ReaderInput::Forwarded) => (
            ReaderState::Reading,
            ReaderAction::ReadNext,
        ),
        (ReaderState::Forwarding(_), ReaderInput::ForwardFailed) => (
            ReaderState::Stopped(StopReason::ChannelClosed),
            ReaderAction::RemoveAndExit(StopReason::ChannelClosed),
        ),
        _ => (state, awaited(state)),
    }
}

/// The reader bound to one device.
pub struct DeviceReader {
    state: ReaderState,
}

impl View for DeviceReader {
    type V = ReaderState;

    closed spec fn view(&self) -> ReaderState {
        self.state
    }
}

impl DeviceReader {
    /// A reader that is about to read its first event.
    pub fn new() -> (reader: Self)
        ensures
            reader@ == ReaderState::Reading,
    {
        DeviceReader { state: ReaderState::Reading }
    }

    /// Where the reader stands.
    pub fn state(&self) -> (state: ReaderState)
        ensures
            state == self@,
    {
        self.state
    }

    /// Whether the reader has stopped for good.
    pub fn is_stopped(&self) -> (stopped: bool)
        ensures
            stopped == (self@ is Stopped),
    {
        match self.state {
            ReaderState::Stopped(_) => true,
            _ => false,
        }
    }

    /// The action that the reader is waiting on.
    pub fn pending(&self) -> (action: ReaderAction)
        ensures
            action == awaited(self@),
    {
        match self.state {
            ReaderState::Reading => ReaderAction::ReadNext,
            ReaderState::Forwarding(event) => ReaderAction::Forward(event),
            ReaderState::Stopped(_) => ReaderAction::Exit,
        }
    }

    /// Takes one input and says what to do next.
    pub fn step(&mut self, input: ReaderInput) -> (action: ReaderAction)
        ensures
            (final(self)@, action) == next(old(self)@, input),
    {
        let (state, action) = match (self.state, input) {
            (ReaderState::Stopped(_), _) => (self.state, ReaderAction::Exit),
            (_, ReaderInput::Cancelled) => (
                ReaderState::Stopped(StopReason::Cancelled),
                ReaderAction::Exit,
            ),
            (ReaderState::Reading, ReaderInput::Decoded(event)) => (
                ReaderState::Forwarding(event),
                ReaderAction::Forward(event),
            ),
            (ReaderState::Reading, ReaderInput::DecodeFailed) => (
                ReaderState::Stopped(StopReason::StreamError),
                ReaderAction::RemoveAndExit(StopReason::StreamError),
            ),
            (ReaderState::Forwarding(_), ReaderInput::Forwarded) => (
                ReaderState::Reading,
                ReaderAction::ReadNext,
            ),
            (ReaderState::Forwarding(_), ReaderInput::ForwardFailed) => (
                ReaderState::Stopped(StopReason::ChannelClosed),
                ReaderAction::RemoveAndExit(StopReason::ChannelClosed),
            ),
            (ReaderState::Reading, _) => (self.state, ReaderAction::ReadNext),
            (ReaderState::Forwarding(event), _) => (self.state, ReaderAction::Forward(event)),
        };
        self.state = state;
        action
    }
}

/// The state after `inputs`, taken in order from `state`.
pub open spec fn state_after(state: ReaderState, inputs: Seq<ReaderInput>) -> ReaderState
    decreases inputs.len(),
{
    if inputs.len() == 0 {
        state
    } else {
        next(state_after(state, inputs.drop_last()), inputs.last()).0
    }
}

/// The actions that the reader asks for while it takes `inputs` from `state`,
/// one per input.
pub open spec fn actions_over(state: ReaderState, inputs: Seq<ReaderInput>) -> Seq<ReaderAction>
    decreases inputs.len(),
{
    if inputs.len() == 0 {
        Seq::empty()
    } else {
        actions_over(state, inputs.drop_last()).push(
            next(state_after(state, inputs.drop_last()), inputs.last()).1,
        )
    }
}

/// Each input answers the action that the reader was waiting on when it came.
pub open spec fn well_driven(state: ReaderState, inputs: Seq<ReaderInput>) -> bool {
    forall|i: int|
        0 <= i < inputs.len() ==> answers(state_after(state, inputs.take(i)), #[trigger] inputs[i])
}

/// The events that the stream yielded, in the order in which it yielded them.
pub open spec fn decoded(inputs: Seq<ReaderInput>) -> Seq<InputEvent>
    decreases inputs.len(),
{
    if inputs.len() == 0 {
        Seq::empty()
    } else {
        match inputs.last() {
            ReaderInput::Decoded(event) => decoded(inputs.drop_last()).push(event),
            _ => decoded(inputs.drop_last()),
        }
    }
}

/// The events that the reader asked to forward, in the order in which it asked.
pub open spec fn forwarded(actions: Seq<ReaderAction>) -> Seq<InputEvent>
    decreases actions.len(),
{
    if actions.len() == 0 {
        Seq::empty()
    } else {
        match actions.last() {
            ReaderAction::Forward(event) => forwarded(actions.drop_last()).push(event),
            _ => forwarded(actions.drop_last()),
        }
    }
}

/// The reader asks for exactly one action per input.
pub proof fn lemma_one_action_per_input(state: ReaderState, inputs: Seq<ReaderInput>)
    ensures
        actions_over(state, inputs).len() == inputs.len(),
    decreases inputs.len(),
{
    if inputs.len() > 0 {
        lemma_one_action_per_input(state, inputs.drop_last());
    }
}

/// A reader forwards what its device yields, event for event and in the
/// device's order: nothing is dropped, repeated or reordered.
pub proof fn law_reader_preserves_order(inputs: Seq<ReaderInput>)
    requires
        well_driven(ReaderState::Reading, inputs),
    ensures
        forwarded(actions_over(ReaderState::Reading, inputs)) == decoded(inputs),
    decreases inputs.len(),
{
    let start = ReaderState::Reading;
    if inputs.len() > 0 {
        let earlier = inputs.drop_last();
        assert forall|i: int| 0 <= i < earlier.len() implies answers(
            state_after(start, earlier.take(i)),
            #[trigger] earlier[i],
        ) by {
            assert(earlier.take(i) =~= inputs.take(i));
        }
        law_reader_preserves_order(earlier);
        assert(actions_over(start, inputs).drop_last() =~= actions_over(start, earlier));
    }
}

/// A reader stops for one of three reasons and no other: its stream failed
/// while it was reading, its channel had no receiver while it was forwarding,
/// or it was told to stop. In the first two cases, and only in them, it asks
/// for its device's record to be removed.
pub proof fn law_reader_stops_only_on_failure(state: ReaderState, input: ReaderInput)
    requires
        !(state is Stopped),
    ensures
        next(state, input).0 is Stopped <==> input == ReaderInput::Cancelled || (state
            == ReaderState::Reading && input == ReaderInput::DecodeFailed) || (state is Forwarding
            && input == ReaderInput::ForwardFailed),
        next(state, input).1 is RemoveAndExit <==> (state == ReaderState::Reading && input
            == ReaderInput::DecodeFailed) || (state is Forwarding && input
            == ReaderInput::ForwardFailed),
{
}

/// A reader that has stopped stays stopped and asks for nothing but to exit:
/// there is no retry.
pub proof fn law_reader_stops_for_good(reason: StopReason, inputs: Seq<ReaderInput>)
    ensures
        state_after(ReaderState::Stopped(reason), inputs) == ReaderState::Stopped(reason),
        forall|i: int|
            0 <= i < inputs.len() ==> #[trigger] actions_over(
                ReaderState::Stopped(reason),
                inputs,
            )[i] == ReaderAction::Exit,
    decreases inputs.len(),
{
    if inputs.len() > 0 {
        law_reader_stops_for_good(reason, inputs.drop_last());
        lemma_one_action_per_input(ReaderState::Stopped(reason), inputs);
        lemma_one_action_per_input(ReaderState::Stopped(reason), inputs.drop_last());
        let all = actions_over(ReaderState::Stopped(reason), inputs);
        let front = actions_over(ReaderState::Stopped(reason), inputs.drop_last());
        assert forall|i: int| 0 <= i < inputs.len() implies #[trigger] all[i]
            == ReaderAction::Exit by {
            if i < inputs.len() - 1 {
                assert(all[i] == front[i]);
            }
        }
    }
}

} // verus!
