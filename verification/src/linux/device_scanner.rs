//! The device scanner: it enumerates the devices that the system exposes,
//! reports every one of them, sleeps, and starts over.
//!
//! The scanner does not tell new devices from known ones; the registry does.
//! Like the reader it is a state machine whose driver performs the actions.

use vstd::prelude::*;

verus! {

/// Seconds between the end of one enumeration pass and the start of the next.
pub const SCAN_INTERVAL_SECS: u64 = 5;

/// Where the scanner stands.
#[derive(Clone, Copy, Debug, PartialEq, Eq, Structural)]
pub enum ScannerState {
    /// Waiting for the system to list its devices.
    Enumerating,
    /// Waiting for the channel to take device `next` of the `found` listed.
    Reporting { next: usize, found: usize },
    /// Waiting for the interval to pass.
    Sleeping,
    /// Done for good.
    Stopped,
}

/// What the driver reports to the scanner.
#[derive(Clone, Copy, Debug, PartialEq, Eq, Structural)]
pub enum ScannerInput {
    /// The system listed this many devices.
    Enumerated(usize),
    /// The system could not list its devices this time.
    EnumerationFailed,
    /// The channel took the device.
    Reported,
    /// The channel has no receiver.
    ReportFailed,
    /// The interval has passed.
    Woke,
    /// The scanner is told to stop.
    Cancelled,
}

/// What the scanner asks the driver to do next.
#[derive(Clone, Copy, Debug, PartialEq, Eq, Structural)]
pub enum ScannerAction {
    /// List the devices that the system exposes.
    Enumerate,
    /// Send the device at this position of the list on the channel.
    Report(usize),
    /// Sleep for this many seconds.
    Sleep(u64),
    /// Exit, without any message.
    Exit,
}

/// The action that `state` is waiting on.
pub open spec fn awaited(state: ScannerState) -> ScannerAction {
    match state {
        ScannerState::Enumerating => ScannerAction::Enumerate,
        ScannerState::Reporting { next, .. } => ScannerAction::Report(next),
        ScannerState::Sleeping => ScannerAction::Sleep(SCAN_INTERVAL_SECS),
        ScannerState::Stopped => ScannerAction::Exit,
    }
}

/// One step of the scanner: the state it moves to and the action it asks for.
///
/// A failed enumeration costs one pass and no more. A device that the channel
/// does not take ends the scanner. An input that does not answer the awaited
/// action changes nothing.
pub open spec fn next(state: ScannerState, input: ScannerInput) -> (ScannerState, ScannerAction) {
    match (state, input) {
        (ScannerState::Stopped, _) => (state, ScannerAction::Exit),
        (_, ScannerInput::Cancelled) => (ScannerState::Stopped, ScannerAction::Exit),
        (ScannerState::Enumerating, ScannerInput::Enumerated(found)) => if found == 0 {
            (ScannerState::Sleeping, ScannerAction::Sleep(SCAN_INTERVAL_SECS))
        } else {
            (ScannerState::Reporting { next: 0, found }, ScannerAction::Report(0))
        },
        (ScannerState::Enumerating, ScannerInput::EnumerationFailed) => (
            ScannerState::Sleeping,
            ScannerAction::Sleep(SCAN_INTERVAL_SECS),
        ),
        (ScannerState::Reporting { next, found }, ScannerInput::Reported) => if next + 1 < found {
            (
                ScannerState::Reporting { next: (next + 1) as usize, found },
                ScannerAction::Report((next + 1) as usize),
            )
        } else {
            (ScannerState::Sleeping, ScannerAction::Sleep(SCAN_INTERVAL_SECS))
        },
        (ScannerState::Reporting { .. }, ScannerInput::ReportFailed) => (
            ScannerState::Stopped,
            ScannerAction::Exit,
        ),
        (ScannerState::Sleeping, ScannerInput::Woke) => (
            ScannerState::Enumerating,
            ScannerAction::Enumerate,
        ),
        _ => (state, awaited(state)),
    }
}

/// The scanner.
pub struct DeviceScanner {
    state: ScannerState,
}

impl View for DeviceScanner {
    type V = ScannerState;

    closed spec fn view(&self) -> ScannerState {
        self.state
    }
}

impl DeviceScanner {
    /// A scanner that is about to enumerate for the first time.
    pub fn new() -> (scanner: Self)
        ensures
            scanner@ == ScannerState::Enumerating,
    {
        DeviceScanner { state: ScannerState::Enumerating }
    }

    /// Where the scanner stands.
    pub fn state(&self) -> (state: ScannerState)
        ensures
            state == self@,
    {
        self.state
    }

    /// The action that the scanner is waiting on.
    pub fn pending(&self) -> (action: ScannerAction)
        ensures
            action == awaited(self@),
    {
        match self.state {
            ScannerState::Enumerating => ScannerAction::Enumerate,
            ScannerState::Reporting { next, .. } => ScannerAction::Report(next),
            ScannerState::Sleeping => ScannerAction::Sleep(SCAN_INTERVAL_SECS),
            ScannerState::Stopped => ScannerAction::Exit,
        }
    }

    /// Takes one input and says what to do next.
    pub fn step(&mut self, input: ScannerInput) -> (action: ScannerAction)
        ensures
            (final(self)@, action) == next(old(self)@, input),
    {
        let (state, action) = match (self.state, input) {
            (ScannerState::Stopped, _) => (self.state, ScannerAction::Exit),
            (_, ScannerInput::Cancelled) => (ScannerState::Stopped, ScannerAction::Exit),
            (ScannerState::Enumerating, ScannerInput::Enumerated(found)) => if found == 0 {
                (ScannerState::Sleeping, ScannerAction::Sleep(SCAN_INTERVAL_SECS))
            } else {
                (ScannerState::Reporting { next: 0, found }, ScannerAction::Report(0))
            },
            (ScannerState::Enumerating, ScannerInput::EnumerationFailed) => (
                ScannerState::Sleeping,
                ScannerAction::Sleep(SCAN_INTERVAL_SECS),
            ),
            (ScannerState::Reporting { next, found }, ScannerInput::Reported) => if next < found
                && found - next > 1 {
                (ScannerState::Reporting { next: next + 1, found }, ScannerAction::Report(next + 1))
            } else {
                (ScannerState::Sleeping, ScannerAction::Sleep(SCAN_INTERVAL_SECS))
            },
            (ScannerState::Reporting { .. }, ScannerInput::ReportFailed) => (
                ScannerState::Stopped,
                ScannerAction::Exit,
            ),
            (ScannerState::Sleeping, ScannerInput::Woke) => (
                ScannerState::Enumerating,
                ScannerAction::Enumerate,
            ),
            (ScannerState::Enumerating, _) => (self.state, ScannerAction::Enumerate),
            (ScannerState::Reporting { next, .. }, _) => (self.state, ScannerAction::Report(next)),
            (ScannerState::Sleeping, _) => (self.state, ScannerAction::Sleep(SCAN_INTERVAL_SECS)),
        };
        self.state = state;
        action
    }
}

/// The state after `inputs`, taken in order from `state`.
pub open spec fn state_after(state: ScannerState, inputs: Seq<ScannerInput>) -> ScannerState
    decreases inputs.len(),
{
    if inputs.len() == 0 {
        state
    } else {
        next(state_after(state, inputs.drop_last()), inputs.last()).0
    }
}

/// The action that the scanner asks for on the last of `inputs`.
pub open spec fn last_action(state: ScannerState, inputs: Seq<ScannerInput>) -> ScannerAction {
    if inputs.len() == 0 {
        awaited(state)
    } else {
        next(state_after(state, inputs.drop_last()), inputs.last()).1
    }
}

/// One enumeration of `found` devices followed by `taken` reports that the
/// channel took.
pub open spec fn pass_inputs(found: usize, taken: nat) -> Seq<ScannerInput> {
    seq![ScannerInput::Enumerated(found)] + Seq::new(taken, |i: int| ScannerInput::Reported)
}

/// Within one pass the scanner reports every listed device once, in the order
/// of the list, whether or not it was reported before; after the last one it
/// sleeps for the interval.
pub proof fn law_pass_reports_every_device(found: usize, taken: nat)
    requires
        taken <= found,
    ensures
        taken < found ==> {
            &&& state_after(ScannerState::Enumerating, pass_inputs(found, taken))
                == (ScannerState::Reporting { next: taken as usize, found })
            &&& last_action(ScannerState::Enumerating, pass_inputs(found, taken))
                == ScannerAction::Report(taken as usize)
        },
        taken == found ==> {
            &&& state_after(ScannerState::Enumerating, pass_inputs(found, taken))
                == ScannerState::Sleeping
            &&& last_action(ScannerState::Enumerating, pass_inputs(found, taken))
                == ScannerAction::Sleep(SCAN_INTERVAL_SECS)
        },
    decreases taken,
{
    if taken > 0 {
        let earlier = pass_inputs(found, (taken - 1) as nat);
        law_pass_reports_every_device(found, (taken - 1) as nat);
        assert(pass_inputs(found, taken).drop_last() =~= earlier);
    }
}

/// The scanner never ends by itself: it stops only when it is told to, or
/// when the channel does not take a device.
pub proof fn law_scanner_stops_only_when_told(state: ScannerState, input: ScannerInput)
    requires
        state != ScannerState::Stopped,
        next(state, input).0 == ScannerState::Stopped,
    ensures
        input == ScannerInput::Cancelled || (state is Reporting && input
            == ScannerInput::ReportFailed),
{
}

/// A scanner that has stopped stays stopped, whatever it is told.
pub proof fn law_scanner_stops_for_good(inputs: Seq<ScannerInput>)
    ensures
        state_after(ScannerState::Stopped, inputs) == ScannerState::Stopped,
        last_action(ScannerState::Stopped, inputs) == ScannerAction::Exit,
    decreases inputs.len(),
{
    if inputs.len() > 0 {
        law_scanner_stops_for_good(inputs.drop_last());
    }
}

} // verus!
