//! The synthetic keyboard: which keys it registers and what each operation
//! emits.
//!
//! An operation is carried out step by step. Whoever holds the device performs
//! the current step of an [`Emission`] and hands the outcome back; the first
//! failure ends the operation, and nothing is tried twice.

use vstd::prelude::*;
use crate::event::{InputEvent, PRESSED, RELEASED};
use crate::Error;
use std::time::Duration;

verus! {

/// The lock that serialises access to the synthetic keyboard was poisoned.
#[derive(Debug, Clone, Copy, PartialEq, Eq, Structural)]
pub struct KeyboardPoisonError;

/// The synthetic keyboard registers every key code below this one.
pub const KEY_CODE_LIMIT: u16 = 0x2e8;

/// The number of key codes that a key set has room for.
pub const KEY_CODE_COUNT: u16 = 0x300;

/// The keys that a synthetic device announces, held the way `evdev` takes
/// them: as an `AttributeSet` of key codes.
#[verifier::external_body]
pub struct KeySet {
    attributes: evdev::AttributeSet<evdev::KeyCode>,
}

/// `evdev::KeyCode`, carried through opaquely.
#[verifier::external_type_specification]
#[verifier::external_body]
pub struct ExKeyCode(evdev::KeyCode);

/// `evdev::AttributeSetRef`, the borrowed form of an attribute set, carried
/// through opaquely.
#[verifier::external_type_specification]
#[verifier::external_body]
#[verifier::reject_recursive_types(T)]
pub struct ExAttributeSetRef<T>(evdev::AttributeSetRef<T>);

/// The key codes that a key set holds.
pub uninterp spec fn key_codes(keys: KeySet) -> Set<u16>;

/// The key codes that a borrowed attribute set holds.
pub uninterp spec fn borrowed_key_codes(keys: &evdev::AttributeSetRef<evdev::KeyCode>) -> Set<u16>;

impl KeySet {
    /// `AttributeSet::deref`: the same set, borrowed in the form that a device
    /// builder takes. It holds what the key set holds.
    #[verifier::external_body]
    pub fn attributes(&self) -> (borrowed: &evdev::AttributeSetRef<evdev::KeyCode>)
        ensures
            borrowed_key_codes(borrowed) == key_codes(*self),
    {
        &self.attributes
    }
}

/// `AttributeSet::new`: a set that holds no key.
#[verifier::external_body]
fn empty_key_set() -> (keys: KeySet)
    ensures
        key_codes(keys) == Set::<u16>::empty(),
{
    KeySet { attributes: evdev::AttributeSet::new() }
}

/// `AttributeSet::insert` of `KeyCode::new(code)`: afterwards the set holds
/// `code` and what it held before. The set has room for the codes below
/// `KEY_CODE_COUNT`; the call panics on any other.
#[verifier::external_body]
fn insert_key(keys: &mut KeySet, code: u16)
    requires
        code < KEY_CODE_COUNT,
    ensures
        key_codes(*final(keys)) == key_codes(*old(keys)).insert(code),
{
    keys.attributes.insert(evdev::KeyCode::new(code));
}

/// The keys that the synthetic keyboard registers: every code below
/// `KEY_CODE_LIMIT` and no other.
pub fn supported_keys() -> (keys: KeySet)
    ensures
        key_codes(keys) == Set::<u16>::new(|code: u16| code < KEY_CODE_LIMIT),
{
    let mut keys = empty_key_set();
    let mut code: u16 = 0;
    while code < KEY_CODE_LIMIT
        invariant
            code <= KEY_CODE_LIMIT,
            key_codes(keys) == Set::<u16>::new(|c: u16| c < code),
        decreases KEY_CODE_LIMIT - code,
    {
        insert_key(&mut keys, code);
        code += 1;
    }
    keys
}

/// What the attempt to register the synthetic keyboard comes to. A refusal
/// at any step is a construction error that carries the cause; it is final
/// for the keyboard that was being made. What was built is handed on as it
/// is.
pub fn construction_outcome<T>(registered: Result<T, std::io::Error>) -> (outcome: Result<T, Error>)
    ensures
        match registered {
            Ok(built) => outcome == Ok::<T, Error>(built),
            Err(cause) => outcome == Err::<T, Error>(Error::VirtualDeviceConstruction(cause)),
        },
{
    match registered {
        Ok(built) => Ok(built),
        Err(cause) => Err(Error::VirtualDeviceConstruction(cause)),
    }
}

/// What a caller can ask of the keyboard.
#[derive(Debug, Clone, Copy, PartialEq, Eq)]
pub enum KeyOperation {
    /// Press the key and leave it down.
    Press(u16),
    /// Let the key go.
    Release(u16),
    /// Press the key and let it go at once.
    Tap(u16),
    /// Press the key, wait, let it go.
    TapWithDelay(u16, Duration),
}

/// One step of an operation.
#[derive(Debug, Clone, Copy, PartialEq, Eq)]
pub enum EmitStep {
    /// Emit this event on the device.
    Emit(InputEvent),
    /// Let this much time pass.
    Pause(Duration),
}

/// The steps that an operation consists of, in order.
pub open spec fn plan(operation: KeyOperation) -> Seq<EmitStep> {
    match operation {
        KeyOperation::Press(code) => seq![EmitStep::Emit(InputEvent::key_spec(code, PRESSED))],
        KeyOperation::Release(code) => seq![EmitStep::Emit(InputEvent::key_spec(code, RELEASED))],
        KeyOperation::Tap(code) => seq![
            EmitStep::Emit(InputEvent::key_spec(code, PRESSED)),
            EmitStep::Emit(InputEvent::key_spec(code, RELEASED)),
        ],
        KeyOperation::TapWithDelay(code, delay) => seq![
            EmitStep::Emit(InputEvent::key_spec(code, PRESSED)),
            EmitStep::Pause(delay),
            EmitStep::Emit(InputEvent::key_spec(code, RELEASED)),
        ],
    }
}

/// The events among `steps`, in order.
pub open spec fn events_of(steps: Seq<EmitStep>) -> Seq<InputEvent>
    decreases steps.len(),
{
    if steps.len() == 0 {
        Seq::empty()
    } else {
        match steps.last() {
            EmitStep::Emit(event) => events_of(steps.drop_last()).push(event),
            EmitStep::Pause(_) => events_of(steps.drop_last()),
        }
    }
}

/// The steps of `operation`, in order.
pub fn steps_of(operation: KeyOperation) -> (steps: Vec<EmitStep>)
    ensures
        steps@ == plan(operation),
{
    let mut steps: Vec<EmitStep> = Vec::new();
    match operation {
        KeyOperation::Press(code) => {
            steps.push(EmitStep::Emit(InputEvent::press(code)));
        },
        KeyOperation::Release(code) => {
            steps.push(EmitStep::Emit(InputEvent::release(code)));
        },
        KeyOperation::Tap(code) => {
            steps.push(EmitStep::Emit(InputEvent::press(code)));
            steps.push(EmitStep::Emit(InputEvent::release(code)));
        },
        KeyOperation::TapWithDelay(code, delay) => {
            steps.push(EmitStep::Emit(InputEvent::press(code)));
            steps.push(EmitStep::Pause(delay));
            steps.push(EmitStep::Emit(InputEvent::release(code)));
        },
    }
    steps
}

/// An operation under way: its steps and the step that is to be performed
/// now.
#[derive(Debug)]
pub struct Emission {
    steps: Vec<EmitStep>,
    at: usize,
}

/// How an operation goes on after one step.
#[derive(Debug)]
pub enum Progress {
    /// There is a further step to perform.
    Next(Emission),
    /// The operation is over, with this result.
    Finished(Result<(), Error>),
}

impl Emission {
    /// The steps of the operation.
    pub closed spec fn steps(&self) -> Seq<EmitStep> {
        self.steps@
    }

    /// The position of the step that is to be performed now.
    pub closed spec fn at(&self) -> nat {
        self.at as nat
    }

    /// There is a step to perform.
    #[verifier::type_invariant]
    spec fn has_current(&self) -> bool {
        self.at < self.steps@.len()
    }

    /// Starts `operation` at its first step.
    pub fn begin(operation: KeyOperation) -> (emission: Self)
        ensures
            emission.steps() == plan(operation),
            emission.at() == 0,
    {
        Emission { steps: steps_of(operation), at: 0 }
    }

    /// The step to perform now.
    pub fn current(&self) -> (step: EmitStep)
        ensures
            self.at() < self.steps().len(),
            step == self.steps()[self.at() as int],
    {
        proof {
            use_type_invariant(self);
        }
        self.steps[self.at]
    }

    /// Takes the outcome of the current step. A failure ends the operation
    /// with that failure as an `IoError`; the steps that remain are not
    /// performed. After a success the operation goes on with the next step, or
    /// is over where there is none.
    pub fn advance(self, outcome: Result<(), std::io::Error>) -> (progress: Progress)
        ensures
            match outcome {
                Err(failure) => progress == Progress::Finished(Err(Error::IoError(failure))),
                Ok(_) => if self.at() + 1 < self.steps().len() {
                    &&& progress matches Progress::Next(next)
                    &&& next.steps() == self.steps()
                    &&& next.at() == self.at() + 1
                } else {
                    progress == Progress::Finished(Ok(()))
                },
            },
    {
        proof {
            use_type_invariant(&self);
        }
        match outcome {
            Err(failure) => Progress::Finished(Err(Error::IoError(failure))),
            Ok(_) => {
                let total: usize = self.steps.len();
                if self.at + 1 < total {
                    Progress::Next(Emission { steps: self.steps, at: self.at + 1 })
                } else {
                    Progress::Finished(Ok(()))
                }
            },
        }
    }
}

/// A tap emits the press of its key and then the release of the same key,
/// and nothing between or after.
pub proof fn law_tap_is_press_then_release(code: u16)
    ensures
        events_of(plan(KeyOperation::Tap(code))) == seq![
            InputEvent::key_spec(code, PRESSED),
            InputEvent::key_spec(code, RELEASED),
        ],
{
    reveal_with_fuel(events_of, 3);
}

/// A delayed tap emits the same two events as a tap, with the pause between
/// the press and the release.
pub proof fn law_delayed_tap_pauses_between(code: u16, delay: Duration)
    ensures
        events_of(plan(KeyOperation::TapWithDelay(code, delay))) == events_of(
            plan(KeyOperation::Tap(code)),
        ),
        plan(KeyOperation::TapWithDelay(code, delay))[1] == EmitStep::Pause(delay),
{
    law_tap_is_press_then_release(code);
    reveal_with_fuel(events_of, 4);
}

} // verus!
