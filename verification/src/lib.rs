//! Input event relay: the decision logic of a device-discovery and event
//! fan-out pipeline, of a synthetic keyboard, and of a key-combination watcher.

use vstd::prelude::*;

pub mod event;
pub mod key_watcher;
pub mod linux;
pub mod linux_keyboard;

use crate::linux_keyboard::{KeyOperation, KeyboardPoisonError};
use std::time::Duration;

verus! {

/// `std::io::Error`, carried through opaquely: nothing is known of its contents.
#[verifier::external_type_specification]
#[verifier::external_body]
pub struct ExIoError(std::io::Error);

/// What an operation of this library can fail with.
#[derive(Debug)]
pub enum Error {
    /// A device could not be opened, read, or written to.
    IoError(std::io::Error),
    /// The synthetic keyboard could not be registered with the system.
    VirtualDeviceConstruction(std::io::Error),
    /// The lock around the synthetic keyboard was poisoned.
    KeyboardPoisoned(KeyboardPoisonError),
    /// The subscriber collection can no longer be trusted.
    BroadcastPoisoned,
}

/// A keyboard that takes key codes and emits the matching events.
///
/// An implementation carries out an operation as a whole, with exclusive
/// access to its device for as long as the operation lasts; the four named
/// operations are that one call with the operation filled in.
pub trait Keyboard {
    /// Carries out `operation` on the device.
    fn perform(&self, operation: KeyOperation) -> Result<(), Error>;

    /// Presses the key `key_code` and lets it go at once.
    fn tap(&self, key_code: u16) -> (result: Result<(), Error>)
        ensures
            call_ensures(Self::perform, (self, KeyOperation::Tap(key_code)), result),
    {
        self.perform(KeyOperation::Tap(key_code))
    }

    /// Presses the key `key_code`, waits for `delay`, and lets the key go.
    fn tap_with_delay(&self, key_code: u16, delay: Duration) -> (result: Result<(), Error>)
        ensures
            call_ensures(Self::perform, (self, KeyOperation::TapWithDelay(key_code, delay)), result),
    {
        self.perform(KeyOperation::TapWithDelay(key_code, delay))
    }

    /// Presses the key `key_code` and leaves it down.
    fn press(&self, key_code: u16) -> (result: Result<(), Error>)
        ensures
            call_ensures(Self::perform, (self, KeyOperation::Press(key_code)), result),
    {
        self.perform(KeyOperation::Press(key_code))
    }

    /// Lets the key `key_code` go.
    fn release(&self, key_code: u16) -> (result: Result<(), Error>)
        ensures
            call_ensures(Self::perform, (self, KeyOperation::Release(key_code)), result),
    {
        self.perform(KeyOperation::Release(key_code))
    }
}

impl From<KeyboardPoisonError> for Error {
    fn from(value: KeyboardPoisonError) -> (ret: Self) {
        Error::KeyboardPoisoned(value)
    }
}

impl vstd::std_specs::convert::FromSpecImpl<KeyboardPoisonError> for Error {
    open spec fn obeys_from_spec() -> bool {
        true
    }

    open spec fn from_spec(value: KeyboardPoisonError) -> Self {
        Error::KeyboardPoisoned(value)
    }
}

impl From<std::io::Error> for Error {
    fn from(value: std::io::Error) -> (ret: Self) {
        Error::IoError(value)
    }
}

impl vstd::std_specs::convert::FromSpecImpl<std::io::Error> for Error {
    open spec fn obeys_from_spec() -> bool {
        true
    }

    open spec fn from_spec(value: std::io::Error) -> Self {
        Error::IoError(value)
    }
}

} // verus!
