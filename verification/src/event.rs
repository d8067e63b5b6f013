//! The uniform event type that every device's raw stream is decoded into.

use vstd::prelude::*;

verus! {

/// The raw type number of key and button events.
pub const RAW_KEY: u16 = 1;

/// The raw type number of relative-motion events.
pub const RAW_RELATIVE: u16 = 2;

/// The value of a key event that reports a press.
pub const PRESSED: i32 = 1;

/// The value of a key event that reports a release.
pub const RELEASED: i32 = 0;

/// What an event is about.
#[derive(Clone, Copy, Debug, PartialEq, Eq, Structural)]
pub enum EventKind {
    /// A key or button changed state.
    Key,
    /// Movement along a relative axis.
    RelativeMotion,
    /// Anything else a device may report.
    Other,
}

/// When the kernel recorded an event: seconds and microseconds since the epoch.
#[derive(Clone, Copy, Debug, PartialEq, Eq, Structural)]
pub struct Timestamp {
    pub seconds: u64,
    pub micros: u32,
}

/// One input event, copied by value to every consumer.
///
/// For key events `value` is 1 on press and 0 on release; any other value
/// (autorepeat, for one) is carried unchanged and is neither.
#[derive(Clone, Copy, Debug, PartialEq, Eq, Structural)]
pub struct InputEvent {
    pub kind: EventKind,
    pub code: u16,
    pub value: i32,
    pub timestamp: Timestamp,
}

/// The kind that a raw type number stands for.
pub open spec fn kind_of_raw(raw_type: u16) -> EventKind {
    if raw_type == RAW_KEY {
        EventKind::Key
    } else if raw_type == RAW_RELATIVE {
        EventKind::RelativeMotion
    } else {
        EventKind::Other
    }
}

/// `evdev::EventType::KEY`, which the crate defines as the number 1.
#[verifier::external_body]
fn raw_key_type() -> (raw: u16)
    ensures
        raw == RAW_KEY,
{
    evdev::EventType::KEY.0
}

/// `evdev::EventType::RELATIVE`, which the crate defines as the number 2.
#[verifier::external_body]
fn raw_relative_type() -> (raw: u16)
    ensures
        raw == RAW_RELATIVE,
{
    evdev::EventType::RELATIVE.0
}

impl EventKind {
    /// Classifies a raw type number.
    pub fn from_raw(raw_type: u16) -> (kind: EventKind)
        ensures
            kind == kind_of_raw(raw_type),
    {
        if raw_type == raw_key_type() {
            EventKind::Key
        } else if raw_type == raw_relative_type() {
            EventKind::RelativeMotion
        } else {
            EventKind::Other
        }
    }

    /// The raw type number of this kind; `Other` covers many and so has none.
    pub open spec fn raw_spec(self) -> Option<u16> {
        match self {
            EventKind::Key => Some(RAW_KEY),
            EventKind::RelativeMotion => Some(RAW_RELATIVE),
            EventKind::Other => None,
        }
    }

    /// The raw type number of this kind, where it has exactly one.
    pub fn raw_type(self) -> (raw: Option<u16>)
        ensures
            raw == self.raw_spec(),
    {
        match self {
            EventKind::Key => Some(raw_key_type()),
            EventKind::RelativeMotion => Some(raw_relative_type()),
            EventKind::Other => None,
        }
    }
}

impl Timestamp {
    /// The timestamp of an event that was made here, not read from a device.
    pub open spec fn zero() -> Timestamp {
        Timestamp { seconds: 0, micros: 0 }
    }
}

impl InputEvent {
    /// The key event `(key, code, value)` with a zero timestamp.
    pub open spec fn key_spec(code: u16, value: i32) -> InputEvent {
        InputEvent { kind: EventKind::Key, code, value, timestamp: Timestamp::zero() }
    }

    /// True of a key event that reports a press.
    pub open spec fn is_press_spec(self) -> bool {
        self.kind == EventKind::Key && self.value == PRESSED
    }

    /// True of a key event that reports a release.
    pub open spec fn is_release_spec(self) -> bool {
        self.kind == EventKind::Key && self.value == RELEASED
    }

    /// Decodes the fields of a raw event into the uniform type.
    pub fn decode(raw_type: u16, code: u16, value: i32, timestamp: Timestamp) -> (event: InputEvent)
        ensures
            event == (InputEvent { kind: kind_of_raw(raw_type), code, value, timestamp }),
    {
        InputEvent { kind: EventKind::from_raw(raw_type), code, value, timestamp }
    }

    /// A key event made here, for a synthetic device to emit.
    pub fn key(code: u16, value: i32) -> (event: InputEvent)
        ensures
            event == InputEvent::key_spec(code, value),
    {
        InputEvent {
            kind: EventKind::Key,
            code,
            value,
            timestamp: Timestamp { seconds: 0, micros: 0 },
        }
    }

    /// The press of `code`.
    pub fn press(code: u16) -> (event: InputEvent)
        ensures
            event == InputEvent::key_spec(code, PRESSED),
    {
        InputEvent::key(code, PRESSED)
    }

    /// The release of `code`.
    pub fn release(code: u16) -> (event: InputEvent)
        ensures
            event == InputEvent::key_spec(code, RELEASED),
    {
        InputEvent::key(code, RELEASED)
    }

    /// Whether this is a key press.
    #[verifier::when_used_as_spec(is_press_spec)]
    pub fn is_press(self) -> (b: bool)
        ensures
            b == self.is_press_spec(),
    {
        matches!(self.kind, EventKind::Key) && self.value == PRESSED
    }

    /// Whether this is a key release.
    #[verifier::when_used_as_spec(is_release_spec)]
    pub fn is_release(self) -> (b: bool)
        ensures
            b == self.is_release_spec(),
    {
        matches!(self.kind, EventKind::Key) && self.value == RELEASED
    }
}

} // verus!
