use input_relay::event::{EventKind, InputEvent};
use input_relay::linux_keyboard::{
    construction_outcome, steps_of, supported_keys, EmitStep, Emission, KeyOperation, KeyboardPoisonError, Progress,
    KEY_CODE_LIMIT,
};
use input_relay::{Error, Keyboard};
use std::cell::RefCell;
use std::io;
use std::time::Duration;

/// A keyboard that writes down what it emits in place of emitting it, and
/// whose device can be made to fail at a chosen emit call.
struct Recorder {
    log: RefCell<Vec<EmitStep>>,
    fail_at: Option<usize>,
}

impl Recorder {
    fn new() -> Self {
        Recorder { log: RefCell::new(Vec::new()), fail_at: None }
    }

    fn failing_at(call: usize) -> Self {
        Recorder { log: RefCell::new(Vec::new()), fail_at: Some(call) }
    }

    fn events(&self) -> Vec<(EventKind, u16, i32)> {
        let mut out = Vec::new();
        for step in self.log.borrow().iter() {
            if let EmitStep::Emit(event) = step {
                out.push((event.kind, event.code, event.value));
            }
        }
        out
    }
}

impl Keyboard for Recorder {
    fn perform(&self, operation: KeyOperation) -> Result<(), Error> {
        let mut emission = Emission::begin(operation);
        loop {
            let step = emission.current();
            let call = self.log.borrow().len();
            let outcome = if self.fail_at == Some(call) {
                Err(io::Error::new(io::ErrorKind::BrokenPipe, "device gone"))
            } else {
                self.log.borrow_mut().push(step);
                Ok(())
            };
            match emission.advance(outcome) {
                Progress::Next(next) => emission = next,
                Progress::Finished(result) => return result,
            }
        }
    }
}

#[test]
fn tap_emits_press_then_release() {
    let keyboard = Recorder::new();
    keyboard.tap(30).unwrap();
    assert_eq!(keyboard.events(), vec![(EventKind::Key, 30, 1), (EventKind::Key, 30, 0)]);
    assert_eq!(keyboard.log.borrow().len(), 2);
}

#[test]
fn tap_with_delay_pauses_between_press_and_release() {
    let keyboard = Recorder::new();
    keyboard.tap_with_delay(30, Duration::from_millis(50)).unwrap();
    assert_eq!(
        *keyboard.log.borrow(),
        vec![
            EmitStep::Emit(InputEvent::press(30)),
            EmitStep::Pause(Duration::from_millis(50)),
            EmitStep::Emit(InputEvent::release(30)),
        ]
    );
    assert_eq!(keyboard.events(), vec![(EventKind::Key, 30, 1), (EventKind::Key, 30, 0)]);
}

#[test]
fn press_and_release_emit_one_event_each() {
    let keyboard = Recorder::new();
    keyboard.press(42).unwrap();
    assert_eq!(keyboard.events(), vec![(EventKind::Key, 42, 1)]);
    keyboard.release(42).unwrap();
    assert_eq!(keyboard.events(), vec![(EventKind::Key, 42, 1), (EventKind::Key, 42, 0)]);
}

#[test]
fn the_steps_of_each_operation() {
    assert_eq!(steps_of(KeyOperation::Press(1)), vec![EmitStep::Emit(InputEvent::press(1))]);
    assert_eq!(steps_of(KeyOperation::Release(1)), vec![EmitStep::Emit(InputEvent::release(1))]);
    assert_eq!(
        steps_of(KeyOperation::Tap(u16::MAX)),
        vec![
            EmitStep::Emit(InputEvent::press(u16::MAX)),
            EmitStep::Emit(InputEvent::release(u16::MAX)),
        ]
    );
    assert_eq!(
        steps_of(KeyOperation::TapWithDelay(7, Duration::ZERO)),
        vec![
            EmitStep::Emit(InputEvent::press(7)),
            EmitStep::Pause(Duration::ZERO),
            EmitStep::Emit(InputEvent::release(7)),
        ]
    );
}

#[test]
fn a_failed_press_ends_the_tap_with_an_io_error() {
    let keyboard = Recorder::failing_at(0);
    let result = keyboard.tap(30);
    match result {
        Err(Error::IoError(failure)) => assert_eq!(failure.kind(), io::ErrorKind::BrokenPipe),
        other => panic!("unexpected result {:?}", other),
    }
    // nothing was emitted, and the release was not tried
    assert!(keyboard.log.borrow().is_empty());
}

#[test]
fn a_failed_release_is_not_tried_again() {
    let keyboard = Recorder::failing_at(1);
    assert!(matches!(keyboard.tap(30), Err(Error::IoError(_))));
    assert_eq!(keyboard.events(), vec![(EventKind::Key, 30, 1)]);
}

#[test]
fn an_emission_walks_its_steps_one_by_one() {
    let emission = Emission::begin(KeyOperation::TapWithDelay(30, Duration::from_millis(50)));
    assert_eq!(emission.current(), EmitStep::Emit(InputEvent::press(30)));
    let emission = match emission.advance(Ok(())) {
        Progress::Next(next) => next,
        Progress::Finished(result) => panic!("over too early: {:?}", result),
    };
    assert_eq!(emission.current(), EmitStep::Pause(Duration::from_millis(50)));
    let emission = match emission.advance(Ok(())) {
        Progress::Next(next) => next,
        Progress::Finished(result) => panic!("over too early: {:?}", result),
    };
    assert_eq!(emission.current(), EmitStep::Emit(InputEvent::release(30)));
    assert!(matches!(emission.advance(Ok(())), Progress::Finished(Ok(()))));
}

#[test]
fn the_keyboard_registers_every_key_code_below_the_limit() {
    let keys = supported_keys();
    assert_eq!(KEY_CODE_LIMIT, 0x2e8);
    assert_eq!(keys.attributes().iter().count(), 0x2e8);
    for code in 0..KEY_CODE_LIMIT {
        assert!(keys.attributes().contains(evdev::KeyCode::new(code)));
    }
    for code in KEY_CODE_LIMIT..0x300 {
        assert!(!keys.attributes().contains(evdev::KeyCode::new(code)));
    }
    assert!(keys.attributes().contains(evdev::KeyCode::KEY_A));
}

#[test]
fn a_refused_registration_is_a_construction_error() {
    let refused: Result<u8, io::Error> =
        Err(io::Error::new(io::ErrorKind::PermissionDenied, "no access to uinput"));
    match construction_outcome(refused) {
        Err(Error::VirtualDeviceConstruction(cause)) => {
            assert_eq!(cause.kind(), io::ErrorKind::PermissionDenied)
        }
        other => panic!("unexpected outcome {:?}", other),
    }
    let not_found: Result<(), io::Error> = Err(io::Error::from(io::ErrorKind::NotFound));
    assert!(matches!(
        construction_outcome(not_found),
        Err(Error::VirtualDeviceConstruction(_))
    ));
}

#[test]
fn an_accepted_registration_hands_on_what_was_built() {
    let accepted: Result<u8, io::Error> = Ok(7);
    assert!(matches!(construction_outcome(accepted), Ok(7)));
    let unit: Result<(), io::Error> = Ok(());
    assert!(matches!(construction_outcome(unit), Ok(())));
}

#[test]
fn errors_are_made_from_their_causes() {
    let poisoned = Error::from(KeyboardPoisonError);
    assert!(matches!(poisoned, Error::KeyboardPoisoned(KeyboardPoisonError)));
    let failed = Error::from(io::Error::new(io::ErrorKind::PermissionDenied, "no uinput"));
    match failed {
        Error::IoError(cause) => assert_eq!(cause.kind(), io::ErrorKind::PermissionDenied),
        other => panic!("unexpected error {:?}", other),
    }
    assert!(matches!(Error::BroadcastPoisoned, Error::BroadcastPoisoned));
}
