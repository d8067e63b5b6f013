use input_relay::event::InputEvent;
use input_relay::linux::broadcaster::Broadcaster;
use input_relay::linux::input_scanner::{DeviceIdentity, Registry};
use input_relay::linux::listening_device::{DeviceReader, ReaderAction, ReaderInput};
use input_relay::linux::broadcaster::SEND_DEADLINE_SECS;
use input_relay::linux::{StopSignals, CHANNEL_CAPACITY, STOP};

#[test]
fn the_stop_value_is_zero() {
    assert_eq!(STOP, 0);
}

#[test]
fn the_channels_buffer_a_hundred_items() {
    assert_eq!(CHANNEL_CAPACITY, 100);
}

#[test]
fn a_full_subscriber_may_hold_up_a_pass_for_a_second() {
    assert_eq!(SEND_DEADLINE_SECS, 1);
}

#[test]
fn every_registered_stop_channel_is_handed_out_once() {
    let mut signals: StopSignals<&str> = StopSignals::new();
    assert_eq!(signals.len(), 0);
    signals.register("scanner");
    signals.register("registry");
    assert_eq!(signals.len(), 2);
    assert_eq!(signals.drain(), vec!["scanner", "registry"]);
    assert_eq!(signals.len(), 0);
    assert!(signals.drain().is_empty());
    signals.register("late");
    assert_eq!(signals.drain(), vec!["late"]);
}

/// Two simulated devices, read in turn, merged, and fanned out to two
/// subscribers: each subscriber sees each device's events in the order in
/// which the device emitted them.
#[test]
fn events_of_one_device_keep_their_order_through_the_pipeline() {
    let keyboard = vec![
        InputEvent::press(30),
        InputEvent::release(30),
        InputEvent::press(31),
        InputEvent::release(31),
    ];
    let mouse = vec![InputEvent::press(272), InputEvent::release(272)];

    let mut registry: Registry<&str> = Registry::new();
    let keyboard_id = DeviceIdentity::Path(String::from("/dev/input/event0"));
    let mouse_id = DeviceIdentity::Path(String::from("/dev/input/event1"));
    assert!(registry.add_device(keyboard_id, Some("Keyboard"), "keyboard reader").is_ok());
    assert!(registry.add_device(mouse_id, Some("Mouse"), "mouse reader").is_ok());

    let mut hub: Broadcaster<usize> = Broadcaster::new();
    let first = hub.subscribe(0).unwrap();
    let second = hub.subscribe(1).unwrap();
    let mut inboxes: Vec<Vec<InputEvent>> = vec![Vec::new(), Vec::new()];

    let mut keyboard_reader = DeviceReader::new();
    let mut mouse_reader = DeviceReader::new();
    let mut k = 0;
    let mut m = 0;
    while k < keyboard.len() || m < mouse.len() {
        // the mouse gets its turn after every second keyboard event
        let (reader, event) = if m < mouse.len() && (k == keyboard.len() || k % 2 == 1 && m < k) {
            m += 1;
            (&mut mouse_reader, mouse[m - 1])
        } else {
            k += 1;
            (&mut keyboard_reader, keyboard[k - 1])
        };
        let forwarded = match reader.step(ReaderInput::Decoded(event)) {
            ReaderAction::Forward(out) => out,
            other => panic!("unexpected action {:?}", other),
        };
        let mut pass = hub.begin_pass();
        while let Some(id) = pass.next_target() {
            let slot = if id == first { 0 } else { 1 };
            assert!(id == first || id == second);
            inboxes[slot].push(forwarded);
            pass.record(true);
        }
        hub.end_pass(&pass);
        assert_eq!(reader.step(ReaderInput::Forwarded), ReaderAction::ReadNext);
    }

    for inbox in &inboxes {
        let from_keyboard: Vec<InputEvent> =
            inbox.iter().copied().filter(|event| event.code < 100).collect();
        let from_mouse: Vec<InputEvent> =
            inbox.iter().copied().filter(|event| event.code >= 100).collect();
        assert_eq!(from_keyboard, keyboard);
        assert_eq!(from_mouse, mouse);
    }
    assert_eq!(inboxes[0], inboxes[1]);
}
