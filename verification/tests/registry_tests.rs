use input_relay::linux::input_scanner::{
    device_label, get_path, identify, path_label, DeviceIdentity, DeviceStatus, Registry,
};
use std::path::PathBuf;

fn usb_keyboard() -> DeviceIdentity {
    DeviceIdentity::Hardware { bus_type: 3, vendor: 0x046d, product: 0xc31c, version: 0x0110 }
}

fn usb_mouse() -> DeviceIdentity {
    DeviceIdentity::Hardware { bus_type: 3, vendor: 0x046d, product: 0xc077, version: 0x0111 }
}

#[test]
fn a_path_that_is_text_is_shown_as_it_is() {
    assert_eq!(get_path(&PathBuf::from("/dev/input/event3")), "/dev/input/event3");
    assert_eq!(get_path(&PathBuf::from("")), "");
    assert_eq!(path_label(Some("/dev/input/event0")), "/dev/input/event0");
}

#[test]
fn a_path_without_text_is_shown_as_unknown() {
    assert_eq!(path_label(None), "unknown path");
}

#[test]
fn a_device_is_shown_by_its_name_or_as_unknown() {
    assert_eq!(device_label(Some("AT Translated Set 2 keyboard")), "AT Translated Set 2 keyboard");
    assert_eq!(device_label(Some("")), "");
    assert_eq!(device_label(None), "unknown device");
}

#[test]
fn identities_are_equal_when_all_their_parts_are() {
    assert!(usb_keyboard().same_device(&usb_keyboard()));
    assert!(!usb_keyboard().same_device(&usb_mouse()));
    let other_version =
        DeviceIdentity::Hardware { bus_type: 3, vendor: 0x046d, product: 0xc31c, version: 0x0111 };
    assert!(!usb_keyboard().same_device(&other_version));
    let other_bus =
        DeviceIdentity::Hardware { bus_type: 5, vendor: 0x046d, product: 0xc31c, version: 0x0110 };
    assert!(!usb_keyboard().same_device(&other_bus));
    let by_path = DeviceIdentity::Path(String::from("/dev/input/event3"));
    assert!(by_path.same_device(&DeviceIdentity::Path(String::from("/dev/input/event3"))));
    assert!(!by_path.same_device(&DeviceIdentity::Path(String::from("/dev/input/event4"))));
    assert!(!by_path.same_device(&usb_keyboard()));
    assert!(!usb_keyboard().same_device(&by_path));
    assert_eq!(usb_keyboard(), usb_keyboard());
    assert_ne!(usb_keyboard(), usb_mouse());
    assert_eq!(by_path.clone(), by_path);
}

#[test]
fn a_new_registry_knows_no_device() {
    let registry: Registry<u8> = Registry::new();
    assert_eq!(registry.len(), 0);
    assert!(!registry.is_active(&usb_keyboard()));
    assert_eq!(registry.position(&usb_keyboard()), None);
    assert!(registry.get(0).is_none());
}

#[test]
fn a_reported_device_gets_an_active_record() {
    let mut registry: Registry<u8> = Registry::new();
    assert_eq!(registry.add_device(usb_keyboard(), Some("Keyboard"), 7), Ok(()));
    assert_eq!(registry.len(), 1);
    assert!(registry.is_active(&usb_keyboard()));
    let record = registry.get(0).unwrap();
    assert_eq!(record.reader, 7);
    assert_eq!(record.identity, usb_keyboard());
    assert_eq!(record.display_name, "Keyboard");
    assert_eq!(record.status, DeviceStatus::Active);
}

#[test]
fn a_device_without_a_name_is_recorded_as_unknown() {
    let mut registry: Registry<u8> = Registry::new();
    assert_eq!(registry.add_device(usb_mouse(), None, 0), Ok(()));
    assert_eq!(registry.get(0).unwrap().display_name, "unknown device");
}

#[test]
fn reporting_an_active_device_again_starts_no_second_reader() {
    let mut registry: Registry<u8> = Registry::new();
    let mut readers_started = 0;
    let mut reader = 0;
    for name in [Some("Keyboard"), Some("Keyboard (other handle)"), None] {
        reader += 1;
        match registry.add_device(usb_keyboard(), name, reader) {
            Ok(()) => readers_started += 1,
            // the reader that was offered comes back unused
            Err(handed_back) => assert_eq!(handed_back, reader),
        }
    }
    assert_eq!(readers_started, 1);
    assert_eq!(registry.len(), 1);
    // the report with the other handle was ignored altogether
    assert_eq!(registry.get(0).unwrap().display_name, "Keyboard");
    assert_eq!(registry.get(0).unwrap().reader, 1);
}

#[test]
fn devices_are_told_apart_by_identity() {
    let mut registry: Registry<u8> = Registry::new();
    let by_path = || DeviceIdentity::Path(String::from("/dev/input/event9"));
    assert!(registry.add_device(usb_keyboard(), Some("Keyboard"), 1).is_ok());
    assert!(registry.add_device(usb_mouse(), Some("Mouse"), 2).is_ok());
    assert!(registry.add_device(by_path(), None, 3).is_ok());
    assert_eq!(registry.add_device(by_path(), None, 4), Err(4));
    assert_eq!(registry.len(), 3);
    assert_eq!(registry.position(&usb_keyboard()), Some(0));
    assert_eq!(registry.position(&usb_mouse()), Some(1));
    assert_eq!(registry.position(&by_path()), Some(2));
}

#[test]
fn a_failed_reader_removes_its_record_and_no_other() {
    let mut registry: Registry<u8> = Registry::new();
    registry.add_device(usb_keyboard(), Some("Keyboard"), 1).unwrap();
    registry.add_device(usb_mouse(), Some("Mouse"), 2).unwrap();
    let removed = registry.remove_device(&usb_keyboard()).unwrap();
    assert_eq!(removed.identity, usb_keyboard());
    assert_eq!(removed.display_name, "Keyboard");
    assert_eq!(removed.status, DeviceStatus::Removed);
    assert_eq!(removed.reader, 1);
    assert_eq!(registry.len(), 1);
    assert!(!registry.is_active(&usb_keyboard()));
    assert!(registry.is_active(&usb_mouse()));
    assert_eq!(registry.get(0).unwrap().display_name, "Mouse");
    assert_eq!(registry.get(0).unwrap().status, DeviceStatus::Active);
    assert_eq!(registry.get(0).unwrap().reader, 2);
}

#[test]
fn removing_an_unknown_device_changes_nothing() {
    let mut registry: Registry<u8> = Registry::new();
    registry.add_device(usb_mouse(), Some("Mouse"), 2).unwrap();
    assert!(registry.remove_device(&usb_keyboard()).is_none());
    assert_eq!(registry.len(), 1);
    assert!(registry.is_active(&usb_mouse()));
}

#[test]
fn a_device_is_found_again_after_its_reader_failed() {
    let mut registry: Registry<u8> = Registry::new();
    assert!(registry.add_device(usb_keyboard(), Some("Keyboard"), 1).is_ok());
    assert!(registry.remove_device(&usb_keyboard()).is_some());
    assert!(registry.add_device(usb_keyboard(), Some("Keyboard, replugged"), 2).is_ok());
    assert!(registry.add_device(usb_keyboard(), Some("Keyboard, replugged"), 3).is_err());
    assert_eq!(registry.len(), 1);
    assert_eq!(registry.get(0).unwrap().display_name, "Keyboard, replugged");
    assert_eq!(registry.get(0).unwrap().reader, 2);
}

#[test]
fn an_identity_is_formed_from_what_the_device_reports_and_its_path() {
    let ids = (3, 0x046d, 0xc31c, 0x0110);
    let formed = identify(Some(ids), "/dev/input/event3");
    match &formed {
        DeviceIdentity::HardwareAt { bus_type, vendor, product, version, path } => {
            assert_eq!((*bus_type, *vendor, *product, *version), ids);
            assert_eq!(path, "/dev/input/event3");
        }
        other => panic!("unexpected identity {:?}", other),
    }
    // the same device, found again at the same path
    assert_eq!(formed, identify(Some(ids), "/dev/input/event3"));
    // another model at the same path is another device
    assert_ne!(formed, identify(Some((3, 0x046d, 0xc077, 0x0110)), "/dev/input/event3"));
    // neither equals the identities that hold the numbers or the path alone
    assert_ne!(formed, usb_keyboard());
    assert_ne!(formed, DeviceIdentity::Path(String::from("/dev/input/event3")));
}

#[test]
fn a_device_that_reports_nothing_is_known_by_its_path() {
    let formed = identify(None, "/dev/input/event5");
    assert_eq!(formed, DeviceIdentity::Path(String::from("/dev/input/event5")));
    assert_ne!(formed, identify(None, "/dev/input/event6"));
    assert_ne!(formed, identify(Some((0, 0, 0, 0)), "/dev/input/event5"));
}

#[test]
fn a_second_keyboard_of_the_same_model_gets_its_own_reader() {
    let ids = Some((3, 0x046d, 0xc31c, 0x0110));
    let mut registry: Registry<u8> = Registry::new();
    assert_eq!(registry.add_device(identify(ids, "/dev/input/event3"), Some("Keyboard"), 1), Ok(()));
    assert_eq!(registry.add_device(identify(ids, "/dev/input/event4"), Some("Keyboard"), 2), Ok(()));
    assert_eq!(registry.len(), 2);
    // each of them is still reported once only
    assert_eq!(registry.add_device(identify(ids, "/dev/input/event3"), Some("Keyboard"), 3), Err(3));
    assert_eq!(registry.add_device(identify(ids, "/dev/input/event4"), Some("Keyboard"), 4), Err(4));
    // and the failure of one leaves the other alone
    let removed = registry.remove_device(&identify(ids, "/dev/input/event3")).unwrap();
    assert_eq!(removed.reader, 1);
    assert!(registry.is_active(&identify(ids, "/dev/input/event4")));
    assert!(!registry.is_active(&identify(ids, "/dev/input/event3")));
}

#[test]
fn draining_hands_out_every_record_as_removed() {
    let mut registry: Registry<u8> = Registry::new();
    registry.add_device(usb_keyboard(), Some("Keyboard"), 1).unwrap();
    registry.add_device(usb_mouse(), None, 2).unwrap();
    let removed = registry.drain();
    assert_eq!(removed.len(), 2);
    assert_eq!(removed[0].identity, usb_keyboard());
    assert_eq!(removed[0].display_name, "Keyboard");
    assert_eq!(removed[0].reader, 1);
    assert_eq!(removed[0].status, DeviceStatus::Removed);
    assert_eq!(removed[1].identity, usb_mouse());
    assert_eq!(removed[1].display_name, "unknown device");
    assert_eq!(removed[1].reader, 2);
    assert_eq!(removed[1].status, DeviceStatus::Removed);
    assert_eq!(registry.len(), 0);
    assert!(registry.drain().is_empty());
    // a drained registry takes devices again
    assert!(registry.add_device(usb_keyboard(), None, 3).is_ok());
}
