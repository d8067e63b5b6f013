use input_relay::event::{InputEvent, Timestamp};
use input_relay::key_watcher::{first_match, listen_for_keys, KeyDownSet, KeyWatcher};

const A: u16 = 30;
const B: u16 = 48;
const C: u16 = 46;

#[test]
fn press_a_then_b_resolves_on_b() {
    let events = vec![InputEvent::press(A), InputEvent::press(B)];
    assert_eq!(first_match(&vec![A, B], &events), Some(1));
    assert_eq!(listen_for_keys(&vec![A, B], &events), Some(()));
}

#[test]
fn press_a_release_a_press_b_never_resolves() {
    let events = vec![InputEvent::press(A), InputEvent::release(A), InputEvent::press(B)];
    assert_eq!(first_match(&vec![A, B], &events), None);
    assert_eq!(listen_for_keys(&vec![A, B], &events), None);
}

#[test]
fn the_watch_resolves_at_the_first_moment_and_not_later() {
    let events = vec![
        InputEvent::press(C),
        InputEvent::press(B),
        InputEvent::press(A),
        InputEvent::release(A),
        InputEvent::press(A),
    ];
    assert_eq!(first_match(&vec![A, B], &events), Some(2));
    assert_eq!(first_match(&vec![B, A], &events), Some(2));
    assert_eq!(first_match(&vec![C], &events), Some(0));
    assert_eq!(first_match(&vec![A, B, C], &events), Some(2));
}

#[test]
fn a_stream_that_ends_before_the_combination_is_not_matched() {
    assert_eq!(listen_for_keys(&vec![A, B], &vec![]), None);
    assert_eq!(listen_for_keys(&vec![A, B], &vec![InputEvent::press(A)]), None);
    assert_eq!(first_match(&vec![A], &vec![]), None);
}

#[test]
fn autorepeat_does_not_count_as_a_press() {
    let events = vec![InputEvent::key(A, 2), InputEvent::press(B)];
    assert_eq!(first_match(&vec![A, B], &events), None);
    // nor as a release
    let events = vec![InputEvent::press(A), InputEvent::key(A, 2), InputEvent::press(B)];
    assert_eq!(first_match(&vec![A, B], &events), Some(2));
}

#[test]
fn events_that_are_not_key_events_do_not_count() {
    let stamp = Timestamp { seconds: 0, micros: 0 };
    let motion_with_code_a = InputEvent::decode(2, A, 1, stamp);
    let events = vec![motion_with_code_a, InputEvent::press(B)];
    assert_eq!(first_match(&vec![A, B], &events), None);
    let other_with_code_a = InputEvent::decode(4, A, 0, stamp);
    let events = vec![InputEvent::press(A), other_with_code_a, InputEvent::press(B)];
    assert_eq!(first_match(&vec![A, B], &events), Some(2));
}

#[test]
fn a_repeated_target_is_one_target() {
    let events = vec![InputEvent::press(A)];
    assert_eq!(first_match(&vec![A, A], &events), Some(0));
}

#[test]
fn an_empty_combination_resolves_on_the_first_event() {
    assert_eq!(first_match(&vec![], &vec![]), None);
    assert_eq!(first_match(&vec![], &vec![InputEvent::release(A)]), Some(0));
}

#[test]
fn the_down_set_follows_presses_and_releases() {
    let mut down = KeyDownSet::new();
    assert!(!down.contains(A));
    assert!(down.contains_all(&vec![]));
    down.insert(A);
    down.insert(A);
    down.insert(B);
    assert!(down.contains(A));
    assert!(down.contains(B));
    assert!(down.contains_all(&vec![A, B]));
    assert!(!down.contains_all(&vec![A, C]));
    down.remove(A);
    assert!(!down.contains(A));
    assert!(down.contains(B));
    down.remove(A);
    down.remove(C);
    assert!(down.contains(B));
    down.apply(InputEvent::press(C));
    assert!(down.contains(C));
    down.apply(InputEvent::key(C, 2));
    assert!(down.contains(C));
    down.apply(InputEvent::release(C));
    assert!(!down.contains(C));
}

#[test]
fn a_watcher_takes_events_one_at_a_time() {
    let mut watcher = KeyWatcher::new(vec![A, B]);
    assert!(!watcher.is_matched());
    assert!(!watcher.observe(InputEvent::press(A)));
    assert!(!watcher.observe(InputEvent::release(A)));
    assert!(!watcher.observe(InputEvent::press(B)));
    assert!(watcher.observe(InputEvent::press(A)));
    assert!(watcher.is_matched());
    assert_eq!(watcher.finish(), Some(()));
}

#[test]
fn a_resolved_watcher_stays_resolved() {
    let mut watcher = KeyWatcher::new(vec![A]);
    assert!(watcher.observe(InputEvent::press(A)));
    assert!(watcher.observe(InputEvent::release(A)));
    assert!(watcher.observe(InputEvent::press(B)));
    assert_eq!(watcher.finish(), Some(()));
}

#[test]
fn a_watcher_whose_subscription_closes_early_is_not_matched() {
    let mut watcher = KeyWatcher::new(vec![A, B]);
    assert!(!watcher.observe(InputEvent::press(A)));
    assert_eq!(watcher.finish(), None);
    assert_eq!(KeyWatcher::new(vec![A]).finish(), None);
}
