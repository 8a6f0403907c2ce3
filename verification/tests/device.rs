use keyboard_debouncer::config::{Config, DebounceConfig};
use keyboard_debouncer::device::{is_device_disconnected, DeviceScan, Probe};
use keyboard_debouncer::supervisor::{Notice, RunAction, RunEvent, Supervisor};

fn opened(name: &str) -> Probe {
    Probe::Opened(Some(String::from(name)))
}

fn config(device_path: &str, keyboard_name: Option<&str>) -> Config {
    Config {
        device_path: String::from(device_path),
        keyboard_name: keyboard_name.map(String::from),
        keys: vec![37u16],
        debounce: DebounceConfig {
            threshold_ms: 30,
            extended_threshold_ms: 100,
            short_hold_threshold_ms: 70,
            micro_hold_threshold_ms: 20,
            micro_extended_threshold_ms: 150,
            log_forward: false,
            debounce_all: false,
        },
        track_db: None,
    }
}

#[test]
fn missing_devices_are_told_from_other_errors() {
    assert!(is_device_disconnected(&vec![Some(19)]));
    assert!(is_device_disconnected(&vec![Some(2)]));
    assert!(is_device_disconnected(&vec![None, Some(13), Some(19)]));
    assert!(!is_device_disconnected(&vec![None, Some(13)]));
    assert!(!is_device_disconnected(&vec![]));
}

#[test]
fn only_event_nodes_are_opened() {
    let mut scan = DeviceScan::new("kb");
    assert!(!scan.wants("mouse0"));
    assert!(!scan.wants("even"));
    assert_eq!(
        scan.failure(),
        "Device 'kb' not found — no event nodes in /dev/input yet"
    );
    assert!(scan.wants("event3"));
    assert_eq!(scan.failure(), "Device 'kb' not found in /dev/input");
}

#[test]
fn keyboard_is_known_by_its_trimmed_name() {
    let mut scan = DeviceScan::new("My Keyboard");
    assert!(!scan.observe(&opened("Other")));
    assert!(!scan.observe(&Probe::Opened(None)));
    assert!(!scan.observe(&Probe::Failed));
    assert!(scan.observe(&opened("  My Keyboard\n")));
}

#[test]
fn unreadable_nodes_are_counted() {
    let mut scan = DeviceScan::new("kb");
    assert!(scan.wants("event0"));
    assert!(!scan.observe(&Probe::PermissionDenied));
    assert!(!scan.observe(&Probe::PermissionDenied));
    assert_eq!(scan.denied_count(), 2);
    assert_eq!(
        scan.failure(),
        "Device 'kb' not found — 2 input device(s) unreadable due to permissions.\n\
         Fix: sudo usermod -aG input $USER  (then log out and back in)"
    );
}

#[test]
fn keyboard_is_looked_up_by_name_each_time() {
    let cfg = config("", Some("kb"));
    let mut run = Supervisor::new();
    assert!(matches!(run.next(&cfg, RunEvent::Ready), RunAction::Discover(name) if name == "kb"));
    let found = RunEvent::Found(String::from("/dev/input/event5"));
    assert!(
        matches!(run.next(&cfg, found), RunAction::Filter(path) if path == "/dev/input/event5")
    );
    assert!(matches!(
        run.next(&cfg, RunEvent::Disconnected),
        RunAction::Wait(Some(Notice::Disconnected))
    ));
    assert!(matches!(run.next(&cfg, RunEvent::Ready), RunAction::Discover(name) if name == "kb"));
}

#[test]
fn device_path_overrides_the_name() {
    let cfg = config("/dev/input/event10", Some("kb"));
    let mut run = Supervisor::new();
    assert!(
        matches!(run.next(&cfg, RunEvent::Ready), RunAction::Filter(path) if path == "/dev/input/event10")
    );
    let cfg = config("/dev/input/event10", None);
    assert!(
        matches!(run.next(&cfg, RunEvent::Ready), RunAction::Filter(path) if path == "/dev/input/event10")
    );
}

#[test]
fn missing_keyboard_is_told_once() {
    let cfg = config("", Some("kb"));
    let mut run = Supervisor::new();
    assert!(matches!(
        run.next(&cfg, RunEvent::NotFound),
        RunAction::Wait(Some(Notice::NotFound))
    ));
    assert!(matches!(
        run.next(&cfg, RunEvent::NotFound),
        RunAction::Wait(None)
    ));
    run.next(&cfg, RunEvent::Found(String::from("x")));
    assert!(matches!(
        run.next(&cfg, RunEvent::NotFound),
        RunAction::Wait(None)
    ));
}

#[test]
fn fatal_errors_stop() {
    let cfg = config("", Some("kb"));
    let mut run = Supervisor::new();
    assert!(matches!(
        run.next(&cfg, RunEvent::Fatal),
        RunAction::Stop
    ));
}

#[test]
fn notices_in_words() {
    assert_eq!(
        Notice::NotFound.message(),
        "⚠ Device not found. Waiting for connection…"
    );
    assert_eq!(
        Notice::Disconnected.message(),
        "⚠ Device disconnected. Waiting for reconnection…"
    );
}
