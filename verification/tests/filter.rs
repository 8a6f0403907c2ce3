use keyboard_debouncer::config::DebounceConfig;
use keyboard_debouncer::filter::{Filter, KeyEvent, Seen};
use keyboard_debouncer::keys::is_modifier;

const MS: u64 = 1_000_000;
const KEY_E: u16 = 18;
const KEY_K: u16 = 37;

fn config(debounce_all: bool) -> DebounceConfig {
    DebounceConfig {
        threshold_ms: 30,
        extended_threshold_ms: 100,
        short_hold_threshold_ms: 70,
        micro_hold_threshold_ms: 20,
        micro_extended_threshold_ms: 150,
        log_forward: false,
        debounce_all,
    }
}

fn key(code: u16, value: i32) -> KeyEvent {
    KeyEvent {
        key: Some(code),
        value,
    }
}

fn passes(filter: &mut Filter, event: KeyEvent, now: u64) -> bool {
    filter.handle(event, now, "00:00:00.000", "0.00").forward
}

#[test]
fn listed_keys_are_debounced() {
    let mut filter = Filter::new(vec![KEY_K], config(false));
    assert!(passes(&mut filter, key(KEY_K, 1), 0));
    assert!(passes(&mut filter, key(KEY_K, 0), 100 * MS));
    assert!(!passes(&mut filter, key(KEY_K, 1), 110 * MS));
    assert!(!passes(&mut filter, key(KEY_K, 0), 111 * MS));
}

#[test]
fn unlisted_keys_pass_untouched() {
    let mut filter = Filter::new(vec![KEY_K], config(false));
    for now in [0, 1, 2, 3, 4, 5] {
        let outcome = filter.handle(key(KEY_E, (now % 2) as i32), now, "", "");
        assert!(outcome.forward);
        assert!(outcome.lines.is_empty());
    }
}

#[test]
fn every_key_event_is_recorded() {
    let mut filter = Filter::new(vec![KEY_K], config(false));
    assert_eq!(
        filter.handle(key(KEY_E, 2), 0, "", "").seen,
        Some(Seen {
            key: KEY_E,
            value: 2,
            suppressed: false
        })
    );
    filter.handle(key(KEY_K, 1), 0, "", "");
    filter.handle(key(KEY_K, 0), 7 * MS, "", "");
    assert_eq!(
        filter.handle(key(KEY_K, 1), 89 * MS, "", "").seen,
        Some(Seen {
            key: KEY_K,
            value: 1,
            suppressed: true
        })
    );
}

#[test]
fn other_events_pass_and_are_not_recorded() {
    let mut filter = Filter::new(vec![KEY_K], config(true));
    let event = KeyEvent {
        key: None,
        value: 1,
    };
    for now in 0..3 {
        let outcome = filter.handle(event, now, "", "");
        assert!(outcome.forward);
        assert!(outcome.lines.is_empty());
        assert_eq!(outcome.seen, None);
    }
    assert_eq!(filter.measure(event, 0), None);
}

#[test]
fn keys_are_independent() {
    let mut filter = Filter::new(vec![KEY_K, KEY_E], config(false));
    assert!(passes(&mut filter, key(KEY_K, 1), 0));
    assert!(passes(&mut filter, key(KEY_K, 0), 7 * MS));
    assert!(passes(&mut filter, key(KEY_E, 1), 8 * MS));
    assert!(passes(&mut filter, key(KEY_E, 0), 108 * MS));
    assert!(!passes(&mut filter, key(KEY_K, 1), 140 * MS));
    assert!(passes(&mut filter, key(KEY_E, 1), 140 * MS));
}

#[test]
fn all_keys_but_the_modifiers() {
    let mut filter = Filter::new(vec![KEY_K], config(true));
    let shift = evdev::Key::KEY_LEFTSHIFT.code();
    for code in [KEY_E, KEY_K] {
        assert!(passes(&mut filter, key(code, 1), 0));
        assert!(passes(&mut filter, key(code, 0), 7 * MS));
        assert!(!passes(&mut filter, key(code, 1), 20 * MS));
    }
    assert!(passes(&mut filter, key(shift, 1), 0));
    assert!(passes(&mut filter, key(shift, 0), 7 * MS));
    assert!(passes(&mut filter, key(shift, 1), 8 * MS));
}

#[test]
fn listed_modifier_is_debounced_without_all_keys() {
    let shift = evdev::Key::KEY_LEFTSHIFT.code();
    let filter = Filter::new(vec![shift], config(false));
    assert!(filter.targets(shift));
    assert!(!filter.targets(KEY_K));
    let filter = Filter::new(vec![shift], config(true));
    assert!(!filter.targets(shift));
    assert!(filter.targets(KEY_K));
}

#[test]
fn modifiers_by_their_names() {
    for modifier in [
        evdev::Key::KEY_LEFTSHIFT,
        evdev::Key::KEY_RIGHTSHIFT,
        evdev::Key::KEY_LEFTCTRL,
        evdev::Key::KEY_RIGHTCTRL,
        evdev::Key::KEY_LEFTALT,
        evdev::Key::KEY_RIGHTALT,
        evdev::Key::KEY_LEFTMETA,
        evdev::Key::KEY_RIGHTMETA,
        evdev::Key::KEY_CAPSLOCK,
        evdev::Key::KEY_NUMLOCK,
        evdev::Key::KEY_SCROLLLOCK,
    ] {
        assert!(is_modifier(modifier.code()));
    }
    assert!(!is_modifier(evdev::Key::KEY_A.code()));
    assert!(!is_modifier(evdev::Key::KEY_ENTER.code()));
    assert!(!is_modifier(evdev::Key::KEY_SPACE.code()));
}

#[test]
fn measured_time_is_that_of_the_log_line() {
    let mut filter = Filter::new(vec![KEY_K], config(false));
    assert_eq!(filter.measure(key(KEY_K, 1), 0), None);
    assert_eq!(filter.measure(key(KEY_E, 1), 0), None);
    filter.handle(key(KEY_K, 1), 0, "", "");
    assert_eq!(filter.measure(key(KEY_K, 0), 7_120_999), Some(7_120));
    filter.handle(key(KEY_K, 0), 7 * MS, "", "7.12");
    assert_eq!(filter.measure(key(KEY_K, 1), 89 * MS), Some(82_000));
    assert_eq!(filter.measure(key(KEY_K, 2), 89 * MS), None);
}

#[test]
fn log_lines_name_the_key() {
    colored::control::set_override(false);
    let mut filter = Filter::new(vec![KEY_K], config(false));
    filter.handle(key(KEY_K, 1), 0, "05:45:14.766", "");
    filter.handle(key(KEY_K, 0), 7 * MS, "05:45:14.773", "7.12");
    let lines = filter
        .handle(key(KEY_K, 1), 89 * MS, "05:45:14.855", "82.00")
        .lines;
    assert_eq!(
        lines,
        vec![
            "05:45:14.766  ↓ FORWARD  KEY_K  (first press, no prior UP recorded)",
            "05:45:14.773  ↑ FORWARD  KEY_K  hold=7.12ms  ⚠ micro hold → next threshold=150ms (micro-extended)",
            "05:45:14.855  ↓ SUPPRESS KEY_K  gap=82.00ms < 150ms (micro-extended threshold)  [chatter]",
        ]
    );
}

#[test]
fn forwarded_presses_are_released() {
    let mut filter = Filter::new(vec![KEY_K], config(false));
    let mut value = 1;
    let mut expected = 1;
    let mut now = 0;
    for gap in [5, 9, 80, 31, 7, 200, 12, 160, 3, 40, 90, 101] {
        now += gap * MS;
        if passes(&mut filter, key(KEY_K, value), now) {
            assert_eq!(value, expected);
            expected = 1 - expected;
        }
        value = 1 - value;
    }
    assert_eq!(expected, 1);
}

#[test]
fn gap_and_hold_make_up_the_interval() {
    let mut filter = Filter::new(vec![KEY_K], config(false));
    filter.handle(key(KEY_K, 1), 0, "", "");
    let hold = filter.measure(key(KEY_K, 0), 80 * MS).unwrap();
    filter.handle(key(KEY_K, 0), 80 * MS, "", "80.00");
    let gap = filter.measure(key(KEY_K, 1), 120 * MS).unwrap();
    assert_eq!((hold, gap), (80_000, 40_000));
    assert_eq!(hold + gap, 120_000);
}

#[test]
fn other_keys_do_not_disturb_what_is_sent() {
    let strokes = [(1, 0), (0, 7), (1, 60), (0, 70), (1, 230), (2, 300), (0, 400), (1, 410)];
    let mut alone = Filter::new(vec![KEY_K, KEY_E], config(false));
    let mut busy = Filter::new(vec![KEY_K, KEY_E], config(false));
    for (value, ms) in strokes {
        passes(&mut busy, key(KEY_E, 1 - value % 2), ms * MS);
        assert_eq!(
            passes(&mut alone, key(KEY_K, value), ms * MS),
            passes(&mut busy, key(KEY_K, value), ms * MS)
        );
        passes(&mut busy, key(1, value), ms * MS);
    }
}
