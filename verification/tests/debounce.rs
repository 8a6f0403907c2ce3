use keyboard_debouncer::config::DebounceConfig;
use keyboard_debouncer::debounce::{
    apply_decision, process_event, Applied, EventDecision, HoldTier, PerKeyState, Reason,
    DEFAULT_EXTENDED_THRESHOLD_MS, DEFAULT_MICRO_EXTENDED_THRESHOLD_MS,
    DEFAULT_MICRO_HOLD_THRESHOLD_MS, DEFAULT_SHORT_HOLD_THRESHOLD_MS, DEFAULT_THRESHOLD_MS,
    VALUE_DOWN, VALUE_REPEAT, VALUE_UP,
};

const MS: u64 = 1_000_000;

fn defaults() -> DebounceConfig {
    DebounceConfig {
        threshold_ms: DEFAULT_THRESHOLD_MS,
        extended_threshold_ms: DEFAULT_EXTENDED_THRESHOLD_MS,
        short_hold_threshold_ms: DEFAULT_SHORT_HOLD_THRESHOLD_MS,
        micro_hold_threshold_ms: DEFAULT_MICRO_HOLD_THRESHOLD_MS,
        micro_extended_threshold_ms: DEFAULT_MICRO_EXTENDED_THRESHOLD_MS,
        log_forward: false,
        debounce_all: false,
    }
}

fn feed(cfg: &DebounceConfig, state: &mut PerKeyState, value: i32, now: u64) -> Applied {
    let decision = process_event(cfg, state, value, now);
    let reason = decision.describe("KEY_K", "0.00");
    apply_decision(cfg, state, decision, value, now, "00:00:00.000", &reason)
}

fn forwards(cfg: &DebounceConfig, state: &mut PerKeyState, value: i32, now: u64) -> bool {
    feed(cfg, state, value, now).forward
}

#[test]
fn defaults_are_as_documented() {
    assert_eq!(DEFAULT_THRESHOLD_MS, 30);
    assert_eq!(DEFAULT_SHORT_HOLD_THRESHOLD_MS, 70);
    assert_eq!(DEFAULT_EXTENDED_THRESHOLD_MS, 100);
    assert_eq!(DEFAULT_MICRO_HOLD_THRESHOLD_MS, 20);
    assert_eq!(DEFAULT_MICRO_EXTENDED_THRESHOLD_MS, 150);
}

#[test]
fn holds_fall_into_tiers() {
    let cfg = defaults();
    assert_eq!(HoldTier::classify(&cfg, 0), HoldTier::Micro);
    assert_eq!(HoldTier::classify(&cfg, 20 * MS - 1), HoldTier::Micro);
    assert_eq!(HoldTier::classify(&cfg, 20 * MS), HoldTier::Short);
    assert_eq!(HoldTier::classify(&cfg, 70 * MS - 1), HoldTier::Short);
    assert_eq!(HoldTier::classify(&cfg, 70 * MS), HoldTier::Normal);
    assert_eq!(HoldTier::classify(&cfg, u64::MAX), HoldTier::Normal);
}

#[test]
fn tiers_arm_their_windows() {
    let cfg = defaults();
    assert_eq!(HoldTier::Micro.window(&cfg), 150);
    assert_eq!(HoldTier::Short.window(&cfg), 100);
    assert_eq!(HoldTier::Normal.window(&cfg), 30);
    assert_eq!(HoldTier::Micro.label(), "micro-extended");
    assert_eq!(HoldTier::Short.label(), "extended");
    assert_eq!(HoldTier::Normal.label(), "normal");
}

#[test]
fn equal_bounds_disable_the_short_tier() {
    let mut cfg = defaults();
    cfg.short_hold_threshold_ms = cfg.micro_hold_threshold_ms;
    assert_eq!(HoldTier::classify(&cfg, 20 * MS - 1), HoldTier::Micro);
    assert_eq!(HoldTier::classify(&cfg, 20 * MS), HoldTier::Normal);
    assert_eq!(HoldTier::classify(&cfg, 59 * MS), HoldTier::Normal);
}

#[test]
fn micro_hold_bounce_is_caught() {
    let cfg = defaults();
    let mut st = PerKeyState::new();
    assert!(forwards(&cfg, &mut st, VALUE_DOWN, 14_766 * MS));
    assert!(forwards(&cfg, &mut st, VALUE_UP, 14_773 * MS));
    assert_eq!(st.active_threshold(&cfg), (150, "micro-extended"));
    assert_eq!(
        process_event(&cfg, &st, VALUE_DOWN, 14_855 * MS),
        EventDecision::Suppress {
            reason: Reason::Gap {
                gap_us: 82_000,
                threshold_ms: 150,
                tier: HoldTier::Micro
            }
        }
    );
    assert!(!forwards(&cfg, &mut st, VALUE_DOWN, 14_855 * MS));
    assert!(!forwards(&cfg, &mut st, VALUE_UP, 14_855 * MS));
    assert_eq!(st.active_threshold(&cfg), (150, "micro-extended"));
    assert!(forwards(&cfg, &mut st, VALUE_DOWN, 15_078 * MS));
}

#[test]
fn medium_hold_bounce_is_caught() {
    let cfg = defaults();
    let mut st = PerKeyState::new();
    assert!(forwards(&cfg, &mut st, VALUE_DOWN, 28_222 * MS));
    assert!(forwards(&cfg, &mut st, VALUE_UP, 28_281 * MS));
    assert_eq!(st.active_threshold(&cfg), (100, "extended"));
    assert!(!forwards(&cfg, &mut st, VALUE_DOWN, 28_351 * MS));
}

#[test]
fn slow_double_letter_passes() {
    let cfg = defaults();
    let mut st = PerKeyState::new();
    assert!(forwards(&cfg, &mut st, VALUE_DOWN, 0));
    assert!(forwards(&cfg, &mut st, VALUE_UP, 80 * MS));
    assert_eq!(st.active_threshold(&cfg), (30, "normal"));
    assert!(forwards(&cfg, &mut st, VALUE_DOWN, 120 * MS));
}

#[test]
fn fast_double_letter_is_suppressed() {
    let cfg = defaults();
    let mut st = PerKeyState::new();
    assert!(forwards(&cfg, &mut st, VALUE_DOWN, 0));
    assert!(forwards(&cfg, &mut st, VALUE_UP, 40 * MS));
    assert!(!forwards(&cfg, &mut st, VALUE_DOWN, 70 * MS));
}

#[test]
fn window_ends_exactly_at_the_threshold() {
    let cfg = defaults();
    let mut st = PerKeyState::new();
    assert!(forwards(&cfg, &mut st, VALUE_DOWN, 0));
    assert!(forwards(&cfg, &mut st, VALUE_UP, 100 * MS));
    assert!(!process_event(&cfg, &st, VALUE_DOWN, 130 * MS - 1).forwards());
    assert!(process_event(&cfg, &st, VALUE_DOWN, 130 * MS).forwards());
}

#[test]
fn gap_is_measured_from_a_suppressed_release_too() {
    let cfg = defaults();
    let mut st = PerKeyState::new();
    assert!(forwards(&cfg, &mut st, VALUE_DOWN, 0));
    assert!(forwards(&cfg, &mut st, VALUE_UP, 100 * MS));
    assert!(!forwards(&cfg, &mut st, VALUE_DOWN, 120 * MS));
    assert!(!forwards(&cfg, &mut st, VALUE_UP, 125 * MS));
    assert!(!forwards(&cfg, &mut st, VALUE_DOWN, 140 * MS));
    assert!(!forwards(&cfg, &mut st, VALUE_UP, 145 * MS));
    assert!(forwards(&cfg, &mut st, VALUE_DOWN, 175 * MS));
}

#[test]
fn chatter_keeps_the_window_armed() {
    let cfg = defaults();
    let mut st = PerKeyState::new();
    assert!(forwards(&cfg, &mut st, VALUE_DOWN, 0));
    assert!(forwards(&cfg, &mut st, VALUE_UP, 7 * MS));
    let mut now = 7 * MS;
    for _ in 0..5 {
        now += 90 * MS;
        assert!(!forwards(&cfg, &mut st, VALUE_DOWN, now));
        now += 80 * MS;
        assert!(!forwards(&cfg, &mut st, VALUE_UP, now));
    }
    assert_eq!(st.active_threshold(&cfg), (150, "micro-extended"));
}

#[test]
fn first_press_is_forwarded() {
    let cfg = defaults();
    let st = PerKeyState::new();
    assert_eq!(
        process_event(&cfg, &st, VALUE_DOWN, 0),
        EventDecision::Forward {
            reason: Reason::FirstPress
        }
    );
}

#[test]
fn release_without_a_press_counts_as_normal() {
    let cfg = defaults();
    let mut st = PerKeyState::new();
    assert_eq!(
        process_event(&cfg, &st, VALUE_UP, 5),
        EventDecision::Forward {
            reason: Reason::Release {
                hold_us: None,
                tier: HoldTier::Normal,
                next_ms: 30
            }
        }
    );
    assert!(forwards(&cfg, &mut st, VALUE_UP, 5));
    assert!(!forwards(&cfg, &mut st, VALUE_DOWN, 6));
}

#[test]
fn auto_repeat_passes_even_while_suppressed() {
    let cfg = defaults();
    let mut st = PerKeyState::new();
    assert!(forwards(&cfg, &mut st, VALUE_DOWN, 0));
    assert!(forwards(&cfg, &mut st, VALUE_UP, 100 * MS));
    assert!(!forwards(&cfg, &mut st, VALUE_DOWN, 110 * MS));
    assert!(forwards(&cfg, &mut st, VALUE_REPEAT, 400 * MS));
    assert!(!forwards(&cfg, &mut st, VALUE_UP, 500 * MS));
}

#[test]
fn other_values_pass() {
    let cfg = defaults();
    let mut st = PerKeyState::new();
    assert_eq!(
        process_event(&cfg, &st, 7, 0),
        EventDecision::Forward {
            reason: Reason::Other
        }
    );
    assert!(forwards(&cfg, &mut st, 7, 0));
}

#[test]
fn clock_that_stands_still_gives_no_gap() {
    let cfg = defaults();
    let mut st = PerKeyState::new();
    assert!(forwards(&cfg, &mut st, VALUE_DOWN, 10 * MS));
    assert!(forwards(&cfg, &mut st, VALUE_UP, 9 * MS));
    assert_eq!(st.active_threshold(&cfg), (150, "micro-extended"));
    assert!(!forwards(&cfg, &mut st, VALUE_DOWN, 8 * MS));
}

#[test]
fn huge_windows_do_not_overflow() {
    let mut cfg = defaults();
    cfg.threshold_ms = u64::MAX;
    let mut st = PerKeyState::new();
    assert!(forwards(&cfg, &mut st, VALUE_DOWN, 0));
    assert!(forwards(&cfg, &mut st, VALUE_UP, 100 * MS));
    assert!(!forwards(&cfg, &mut st, VALUE_DOWN, u64::MAX));
}

#[test]
fn forwarded_lines_wait_for_a_suppressed_event() {
    colored::control::set_override(false);
    let cfg = defaults();
    let mut st = PerKeyState::new();
    assert!(feed(&cfg, &mut st, VALUE_DOWN, 0).lines.is_empty());
    assert!(feed(&cfg, &mut st, VALUE_UP, 100 * MS).lines.is_empty());
    let lines = feed(&cfg, &mut st, VALUE_DOWN, 110 * MS).lines;
    assert_eq!(
        lines,
        vec![
            "00:00:00.000  ↓ FORWARD  KEY_K  (first press, no prior UP recorded)",
            "00:00:00.000  ↑ FORWARD  KEY_K  hold=0.00ms",
            "00:00:00.000  ↓ SUPPRESS KEY_K  gap=0.00ms < 30ms (normal threshold)  [chatter]",
        ]
    );
    let lines = feed(&cfg, &mut st, VALUE_UP, 111 * MS).lines;
    assert_eq!(
        lines,
        vec!["00:00:00.000  ↑ SUPPRESS KEY_K  hold=0.00ms (paired UP for suppressed DN)"]
    );
}

#[test]
fn new_press_forgets_the_old_lines() {
    let cfg = defaults();
    let mut st = PerKeyState::new();
    feed(&cfg, &mut st, VALUE_DOWN, 0);
    feed(&cfg, &mut st, VALUE_REPEAT, 50 * MS);
    feed(&cfg, &mut st, VALUE_UP, 100 * MS);
    feed(&cfg, &mut st, VALUE_DOWN, 200 * MS);
    feed(&cfg, &mut st, VALUE_UP, 300 * MS);
    assert_eq!(feed(&cfg, &mut st, VALUE_DOWN, 310 * MS).lines.len(), 3);
}

#[test]
fn log_forward_prints_at_once() {
    let mut cfg = defaults();
    cfg.log_forward = true;
    let mut st = PerKeyState::new();
    assert_eq!(feed(&cfg, &mut st, VALUE_DOWN, 0).lines.len(), 1);
    assert_eq!(feed(&cfg, &mut st, VALUE_UP, 100 * MS).lines.len(), 1);
    assert_eq!(feed(&cfg, &mut st, VALUE_DOWN, 110 * MS).lines.len(), 1);
}

#[test]
fn longer_windows_suppress_what_shorter_ones_do() {
    let cfg = defaults();
    let mut wider = defaults();
    wider.threshold_ms = 60;
    let mut st = PerKeyState::new();
    forwards(&cfg, &mut st, VALUE_DOWN, 0);
    forwards(&cfg, &mut st, VALUE_UP, 100 * MS);
    assert!(!process_event(&cfg, &st, VALUE_DOWN, 120 * MS).forwards());
    assert!(!process_event(&wider, &st, VALUE_DOWN, 120 * MS).forwards());
    assert!(process_event(&cfg, &st, VALUE_DOWN, 150 * MS).forwards());
    assert!(!process_event(&wider, &st, VALUE_DOWN, 150 * MS).forwards());
}

#[test]
fn base_window_holds_after_every_tier() {
    let cfg = defaults();
    for hold in [7, 50, 90] {
        let mut st = PerKeyState::new();
        assert!(forwards(&cfg, &mut st, VALUE_DOWN, 0));
        assert!(forwards(&cfg, &mut st, VALUE_UP, hold * MS));
        assert!(!forwards(&cfg, &mut st, VALUE_DOWN, (hold + 29) * MS));
        assert!(!forwards(&cfg, &mut st, VALUE_UP, (hold + 35) * MS));
        assert!(forwards(&cfg, &mut st, VALUE_DOWN, (hold + 185) * MS));
    }
}

#[test]
fn base_window_yields_to_a_shorter_armed_one() {
    let mut cfg = defaults();
    cfg.extended_threshold_ms = 10;
    let mut st = PerKeyState::new();
    assert!(forwards(&cfg, &mut st, VALUE_DOWN, 0));
    assert!(forwards(&cfg, &mut st, VALUE_UP, 50 * MS));
    assert!(forwards(&cfg, &mut st, VALUE_DOWN, 70 * MS));
}
