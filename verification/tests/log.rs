use keyboard_debouncer::clock::fmt_ts_from;
use keyboard_debouncer::debounce::{EventDecision, HoldTier, Reason};
use keyboard_debouncer::log::{fmt_hold, layout, log_line, mark};

fn micro_release() -> EventDecision {
    EventDecision::Forward {
        reason: Reason::Release {
            hold_us: Some(7_120),
            tier: HoldTier::Micro,
            next_ms: 150,
        },
    }
}

fn micro_chatter() -> EventDecision {
    EventDecision::Suppress {
        reason: Reason::Gap {
            gap_us: 82_000,
            threshold_ms: 150,
            tier: HoldTier::Micro,
        },
    }
}

/// The colour switch belongs to the whole process, so one test goes through
/// both of its positions.
#[test]
fn lines_read_as_documented_plain_and_coloured() {
    colored::control::set_override(false);
    let d = micro_release();
    assert_eq!(
        log_line(&d, false, "05:45:14.773", &d.describe("KEY_K", "7.12")),
        "05:45:14.773  ↑ FORWARD  KEY_K  hold=7.12ms  ⚠ micro hold → next threshold=150ms (micro-extended)"
    );
    let d = micro_chatter();
    assert_eq!(
        log_line(&d, true, "05:45:14.855", &d.describe("KEY_K", "82.00")),
        "05:45:14.855  ↓ SUPPRESS KEY_K  gap=82.00ms < 150ms (micro-extended threshold)  [chatter]"
    );

    colored::control::set_override(true);
    assert_eq!(
        log_line(&micro_release(), true, "12:00:00.000", "KEY_K"),
        "\u{1b}[2m12:00:00.000\u{1b}[0m  \u{1b}[32m↓ FORWARD\u{1b}[0m  KEY_K"
    );
    assert_eq!(
        log_line(&micro_chatter(), false, "12:00:00.000", "KEY_K"),
        "\u{1b}[2m12:00:00.000\u{1b}[0m  \u{1b}[1;31m↑ SUPPRESS\u{1b}[0m KEY_K"
    );
    assert_eq!(
        log_line(&micro_release(), true, "a\u{1b}[0mb", "r"),
        "\u{1b}[2ma\u{1b}[0m\u{1b}[2mb\u{1b}[0m  \u{1b}[32m↓ FORWARD\u{1b}[0m  r"
    );
}

#[test]
fn parts_are_laid_out_as_they_are() {
    assert_eq!(layout(&micro_release(), "t", "m", "r"), "t  m  r");
    assert_eq!(layout(&micro_chatter(), "t", "m", "r"), "t  m r");
    assert_eq!(mark(&micro_release(), true), "↓ FORWARD");
    assert_eq!(mark(&micro_release(), false), "↑ FORWARD");
    assert_eq!(mark(&micro_chatter(), true), "↓ SUPPRESS");
    assert_eq!(mark(&micro_chatter(), false), "↑ SUPPRESS");
}

#[test]
fn reasons_in_words() {
    let forward = |reason: Reason| EventDecision::Forward { reason }.describe("KEY_A", "41.50");
    let suppress = |reason: Reason| EventDecision::Suppress { reason }.describe("KEY_A", "41.50");
    assert_eq!(forward(Reason::AutoRepeat), "KEY_A  (auto-repeat)");
    assert_eq!(
        forward(Reason::FirstPress),
        "KEY_A  (first press, no prior UP recorded)"
    );
    assert_eq!(forward(Reason::Other), "KEY_A");
    let gap = Reason::Gap {
        gap_us: 41_500,
        threshold_ms: 30,
        tier: HoldTier::Normal,
    };
    assert_eq!(forward(gap), "KEY_A  gap=41.50ms ≥ 30ms (normal threshold)");
    assert_eq!(
        suppress(gap),
        "KEY_A  gap=41.50ms < 30ms (normal threshold)  [chatter]"
    );
    assert_eq!(
        suppress(Reason::PairedUp { hold_us: None }),
        "KEY_A  hold=? (paired UP for suppressed DN)"
    );
    assert_eq!(
        forward(Reason::Release {
            hold_us: Some(41_500),
            tier: HoldTier::Short,
            next_ms: 100
        }),
        "KEY_A  hold=41.50ms  ⚠ short hold → next threshold=100ms (extended)"
    );
    assert_eq!(
        forward(Reason::Release {
            hold_us: Some(41_500),
            tier: HoldTier::Normal,
            next_ms: 30
        }),
        "KEY_A  hold=41.50ms"
    );
}

#[test]
fn holds_in_words() {
    assert_eq!(fmt_hold(Some(7_120), "7.12"), "7.12ms");
    assert_eq!(fmt_hold(None, "7.12"), "?");
}

#[test]
fn measured_times_come_from_the_reason() {
    assert_eq!(micro_release().reason().measured_us(), Some(7_120));
    assert_eq!(micro_chatter().reason().measured_us(), Some(82_000));
    assert_eq!(Reason::AutoRepeat.measured_us(), None);
    assert_eq!(Reason::PairedUp { hold_us: Some(3) }.measured_us(), Some(3));
}

#[test]
fn time_of_day_is_padded() {
    assert_eq!(fmt_ts_from(5, 45, 14, 773), "05:45:14.773");
    assert_eq!(fmt_ts_from(0, 0, 0, 0), "00:00:00.000");
    assert_eq!(fmt_ts_from(23, 59, 59, 7), "23:59:59.007");
    assert_eq!(fmt_ts_from(23, 59, 59, 1999), "23:59:59.1999");
}
