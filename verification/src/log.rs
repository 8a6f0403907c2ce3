//! Log lines: what was decided on an event, and why.
use vstd::prelude::*;
use vstd::string::*;

use colored::Colorize;

use crate::debounce::{EventDecision, HoldTier, Reason};
use crate::text::decimal;
use crate::text::decimal_text;

verus! {

/// The name of the window that a press of the given tier arms.
pub open spec fn window_label(tier: HoldTier) -> Seq<char> {
    match tier {
        HoldTier::Micro => "micro-extended"@,
        HoldTier::Short => "extended"@,
        HoldTier::Normal => "normal"@,
    }
}

/// A hold in a log line: `measured` is the hold in milliseconds, written with
/// two decimals.
pub open spec fn hold_text(hold_us: Option<u64>, measured: Seq<char>) -> Seq<char> {
    match hold_us {
        Some(_) => measured + "ms"@,
        None => "?"@,
    }
}

/// A press held against its window.
pub open spec fn gap_text(
    measured: Seq<char>,
    sign: Seq<char>,
    threshold_ms: u64,
    tier: HoldTier,
) -> Seq<char> {
    "  gap="@ + measured + sign + decimal_text(threshold_ms as nat) + "ms ("@ + window_label(tier)
        + " threshold)"@
}

/// What a release says of the next press.
pub open spec fn armed_text(tier: HoldTier, next_ms: u64) -> Seq<char> {
    match tier {
        HoldTier::Micro => "  ⚠ micro hold → next threshold="@ + decimal_text(next_ms as nat)
            + "ms (micro-extended)"@,
        HoldTier::Short => "  ⚠ short hold → next threshold="@ + decimal_text(next_ms as nat)
            + "ms (extended)"@,
        HoldTier::Normal => Seq::empty(),
    }
}

/// The reason for a decision in words. `measured` is the time that the reason
/// holds, in milliseconds with two decimals.
pub open spec fn reason_text(d: EventDecision, key: Seq<char>, measured: Seq<char>) -> Seq<char> {
    match d {
        EventDecision::Forward { reason } => match reason {
            Reason::Gap { threshold_ms, tier, .. } => key + gap_text(
                measured,
                "ms ≥ "@,
                threshold_ms,
                tier,
            ),
            r => plain_reason_text(r, key, measured),
        },
        EventDecision::Suppress { reason } => match reason {
            Reason::Gap { threshold_ms, tier, .. } => key + gap_text(
                measured,
                "ms < "@,
                threshold_ms,
                tier,
            ) + "  [chatter]"@,
            r => plain_reason_text(r, key, measured),
        },
    }
}

/// A reason that reads the same whatever was decided.
pub open spec fn plain_reason_text(
    reason: Reason,
    key: Seq<char>,
    measured: Seq<char>,
) -> Seq<char> {
    match reason {
        Reason::AutoRepeat => key + "  (auto-repeat)"@,
        Reason::FirstPress => key + "  (first press, no prior UP recorded)"@,
        Reason::PairedUp { hold_us } => key + "  hold="@ + hold_text(hold_us, measured)
            + " (paired UP for suppressed DN)"@,
        Reason::Release { hold_us, tier, next_ms } => key + "  hold="@ + hold_text(
            hold_us,
            measured,
        ) + armed_text(tier, next_ms),
        Reason::Gap { .. } => key,
        Reason::Other => key,
    }
}

/// The sequence that ends every style on a terminal.
pub open spec fn reset_code() -> Seq<char> {
    "\u{1b}[0m"@
}

/// The reset sequence stands in `s` at `i`.
pub open spec fn resets_at(s: Seq<char>, i: int) -> bool {
    0 <= i && i + reset_code().len() <= s.len() && s.subrange(i, i + reset_code().len())
        == reset_code()
}

/// `s` with `code` put behind each reset sequence in it, so that the style goes
/// on. `from` is where the search for the next one starts.
pub open spec fn restyled(s: Seq<char>, code: Seq<char>, from: int) -> Seq<char>
    decreases s.len() - from,
{
    if from < 0 || from >= s.len() {
        Seq::empty()
    } else if resets_at(s, from) && reset_code().len() > 0 {
        reset_code() + code + restyled(s, code, from + reset_code().len())
    } else {
        seq![s[from]] + restyled(s, code, from + 1)
    }
}

/// `r` is `s` as shown in the style `code`, or plain where colours are off.
/// Colours can be switched while `s` is being written: then the style may be
/// missing at its front, or behind a reset sequence inside it.
pub open spec fn is_painted(r: Seq<char>, s: Seq<char>, code: Seq<char>) -> bool {
    ||| r == s
    ||| r == code + restyled(s, code, 0) + reset_code()
    ||| r == restyled(s, code, 0) + reset_code()
    ||| r == code + s + reset_code()
    ||| r == s + reset_code()
}

/// Writes `s` dimmed: `colored::Colorize::dimmed`, then the `Display` of its
/// result. Whether colours are on is up to the terminal and the environment.
#[verifier::external_body]
fn paint_dimmed(s: &str) -> (r: String)
    ensures
        is_painted(r@, s@, "\u{1b}[2m"@),
{
    s.dimmed().to_string()
}

/// Writes `s` in green: `colored::Colorize::green`, then the `Display` of its
/// result. Whether colours are on is up to the terminal and the environment.
#[verifier::external_body]
fn paint_green(s: &str) -> (r: String)
    ensures
        is_painted(r@, s@, "\u{1b}[32m"@),
{
    s.green().to_string()
}

/// Writes `s` in bold red: `colored::Colorize::red` and `bold`, then the
/// `Display` of their result. Whether colours are on is up to the terminal and
/// the environment.
#[verifier::external_body]
fn paint_red_bold(s: &str) -> (r: String)
    ensures
        is_painted(r@, s@, "\u{1b}[1;31m"@),
{
    s.red().bold().to_string()
}

/// The mark of a log line: which way the key went and what became of the
/// event.
pub open spec fn mark_text(d: EventDecision, down: bool) -> Seq<char> {
    match d {
        EventDecision::Forward { .. } => if down {
            "↓ FORWARD"@
        } else {
            "↑ FORWARD"@
        },
        EventDecision::Suppress { .. } => if down {
            "↓ SUPPRESS"@
        } else {
            "↑ SUPPRESS"@
        },
    }
}

/// The blanks behind the mark, which align the key names.
pub open spec fn mark_fill(d: EventDecision) -> Seq<char> {
    match d {
        EventDecision::Forward { .. } => "  "@,
        EventDecision::Suppress { .. } => " "@,
    }
}

/// The style of the mark.
pub open spec fn mark_code(d: EventDecision) -> Seq<char> {
    match d {
        EventDecision::Forward { .. } => "\u{1b}[32m"@,
        EventDecision::Suppress { .. } => "\u{1b}[1;31m"@,
    }
}

/// A log line out of its parts.
pub open spec fn line_text(
    d: EventDecision,
    ts: Seq<char>,
    mark: Seq<char>,
    reason: Seq<char>,
) -> Seq<char> {
    ts + "  "@ + mark + mark_fill(d) + reason
}

/// `line` is the log line for the decision `d`: the timestamp dimmed, the mark
/// in its colour, then the reason.
pub open spec fn is_log_line(
    line: Seq<char>,
    d: EventDecision,
    down: bool,
    ts: Seq<char>,
    reason: Seq<char>,
) -> bool {
    exists|shown_ts: Seq<char>, shown_mark: Seq<char>|
        {
            &&& is_painted(shown_ts, ts, "\u{1b}[2m"@)
            &&& is_painted(shown_mark, mark_text(d, down), mark_code(d))
            &&& line == #[trigger] line_text(d, shown_ts, shown_mark, reason)
        }
}

impl HoldTier {
    /// The name of the window that a press of this tier arms.
    pub fn label(self) -> (r: &'static str)
        ensures
            r@ == window_label(self),
    {
        match self {
            HoldTier::Micro => "micro-extended",
            HoldTier::Short => "extended",
            HoldTier::Normal => "normal",
        }
    }
}

/// Writes a hold for a log line: `measured` milliseconds, or a question mark
/// where the press was not seen.
pub fn fmt_hold(hold_us: Option<u64>, measured: &str) -> (r: String)
    ensures
        r@ == hold_text(hold_us, measured@),
{
    match hold_us {
        Some(_) => measured.to_owned().concat("ms"),
        None => "?".to_owned(),
    }
}

fn gap_words(measured: &str, sign: &str, threshold_ms: u64, tier: HoldTier) -> (r: String)
    ensures
        r@ == gap_text(measured@, sign@, threshold_ms, tier),
{
    let number: String = decimal(threshold_ms);
    "  gap=".to_owned().concat(measured).concat(sign).concat(number.as_str()).concat("ms (").concat(
        tier.label(),
    ).concat(" threshold)")
}

fn armed_words(tier: HoldTier, next_ms: u64) -> (r: String)
    ensures
        r@ == armed_text(tier, next_ms),
{
    let number: String = decimal(next_ms);
    match tier {
        HoldTier::Micro => "  ⚠ micro hold → next threshold=".to_owned().concat(
            number.as_str(),
        ).concat("ms (micro-extended)"),
        HoldTier::Short => "  ⚠ short hold → next threshold=".to_owned().concat(
            number.as_str(),
        ).concat("ms (extended)"),
        HoldTier::Normal => String::new(),
    }
}

fn plain_words(reason: Reason, key: &str, measured: &str) -> (r: String)
    ensures
        r@ == plain_reason_text(reason, key@, measured@),
{
    let out: String = key.to_owned();
    match reason {
        Reason::AutoRepeat => out.concat("  (auto-repeat)"),
        Reason::FirstPress => out.concat("  (first press, no prior UP recorded)"),
        Reason::PairedUp { hold_us } => {
            let hold: String = fmt_hold(hold_us, measured);
            out.concat("  hold=").concat(hold.as_str()).concat(" (paired UP for suppressed DN)")
        },
        Reason::Release { hold_us, tier, next_ms } => {
            let hold: String = fmt_hold(hold_us, measured);
            let armed: String = armed_words(tier, next_ms);
            out.concat("  hold=").concat(hold.as_str()).concat(armed.as_str())
        },
        Reason::Gap { .. } => out,
        Reason::Other => out,
    }
}

impl EventDecision {
    /// The reason in words. `key` is the key's name, `measured` the time that
    /// the reason holds, in milliseconds with two decimals.
    pub fn describe(&self, key: &str, measured: &str) -> (r: String)
        ensures
            r@ == reason_text(*self, key@, measured@),
    {
        let reason: Reason = self.reason();
        match reason {
            Reason::Gap { threshold_ms, tier, .. } => {
                let sign: &str = if self.forwards() {
                    "ms ≥ "
                } else {
                    "ms < "
                };
                let gap: String = gap_words(measured, sign, threshold_ms, tier);
                let out: String = key.to_owned().concat(gap.as_str());
                if self.forwards() {
                    out
                } else {
                    out.concat("  [chatter]")
                }
            },
            _ => plain_words(reason, key, measured),
        }
    }
}

/// Puts a log line together out of parts that may already carry a style.
pub fn layout(d: &EventDecision, ts: &str, mark: &str, reason: &str) -> (r: String)
    ensures
        r@ == line_text(*d, ts@, mark@, reason@),
{
    let fill: &str = if d.forwards() {
        "  "
    } else {
        " "
    };
    ts.to_owned().concat("  ").concat(mark).concat(fill).concat(reason)
}

/// The mark of a log line.
pub fn mark(d: &EventDecision, down: bool) -> (r: &'static str)
    ensures
        r@ == mark_text(*d, down),
{
    if d.forwards() {
        if down {
            "↓ FORWARD"
        } else {
            "↑ FORWARD"
        }
    } else {
        if down {
            "↓ SUPPRESS"
        } else {
            "↑ SUPPRESS"
        }
    }
}

/// The log line for a decision: the timestamp dimmed, the mark in green where
/// the event is forwarded and in bold red where it is suppressed, the reason.
pub fn log_line(d: &EventDecision, down: bool, ts: &str, reason: &str) -> (r: String)
    ensures
        is_log_line(r@, *d, down, ts@, reason@),
{
    let shown_ts: String = paint_dimmed(ts);
    let shown_mark: String = if d.forwards() {
        paint_green(mark(d, down))
    } else {
        paint_red_bold(mark(d, down))
    };
    layout(d, shown_ts.as_str(), shown_mark.as_str(), reason)
}

/// The words on a press say how the gap compares with its window: the sign is
/// the one of the decision, the number the one of the window, and only a
/// suppressed press is called chatter.
pub proof fn law_words_on_a_press(
    key: Seq<char>,
    measured: Seq<char>,
    gap_us: u64,
    threshold_ms: u64,
    tier: HoldTier,
)
    ensures
        ({
            let reason = Reason::Gap { gap_us, threshold_ms, tier };
            let window = decimal_text(threshold_ms as nat) + "ms ("@ + match tier {
                HoldTier::Micro => "micro-extended"@,
                HoldTier::Short => "extended"@,
                HoldTier::Normal => "normal"@,
            } + " threshold)"@;
            &&& reason_text(EventDecision::Forward { reason }, key, measured) == key + "  gap="@
                + measured + "ms ≥ "@ + window
            &&& reason_text(EventDecision::Suppress { reason }, key, measured) == key + "  gap="@
                + measured + "ms < "@ + window + "  [chatter]"@
        }),
{
    let reason = Reason::Gap { gap_us, threshold_ms, tier };
    let window = decimal_text(threshold_ms as nat) + "ms ("@ + window_label(tier)
        + " threshold)"@;
    assert(reason_text(EventDecision::Forward { reason }, key, measured) =~= key + "  gap="@
        + measured + "ms ≥ "@ + window);
    assert(reason_text(EventDecision::Suppress { reason }, key, measured) =~= key + "  gap="@
        + measured + "ms < "@ + window + "  [chatter]"@);
}

/// The words on a release tell the hold, or a question mark where there is
/// none, and warn of a longer window for the next press.
pub proof fn law_words_on_a_release(
    key: Seq<char>,
    measured: Seq<char>,
    hold_us: Option<u64>,
    tier: HoldTier,
    next_ms: u64,
)
    ensures
        ({
            let held = key + "  hold="@ + if hold_us is Some {
                measured + "ms"@
            } else {
                "?"@
            };
            let reason = Reason::Release { hold_us, tier, next_ms };
            let text = reason_text(EventDecision::Forward { reason }, key, measured);
            &&& tier is Normal ==> text == held
            &&& tier is Short ==> text == held + "  ⚠ short hold → next threshold="@
                + decimal_text(next_ms as nat) + "ms (extended)"@
            &&& tier is Micro ==> text == held + "  ⚠ micro hold → next threshold="@
                + decimal_text(next_ms as nat) + "ms (micro-extended)"@
            &&& reason_text(
                EventDecision::Suppress { reason: Reason::PairedUp { hold_us } },
                key,
                measured,
            ) == held + " (paired UP for suppressed DN)"@
        }),
{
    let held = key + "  hold="@ + hold_text(hold_us, measured);
    let text = reason_text(
        EventDecision::Forward { reason: Reason::Release { hold_us, tier, next_ms } },
        key,
        measured,
    );
    assert(text == held + armed_text(tier, next_ms));
    let number = decimal_text(next_ms as nat);
    if tier is Normal {
        assert(text =~= held);
    } else if tier is Short {
        assert(text =~= held + "  ⚠ short hold → next threshold="@ + number + "ms (extended)"@);
    } else {
        assert(text =~= held + "  ⚠ micro hold → next threshold="@ + number
            + "ms (micro-extended)"@);
    }
}

/// The words on any other event tell no time.
pub proof fn law_words_without_a_time(key: Seq<char>, measured: Seq<char>)
    ensures
        reason_text(EventDecision::Forward { reason: Reason::AutoRepeat }, key, measured) == key
            + "  (auto-repeat)"@,
        reason_text(EventDecision::Forward { reason: Reason::FirstPress }, key, measured) == key
            + "  (first press, no prior UP recorded)"@,
        reason_text(EventDecision::Forward { reason: Reason::Other }, key, measured) == key,
{
}

/// A log line holds the time of day, then which way the key went and what was
/// decided, then the reason. Forwarded is green, suppressed is bold red, where
/// there are colours.
pub proof fn law_log_line_tells_the_decision(
    line: Seq<char>,
    d: EventDecision,
    down: bool,
    ts: Seq<char>,
    reason: Seq<char>,
)
    requires
        is_log_line(line, d, down, ts, reason),
    ensures
        exists|shown_ts: Seq<char>, shown_mark: Seq<char>|
            {
                &&& #[trigger] is_painted(shown_ts, ts, "\u{1b}[2m"@)
                &&& d is Forward && down ==> is_painted(shown_mark, "↓ FORWARD"@, "\u{1b}[32m"@)
                &&& d is Forward && !down ==> is_painted(shown_mark, "↑ FORWARD"@, "\u{1b}[32m"@)
                &&& d is Suppress && down ==> is_painted(
                    shown_mark,
                    "↓ SUPPRESS"@,
                    "\u{1b}[1;31m"@,
                )
                &&& d is Suppress && !down ==> is_painted(
                    shown_mark,
                    "↑ SUPPRESS"@,
                    "\u{1b}[1;31m"@,
                )
                &&& d is Forward ==> line == #[trigger] (shown_ts + "  "@ + shown_mark) + "  "@
                    + reason
                &&& d is Suppress ==> line == shown_ts + "  "@ + shown_mark + " "@ + reason
            },
{
    let (shown_ts, shown_mark) = choose|shown_ts: Seq<char>, shown_mark: Seq<char>|
        {
            &&& is_painted(shown_ts, ts, "\u{1b}[2m"@)
            &&& is_painted(shown_mark, mark_text(d, down), mark_code(d))
            &&& line == #[trigger] line_text(d, shown_ts, shown_mark, reason)
        };
    assert(is_painted(shown_ts, ts, "\u{1b}[2m"@));
    let head = shown_ts + "  "@ + shown_mark;
    assert(d is Forward ==> line == head + "  "@ + reason);
}

} // verus!
