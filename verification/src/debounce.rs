//! Debounce logic of one key: its state and the decision on each event.
//!
//! A time is a number of nanoseconds on a clock that never goes back. Its
//! origin does not matter, only differences do.
use vstd::prelude::*;

use crate::config::DebounceConfig;
use crate::log::is_log_line;
use crate::log::log_line;
use crate::log::window_label;
use crate::text::texts;

verus! {

/// Default debounce window after a normal hold.
pub const DEFAULT_THRESHOLD_MS: u64 = 30;

/// Default debounce window after a short hold.
pub const DEFAULT_EXTENDED_THRESHOLD_MS: u64 = 100;

/// Default bound below which a hold is short.
pub const DEFAULT_SHORT_HOLD_THRESHOLD_MS: u64 = 70;

/// Default bound below which a hold is a ghost contact.
pub const DEFAULT_MICRO_HOLD_THRESHOLD_MS: u64 = 20;

/// Default debounce window after a ghost contact.
pub const DEFAULT_MICRO_EXTENDED_THRESHOLD_MS: u64 = 150;

/// The value of an event for a key that goes up.
pub const VALUE_UP: i32 = 0;

/// The value of an event for a key that goes down.
pub const VALUE_DOWN: i32 = 1;

/// The value of an auto-repeat event.
pub const VALUE_REPEAT: i32 = 2;

/// How long the last forwarded press was held. It selects the window for the
/// next press.
#[derive(Clone, Copy, Debug, PartialEq, Eq, Structural)]
pub enum HoldTier {
    /// A ghost contact: no one holds a key that briefly.
    Micro,
    /// Suspiciously short.
    Short,
    /// A deliberate press, or none yet.
    Normal,
}

/// Nanoseconds in `ms` milliseconds.
pub open spec fn millis(ms: u64) -> int {
    ms * 1_000_000
}

/// Nanoseconds from `since` to `now`; nothing if `since` lies ahead.
pub open spec fn elapsed(since: u64, now: u64) -> u64 {
    if since <= now {
        (now - since) as u64
    } else {
        0
    }
}

/// The tier of a press that was held for `hold` nanoseconds.
pub open spec fn tier_of(cfg: &DebounceConfig, hold: u64) -> HoldTier {
    if hold < millis(cfg.micro_hold_threshold_ms) {
        HoldTier::Micro
    } else if hold < millis(cfg.short_hold_threshold_ms) {
        HoldTier::Short
    } else {
        HoldTier::Normal
    }
}

/// The debounce window, in milliseconds, after a press of the given tier.
pub open spec fn window_ms(cfg: &DebounceConfig, tier: HoldTier) -> u64 {
    match tier {
        HoldTier::Micro => cfg.micro_extended_threshold_ms,
        HoldTier::Short => cfg.extended_threshold_ms,
        HoldTier::Normal => cfg.threshold_ms,
    }
}

/// What is remembered of one key.
pub struct KeyModel {
    /// When the key last went up, forwarded or not.
    pub last_up: Option<u64>,
    /// When the key last went down, forwarded or not.
    pub last_dn_at: Option<u64>,
    /// Inside a suppressed press, whose release is to be swallowed too.
    pub suppressed: bool,
    /// The tier of the last forwarded press.
    pub last_hold_tier: HoldTier,
}

/// A key of which nothing has been seen.
pub open spec fn untouched() -> KeyModel {
    KeyModel {
        last_up: None,
        last_dn_at: None,
        suppressed: false,
        last_hold_tier: HoldTier::Normal,
    }
}

/// How long the key has been down at `now`.
pub open spec fn hold_of(st: KeyModel, now: u64) -> Option<u64> {
    match st.last_dn_at {
        Some(t) => Some(elapsed(t, now)),
        None => None,
    }
}

/// The tier that a release at `now` leaves behind.
pub open spec fn tier_after(cfg: &DebounceConfig, st: KeyModel, now: u64) -> HoldTier {
    match hold_of(st, now) {
        Some(hold) => tier_of(cfg, hold),
        None => HoldTier::Normal,
    }
}

/// Why an event is forwarded or suppressed.
#[derive(Clone, Copy, Debug, PartialEq, Eq)]
pub enum Reason {
    /// An auto-repeat event.
    AutoRepeat,
    /// A press before any release was seen.
    FirstPress,
    /// A press `gap_us` microseconds after the last release, held against the
    /// window of the given tier.
    Gap { gap_us: u64, threshold_ms: u64, tier: HoldTier },
    /// The release of a suppressed press.
    PairedUp { hold_us: Option<u64> },
    /// The release of a forwarded press, which leaves `tier` and the window
    /// `next_ms` behind.
    Release { hold_us: Option<u64>, tier: HoldTier, next_ms: u64 },
    /// An event of another value.
    Other,
}

/// The decision on one event, with the reason for it.
#[derive(Clone, Copy, Debug, PartialEq, Eq)]
pub enum EventDecision {
    Forward { reason: Reason },
    Suppress { reason: Reason },
}

/// The reason for a decision.
pub open spec fn reason_of(d: EventDecision) -> Reason {
    match d {
        EventDecision::Forward { reason } => reason,
        EventDecision::Suppress { reason } => reason,
    }
}

/// The time that a reason holds, in microseconds.
pub open spec fn measured_in(reason: Reason) -> Option<u64> {
    match reason {
        Reason::Gap { gap_us, .. } => Some(gap_us),
        Reason::PairedUp { hold_us } => hold_us,
        Reason::Release { hold_us, .. } => hold_us,
        _ => None,
    }
}

/// Whole microseconds in a number of nanoseconds.
pub open spec fn micros(ns: Option<u64>) -> Option<u64> {
    match ns {
        Some(n) => Some((n / 1000) as u64),
        None => None,
    }
}

/// The press at `now` is chatter: it follows the last release within the
/// window of the last forwarded press.
pub open spec fn is_chatter(cfg: &DebounceConfig, st: KeyModel, now: u64) -> bool {
    st.last_up matches Some(up) && elapsed(up, now) < millis(window_ms(cfg, st.last_hold_tier))
}

/// The decision on an event of a key in state `st`.
pub open spec fn decision(
    cfg: &DebounceConfig,
    st: KeyModel,
    value: i32,
    now: u64,
) -> EventDecision {
    if value == VALUE_REPEAT {
        EventDecision::Forward { reason: Reason::AutoRepeat }
    } else if value == VALUE_DOWN {
        match st.last_up {
            None => EventDecision::Forward { reason: Reason::FirstPress },
            Some(up) => {
                let reason = Reason::Gap {
                    gap_us: (elapsed(up, now) / 1000) as u64,
                    threshold_ms: window_ms(cfg, st.last_hold_tier),
                    tier: st.last_hold_tier,
                };
                if is_chatter(cfg, st, now) {
                    EventDecision::Suppress { reason }
                } else {
                    EventDecision::Forward { reason }
                }
            },
        }
    } else if value == VALUE_UP {
        let hold_us = micros(hold_of(st, now));
        if st.suppressed {
            EventDecision::Suppress { reason: Reason::PairedUp { hold_us } }
        } else {
            let tier = tier_after(cfg, st, now);
            EventDecision::Forward {
                reason: Reason::Release { hold_us, tier, next_ms: window_ms(cfg, tier) },
            }
        }
    } else {
        EventDecision::Forward { reason: Reason::Other }
    }
}

/// What is remembered of the key once its event has been forwarded.
pub open spec fn after_forward(
    cfg: &DebounceConfig,
    st: KeyModel,
    value: i32,
    now: u64,
) -> KeyModel {
    if value == VALUE_DOWN {
        KeyModel { last_dn_at: Some(now), suppressed: false, ..st }
    } else if value == VALUE_UP {
        KeyModel { last_up: Some(now), last_hold_tier: tier_after(cfg, st, now), ..st }
    } else {
        st
    }
}

/// What is remembered of the key once its event has been suppressed.
pub open spec fn after_suppress(st: KeyModel, value: i32, now: u64) -> KeyModel {
    if value == VALUE_DOWN {
        KeyModel { last_dn_at: Some(now), suppressed: true, ..st }
    } else if value == VALUE_UP {
        KeyModel { last_up: Some(now), suppressed: false, ..st }
    } else {
        st
    }
}

/// What is remembered of the key after an event on which `d` was decided.
pub open spec fn after(
    cfg: &DebounceConfig,
    st: KeyModel,
    d: EventDecision,
    value: i32,
    now: u64,
) -> KeyModel {
    match d {
        EventDecision::Forward { .. } => after_forward(cfg, st, value, now),
        EventDecision::Suppress { .. } => after_suppress(st, value, now),
    }
}

/// All mutable debounce state of one key.
pub struct PerKeyState {
    last_up: Option<u64>,
    last_dn_at: Option<u64>,
    suppressed: bool,
    last_hold_tier: HoldTier,
    /// Log lines of forwarded events, kept until a suppressed event gives them
    /// a context.
    pending: Vec<String>,
}

impl View for PerKeyState {
    type V = KeyModel;

    closed spec fn view(&self) -> KeyModel {
        KeyModel {
            last_up: self.last_up,
            last_dn_at: self.last_dn_at,
            suppressed: self.suppressed,
            last_hold_tier: self.last_hold_tier,
        }
    }
}

fn elapsed_ns(since: u64, now: u64) -> (r: u64)
    ensures
        r == elapsed(since, now),
{
    if since <= now {
        now - since
    } else {
        0
    }
}

/// Whether `ns` nanoseconds are less than `ms` milliseconds.
fn below(ns: u64, ms: u64) -> (r: bool)
    ensures
        r == (ns < millis(ms)),
{
    (ns as u128) < (ms as u128) * 1_000_000
}

fn to_micros(ns: Option<u64>) -> (r: Option<u64>)
    ensures
        r == micros(ns),
{
    match ns {
        Some(n) => Some(n / 1000),
        None => None,
    }
}

impl HoldTier {
    /// Classifies a press that was held for `hold` nanoseconds.
    pub fn classify(cfg: &DebounceConfig, hold: u64) -> (r: HoldTier)
        ensures
            r == tier_of(cfg, hold),
            r is Micro <==> hold < cfg.micro_hold_threshold_ms * 1_000_000,
            r is Normal <==> hold >= cfg.micro_hold_threshold_ms * 1_000_000 && hold
                >= cfg.short_hold_threshold_ms * 1_000_000,
    {
        if below(hold, cfg.micro_hold_threshold_ms) {
            HoldTier::Micro
        } else if below(hold, cfg.short_hold_threshold_ms) {
            HoldTier::Short
        } else {
            HoldTier::Normal
        }
    }

    /// The debounce window, in milliseconds, that a press of this tier arms.
    pub fn window(self, cfg: &DebounceConfig) -> (r: u64)
        ensures
            r == window_ms(cfg, self),
            self is Micro ==> r == cfg.micro_extended_threshold_ms,
            self is Short ==> r == cfg.extended_threshold_ms,
            self is Normal ==> r == cfg.threshold_ms,
    {
        match self {
            HoldTier::Micro => cfg.micro_extended_threshold_ms,
            HoldTier::Short => cfg.extended_threshold_ms,
            HoldTier::Normal => cfg.threshold_ms,
        }
    }
}

impl PerKeyState {
    /// The log lines that wait for a context.
    pub closed spec fn pending_lines(&self) -> Seq<Seq<char>> {
        texts(self.pending@)
    }

    pub fn new() -> (r: Self)
        ensures
            r@ == untouched(),
            r@.last_up is None,
            r@.last_dn_at is None,
            !r@.suppressed,
            r@.last_hold_tier is Normal,
            r.pending_lines() == Seq::<Seq<char>>::empty(),
    {
        PerKeyState {
            last_up: None,
            last_dn_at: None,
            suppressed: false,
            last_hold_tier: HoldTier::Normal,
            pending: Vec::new(),
        }
    }

    /// The window for the next press, in milliseconds, with its name.
    pub fn active_threshold(&self, cfg: &DebounceConfig) -> (r: (u64, &'static str))
        ensures
            r.0 == window_ms(cfg, self@.last_hold_tier),
            r.1@ == window_label(self@.last_hold_tier),
            self@.last_hold_tier is Micro ==> r.0 == cfg.micro_extended_threshold_ms && r.1@
                == "micro-extended"@,
            self@.last_hold_tier is Short ==> r.0 == cfg.extended_threshold_ms && r.1@
                == "extended"@,
            self@.last_hold_tier is Normal ==> r.0 == cfg.threshold_ms && r.1@ == "normal"@,
    {
        (self.last_hold_tier.window(cfg), self.last_hold_tier.label())
    }

    /// Hands out all pending log lines, oldest first, and forgets them.
    fn flush_pending(&mut self) -> (r: Vec<String>)
        ensures
            texts(r@) == old(self).pending_lines(),
            final(self).pending_lines() == Seq::<Seq<char>>::empty(),
            final(self)@ == old(self)@,
    {
        let mut lines: Vec<String> = Vec::new();
        std::mem::swap(&mut lines, &mut self.pending);
        assert(texts(self.pending@) =~= Seq::<Seq<char>>::empty());
        lines
    }

    /// How long the key has been down at `now`, in nanoseconds.
    fn hold(&self, now: u64) -> (r: Option<u64>)
        ensures
            r == hold_of(self@, now),
    {
        match self.last_dn_at {
            Some(t) => Some(elapsed_ns(t, now)),
            None => None,
        }
    }

    /// The tier that a release at `now` leaves behind.
    fn tier_at_release(&self, cfg: &DebounceConfig, now: u64) -> (r: HoldTier)
        ensures
            r == tier_after(cfg, self@, now),
    {
        match self.hold(now) {
            Some(hold) => HoldTier::classify(cfg, hold),
            None => HoldTier::Normal,
        }
    }
}

impl EventDecision {
    /// Whether the event goes on to the programs that read the keyboard.
    pub fn forwards(&self) -> (r: bool)
        ensures
            r == (*self is Forward),
    {
        match self {
            EventDecision::Forward { .. } => true,
            EventDecision::Suppress { .. } => false,
        }
    }

    /// The reason for the decision.
    pub fn reason(&self) -> (r: Reason)
        ensures
            r == reason_of(*self),
    {
        match self {
            EventDecision::Forward { reason } => *reason,
            EventDecision::Suppress { reason } => *reason,
        }
    }
}

impl Reason {
    /// The time that the reason holds, in microseconds.
    pub fn measured_us(&self) -> (r: Option<u64>)
        ensures
            r == measured_in(*self),
    {
        match self {
            Reason::Gap { gap_us, .. } => Some(*gap_us),
            Reason::PairedUp { hold_us } => *hold_us,
            Reason::Release { hold_us, .. } => *hold_us,
            _ => None,
        }
    }
}

/// Decides whether an event is forwarded or suppressed. The state is only
/// read: `apply_decision` updates it.
pub fn process_event(
    cfg: &DebounceConfig,
    state: &PerKeyState,
    value: i32,
    now: u64,
) -> (r: EventDecision)
    ensures
        r == decision(cfg, state@, value, now),
        value != 0 && value != 1 ==> r is Forward,
        value == 0 ==> (r is Suppress <==> state@.suppressed),
        value == 1 && state@.last_up is None ==> r is Forward,
{
    if value == VALUE_REPEAT {
        EventDecision::Forward { reason: Reason::AutoRepeat }
    } else if value == VALUE_DOWN {
        match state.last_up {
            None => EventDecision::Forward { reason: Reason::FirstPress },
            Some(up) => {
                let gap: u64 = elapsed_ns(up, now);
                let (threshold_ms, _) = state.active_threshold(cfg);
                let reason: Reason = Reason::Gap {
                    gap_us: gap / 1000,
                    threshold_ms,
                    tier: state.last_hold_tier,
                };
                if below(gap, threshold_ms) {
                    EventDecision::Suppress { reason }
                } else {
                    EventDecision::Forward { reason }
                }
            },
        }
    } else if value == VALUE_UP {
        let hold_us: Option<u64> = to_micros(state.hold(now));
        if state.suppressed {
            EventDecision::Suppress { reason: Reason::PairedUp { hold_us } }
        } else {
            let tier: HoldTier = state.tier_at_release(cfg, now);
            let next_ms: u64 = tier.window(cfg);
            EventDecision::Forward { reason: Reason::Release { hold_us, tier, next_ms } }
        }
    } else {
        EventDecision::Forward { reason: Reason::Other }
    }
}

/// What an applied decision asks of the caller.
pub struct Applied {
    /// Send the event on.
    pub forward: bool,
    /// Log lines to print now, in order.
    pub lines: Vec<String>,
}

/// The pending log lines that a new forwarded line joins: a new press starts
/// over.
pub open spec fn context_for(pending: Seq<Seq<char>>, value: i32) -> Seq<Seq<char>> {
    if value == VALUE_DOWN {
        Seq::empty()
    } else {
        pending
    }
}

/// What becomes of the log lines: `before` and `later` are the pending lines
/// before and after the decision, `printed` is what is printed.
pub open spec fn logs_as_decided(
    d: EventDecision,
    value: i32,
    ts: Seq<char>,
    reason: Seq<char>,
    log_forward: bool,
    before: Seq<Seq<char>>,
    later: Seq<Seq<char>>,
    printed: Seq<Seq<char>>,
) -> bool {
    let down = value == VALUE_DOWN;
    match d {
        EventDecision::Forward { .. } => {
            let context = context_for(before, value);
            if log_forward {
                &&& later == context
                &&& printed.len() == 1
                &&& is_log_line(printed[0], d, down, ts, reason)
            } else {
                &&& printed.len() == 0
                &&& later.len() == context.len() + 1
                &&& later.drop_last() == context
                &&& is_log_line(later.last(), d, down, ts, reason)
            }
        },
        EventDecision::Suppress { .. } => {
            &&& later.len() == 0
            &&& printed.len() == before.len() + 1
            &&& printed.drop_last() == before
            &&& is_log_line(printed.last(), d, down, ts, reason)
        },
    }
}

/// Applies the decision on an event: updates the state and says what to log.
/// `reason` is the reason in words.
///
/// The line of a forwarded event is printed at once with `log_forward`.
/// Without it the line is kept, and printed before the next suppressed event.
pub fn apply_decision(
    cfg: &DebounceConfig,
    state: &mut PerKeyState,
    decision: EventDecision,
    value: i32,
    now: u64,
    ts: &str,
    reason: &str,
) -> (r: Applied)
    ensures
        final(state)@ == after(cfg, old(state)@, decision, value, now),
        r.forward == (decision is Forward),
        logs_as_decided(
            decision,
            value,
            ts@,
            reason@,
            cfg.log_forward,
            old(state).pending_lines(),
            final(state).pending_lines(),
            texts(r.lines@),
        ),
{
    let line: String = log_line(&decision, value == VALUE_DOWN, ts, reason);
    if decision.forwards() {
        if value == VALUE_DOWN {
            state.last_dn_at = Some(now);
            state.suppressed = false;
            state.pending.clear();
        } else if value == VALUE_UP {
            state.last_hold_tier = state.tier_at_release(cfg, now);
            state.last_up = Some(now);
        }
        assert(texts(state.pending@) =~= context_for(old(state).pending_lines(), value));
        let mut lines: Vec<String> = Vec::new();
        if cfg.log_forward {
            lines.push(line);
        } else {
            let ghost context = state.pending@;
            state.pending.push(line);
            assert(texts(state.pending@).drop_last() =~= texts(context));
        }
        Applied { forward: true, lines }
    } else {
        let mut lines: Vec<String> = state.flush_pending();
        let ghost context = lines@;
        lines.push(line);
        assert(texts(lines@).drop_last() =~= texts(context));
        if value == VALUE_DOWN {
            state.suppressed = true;
            state.last_dn_at = Some(now);
        } else if value == VALUE_UP {
            state.suppressed = false;
            state.last_up = Some(now);
        }
        Applied { forward: false, lines }
    }
}

} // verus!
