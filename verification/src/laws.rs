//! What holds of the filter over any number of events.
use vstd::prelude::*;

use crate::config::DebounceConfig;
use crate::debounce::{after, decision, elapsed, is_chatter, logs_as_decided, millis, tier_of};
use crate::debounce::{measured_in, reason_of, untouched, window_ms};
use crate::debounce::{EventDecision, HoldTier, KeyModel, Reason};
use crate::debounce::{VALUE_DOWN, VALUE_REPEAT, VALUE_UP};
use crate::filter::is_target;
use crate::filter::{Filter, KeyEvent};
use crate::keys::is_modifier_code;
use crate::log::is_log_line;

verus! {

/// An event of one key: its value and the time at which it arrives.
pub struct Stroke {
    pub value: i32,
    pub now: u64,
}

/// What is remembered of the key after one event.
pub open spec fn state_after_one(cfg: &DebounceConfig, st: KeyModel, s: Stroke) -> KeyModel {
    after(cfg, st, decision(cfg, st, s.value, s.now), s.value, s.now)
}

/// What is remembered of the key after all the events.
pub open spec fn state_after(
    cfg: &DebounceConfig,
    st: KeyModel,
    strokes: Seq<Stroke>,
) -> KeyModel
    decreases strokes.len(),
{
    if strokes.len() == 0 {
        st
    } else {
        state_after_one(cfg, state_after(cfg, st, strokes.drop_last()), strokes.last())
    }
}

/// The last of the events is forwarded.
pub open spec fn forwards_last(cfg: &DebounceConfig, st: KeyModel, strokes: Seq<Stroke>) -> bool {
    decision(
        cfg,
        state_after(cfg, st, strokes.drop_last()),
        strokes.last().value,
        strokes.last().now,
    ) is Forward
}

/// The event is a press or a release.
pub open spec fn is_edge(s: Stroke) -> bool {
    s.value == 1 || s.value == 0
}

/// The presses and releases among the events.
pub open spec fn edges(strokes: Seq<Stroke>) -> Seq<i32>
    decreases strokes.len(),
{
    if strokes.len() == 0 {
        Seq::empty()
    } else if is_edge(strokes.last()) {
        edges(strokes.drop_last()).push(strokes.last().value)
    } else {
        edges(strokes.drop_last())
    }
}

/// The events that are forwarded.
pub open spec fn forwarded(
    cfg: &DebounceConfig,
    st: KeyModel,
    strokes: Seq<Stroke>,
) -> Seq<Stroke>
    decreases strokes.len(),
{
    if strokes.len() == 0 {
        Seq::empty()
    } else {
        let before = forwarded(cfg, st, strokes.drop_last());
        if forwards_last(cfg, st, strokes) {
            before.push(strokes.last())
        } else {
            before
        }
    }
}

/// A press, its release, a press, its release, and so on.
pub open spec fn alternates(values: Seq<i32>) -> bool {
    forall|i: int|
        0 <= i < values.len() ==> #[trigger] values[i] == if i % 2 == 0 {
            VALUE_DOWN
        } else {
            VALUE_UP
        }
}

proof fn lemma_pairs(cfg: &DebounceConfig, strokes: Seq<Stroke>)
    requires
        alternates(edges(strokes)),
    ensures
        alternates(edges(forwarded(cfg, untouched(), strokes))),
        edges(strokes).len() % 2 == 0 ==> {
            &&& edges(forwarded(cfg, untouched(), strokes)).len() % 2 == 0
            &&& !state_after(cfg, untouched(), strokes).suppressed
        },
        edges(strokes).len() % 2 == 1 ==> state_after(cfg, untouched(), strokes).suppressed == (
        edges(forwarded(cfg, untouched(), strokes)).len() % 2 == 0),
    decreases strokes.len(),
{
    if strokes.len() > 0 {
        let front = strokes.drop_last();
        let e = edges(front);
        if is_edge(strokes.last()) {
            assert forall|i: int| 0 <= i < e.len() implies #[trigger] e[i] == if i % 2 == 0 {
                VALUE_DOWN
            } else {
                VALUE_UP
            } by {
                assert(edges(strokes)[i] == e[i]);
            }
            assert(edges(strokes)[e.len() as int] == strokes.last().value);
        }
        lemma_pairs(cfg, front);
        let sent = forwarded(cfg, untouched(), front);
        assert(sent.push(strokes.last()).drop_last() =~= sent);
    }
}

/// Programs see whole key strokes. Where the keyboard sends presses and
/// releases in turn, so does the filter: no release without its press, and
/// no press that is left hanging once the key is up.
pub proof fn law_forwarded_presses_are_released(cfg: &DebounceConfig, strokes: Seq<Stroke>)
    requires
        alternates(edges(strokes)),
    ensures
        alternates(edges(forwarded(cfg, untouched(), strokes))),
        edges(strokes).len() % 2 == 0 ==> edges(forwarded(cfg, untouched(), strokes)).len() % 2
            == 0,
{
    lemma_pairs(cfg, strokes);
}

/// A press and its release share their fate, whatever auto-repeat comes in
/// between: the release is suppressed if and only if the press was.
pub proof fn law_release_follows_its_press(
    cfg: &DebounceConfig,
    st: KeyModel,
    down: u64,
    repeats: Seq<Stroke>,
    up: u64,
)
    requires
        forall|i: int|
            0 <= i < repeats.len() ==> (#[trigger] repeats[i]).value == VALUE_REPEAT,
    ensures
        ({
            let press = Stroke { value: VALUE_DOWN, now: down };
            let held = state_after(cfg, state_after_one(cfg, st, press), repeats);
            decision(cfg, held, VALUE_UP, up) is Suppress <==> decision(
                cfg,
                st,
                VALUE_DOWN,
                down,
            ) is Suppress
        }),
{
    let pressed = state_after_one(cfg, st, Stroke { value: VALUE_DOWN, now: down });
    lemma_repeats_change_nothing(cfg, pressed, repeats);
}

proof fn lemma_repeats_change_nothing(
    cfg: &DebounceConfig,
    st: KeyModel,
    repeats: Seq<Stroke>,
)
    requires
        forall|i: int|
            0 <= i < repeats.len() ==> (#[trigger] repeats[i]).value == VALUE_REPEAT,
    ensures
        state_after(cfg, st, repeats) == st,
    decreases repeats.len(),
{
    if repeats.len() > 0 {
        assert forall|i: int| 0 <= i < repeats.drop_last().len() implies (
        #[trigger] repeats.drop_last()[i]).value == VALUE_REPEAT by {
            assert(repeats.drop_last()[i] == repeats[i]);
        }
        lemma_repeats_change_nothing(cfg, st, repeats.drop_last());
    }
}

/// Auto-repeat is always forwarded and leaves the state of the key alone.
pub proof fn law_auto_repeat_passes(cfg: &DebounceConfig, st: KeyModel, now: u64)
    ensures
        decision(cfg, st, VALUE_REPEAT, now) is Forward,
        state_after_one(cfg, st, Stroke { value: VALUE_REPEAT, now }) == st,
{
}

/// When the key last went up, by the events alone.
pub open spec fn last_release(strokes: Seq<Stroke>) -> Option<u64>
    decreases strokes.len(),
{
    if strokes.len() == 0 {
        None
    } else if strokes.last().value == 0 {
        Some(strokes.last().now)
    } else {
        last_release(strokes.drop_last())
    }
}

/// The gap before a press is measured from the last physical release, whether
/// that release was forwarded or not.
pub proof fn law_gap_starts_at_last_release(cfg: &DebounceConfig, strokes: Seq<Stroke>)
    ensures
        state_after(cfg, untouched(), strokes).last_up == last_release(strokes),
    decreases strokes.len(),
{
    if strokes.len() > 0 {
        law_gap_starts_at_last_release(cfg, strokes.drop_last());
    }
}

/// A press is forwarded as long as the key has not gone up since the start.
pub proof fn law_first_press_passes(cfg: &DebounceConfig, strokes: Seq<Stroke>, now: u64)
    requires
        last_release(strokes) is None,
    ensures
        decision(cfg, state_after(cfg, untouched(), strokes), VALUE_DOWN, now) is Forward,
{
    law_gap_starts_at_last_release(cfg, strokes);
}

/// The tier is that of the last forwarded press: no event but a forwarded
/// release changes it.
pub proof fn law_tier_changes_on_forwarded_release_only(
    cfg: &DebounceConfig,
    st: KeyModel,
    s: Stroke,
)
    ensures
        !(s.value == VALUE_UP && decision(cfg, st, s.value, s.now) is Forward)
            ==> state_after_one(cfg, st, s).last_hold_tier == st.last_hold_tier,
{
}

/// None of the events is forwarded.
pub open spec fn all_suppressed(cfg: &DebounceConfig, st: KeyModel, strokes: Seq<Stroke>) -> bool
    decreases strokes.len(),
{
    strokes.len() > 0 ==> all_suppressed(cfg, st, strokes.drop_last()) && !forwards_last(
        cfg,
        st,
        strokes,
    )
}

/// A cluster of chatter does not disarm the window: however many events of it
/// are suppressed, the next press is held against the same window.
pub proof fn law_chatter_keeps_the_window(
    cfg: &DebounceConfig,
    st: KeyModel,
    strokes: Seq<Stroke>,
)
    requires
        all_suppressed(cfg, st, strokes),
    ensures
        state_after(cfg, st, strokes).last_hold_tier == st.last_hold_tier,
        window_ms(cfg, state_after(cfg, st, strokes).last_hold_tier) == window_ms(
            cfg,
            st.last_hold_tier,
        ),
    decreases strokes.len(),
{
    if strokes.len() > 0 {
        law_chatter_keeps_the_window(cfg, st, strokes.drop_last());
    }
}

/// A press within the base window of the last release is suppressed, whatever
/// came before, unless the last forwarded press armed a window that is
/// shorter than the base window.
pub proof fn law_base_window_holds(cfg: &DebounceConfig, strokes: Seq<Stroke>, now: u64)
    requires
        last_release(strokes) is Some,
        elapsed(last_release(strokes)->0, now) < millis(cfg.threshold_ms),
        cfg.threshold_ms <= window_ms(
            cfg,
            state_after(cfg, untouched(), strokes).last_hold_tier,
        ),
    ensures
        decision(cfg, state_after(cfg, untouched(), strokes), VALUE_DOWN, now) is Suppress,
{
    law_gap_starts_at_last_release(cfg, strokes);
}

/// No key is locked out: a press that comes after every window has run out is
/// forwarded, whatever came before.
pub proof fn law_late_press_passes(cfg: &DebounceConfig, strokes: Seq<Stroke>, now: u64)
    requires
        last_release(strokes) is Some,
        elapsed(last_release(strokes)->0, now) >= millis(cfg.threshold_ms),
        elapsed(last_release(strokes)->0, now) >= millis(cfg.extended_threshold_ms),
        elapsed(last_release(strokes)->0, now) >= millis(cfg.micro_extended_threshold_ms),
    ensures
        decision(cfg, state_after(cfg, untouched(), strokes), VALUE_DOWN, now) is Forward,
{
    law_gap_starts_at_last_release(cfg, strokes);
}

/// A press that is held for `hold` nanoseconds arms the window of its tier for
/// the next press, where both it and its release are forwarded.
pub proof fn law_hold_arms_its_window(
    cfg: &DebounceConfig,
    st: KeyModel,
    down: u64,
    hold: u64,
    next: u64,
)
    requires
        decision(cfg, st, VALUE_DOWN, down) is Forward,
        down + hold <= u64::MAX,
    ensures
        ({
            let pressed = state_after_one(cfg, st, Stroke { value: VALUE_DOWN, now: down });
            let up = (down + hold) as u64;
            let released = state_after_one(cfg, pressed, Stroke { value: VALUE_UP, now: up });
            &&& released.last_hold_tier == tier_of(cfg, hold)
            &&& decision(cfg, released, VALUE_DOWN, next) is Suppress <==> elapsed(up, next)
                < millis(window_ms(cfg, tier_of(cfg, hold)))
        }),
{
}

/// Where the bound of the short tier is not above that of the micro tier,
/// there is no short tier.
pub proof fn law_equal_bounds_disable_short(cfg: &DebounceConfig, hold: u64)
    requires
        cfg.short_hold_threshold_ms <= cfg.micro_hold_threshold_ms,
    ensures
        tier_of(cfg, hold) != HoldTier::Short,
        tier_of(cfg, hold) == HoldTier::Micro <==> hold < millis(cfg.micro_hold_threshold_ms),
{
}

/// Longer windows suppress at least as much: a press that is chatter under one
/// configuration is chatter under any other whose windows are no shorter.
pub proof fn law_longer_windows_suppress_more(
    cfg: &DebounceConfig,
    wider: &DebounceConfig,
    st: KeyModel,
    now: u64,
)
    requires
        cfg.threshold_ms <= wider.threshold_ms,
        cfg.extended_threshold_ms <= wider.extended_threshold_ms,
        cfg.micro_extended_threshold_ms <= wider.micro_extended_threshold_ms,
    ensures
        is_chatter(cfg, st, now) ==> is_chatter(wider, st, now),
{
}

/// With every forwarded event logged at once, no line ever waits.
pub proof fn law_nothing_waits_when_all_is_logged(
    d: EventDecision,
    value: i32,
    ts: Seq<char>,
    reason: Seq<char>,
    before: Seq<Seq<char>>,
    later: Seq<Seq<char>>,
    printed: Seq<Seq<char>>,
)
    requires
        before.len() == 0,
        logs_as_decided(d, value, ts, reason, true, before, later, printed),
    ensures
        later.len() == 0,
        printed.len() == 1,
{
}

/// Modifiers are never debounced where all keys are, whatever keys are listed.
pub proof fn law_modifiers_pass(cfg: &DebounceConfig, keys: Seq<u16>, code: u16)
    requires
        cfg.debounce_all,
        is_modifier_code(code),
    ensures
        !is_target(cfg, keys, code),
{
}

/// Where all keys are debounced, the list of keys does not matter.
pub proof fn law_list_is_ignored_when_all(
    cfg: &DebounceConfig,
    keys: Seq<u16>,
    other: Seq<u16>,
    code: u16,
)
    requires
        cfg.debounce_all,
    ensures
        is_target(cfg, keys, code) == is_target(cfg, other, code),
{
}

/// An event of the keyboard and the time at which it arrives.
pub struct Arrival {
    pub event: KeyEvent,
    pub now: u64,
}

/// The events of one key.
pub open spec fn strokes_of(code: u16, arrivals: Seq<Arrival>) -> Seq<Stroke>
    decreases arrivals.len(),
{
    if arrivals.len() == 0 {
        Seq::empty()
    } else {
        let before = strokes_of(code, arrivals.drop_last());
        let a = arrivals.last();
        if a.event.key == Some(code) {
            before.push(Stroke { value: a.event.value, now: a.now })
        } else {
            before
        }
    }
}

/// `filters` are the states that a filter goes through as the events arrive.
pub open spec fn is_run(filters: Seq<Filter>, arrivals: Seq<Arrival>) -> bool {
    &&& filters.len() == arrivals.len() + 1
    &&& forall|i: int|
        #![trigger arrivals[i]]
        0 <= i < arrivals.len() ==> filters[i].moves_to(
            arrivals[i].event,
            arrivals[i].now,
            &filters[i + 1],
        )
}

/// Keys do not influence each other: what a filter remembers of a debounced
/// key comes from the events of that key alone, and of any other key it
/// remembers nothing.
pub proof fn law_keys_are_independent(filters: Seq<Filter>, arrivals: Seq<Arrival>, code: u16)
    requires
        is_run(filters, arrivals),
        filters[0].state_of(code) == untouched(),
    ensures
        filters.last().config() == filters[0].config(),
        filters.last().listed() == filters[0].listed(),
        filters.last().state_of(code) == if is_target(
            &filters[0].config(),
            filters[0].listed(),
            code,
        ) {
            state_after(&filters[0].config(), untouched(), strokes_of(code, arrivals))
        } else {
            untouched()
        },
    decreases arrivals.len(),
{
    if arrivals.len() > 0 {
        let n = arrivals.len() - 1;
        let front = arrivals.drop_last();
        let passed = filters.drop_last();
        lemma_run_without_last(filters, arrivals);
        law_keys_are_independent(passed, front, code);
        let a = arrivals[n];
        assert(filters[n].moves_to(a.event, a.now, &filters[n + 1]));
        assert(passed.last() == filters[n]);
        assert(filters.last() == filters[n + 1]);
        let own = strokes_of(code, arrivals);
        if a.event.key == Some(code) {
            assert(own.drop_last() =~= strokes_of(code, front));
        }
    }
}

/// The event is sent on by the filter.
pub open spec fn sends(filter: &Filter, a: Arrival) -> bool {
    filter.debounces(a.event) ==> filter.decision_on(a.event, a.now) is Forward
}

/// The events of a key that a filter sends on, as it goes through the states
/// `filters`.
pub open spec fn sent(filters: Seq<Filter>, arrivals: Seq<Arrival>, code: u16) -> Seq<Stroke>
    decreases arrivals.len(),
{
    if arrivals.len() == 0 {
        Seq::empty()
    } else {
        let before = sent(filters.drop_last(), arrivals.drop_last(), code);
        let a = arrivals.last();
        if a.event.key == Some(code) && sends(&filters[arrivals.len() - 1], a) {
            before.push(Stroke { value: a.event.value, now: a.now })
        } else {
            before
        }
    }
}

proof fn lemma_run_without_last(filters: Seq<Filter>, arrivals: Seq<Arrival>)
    requires
        is_run(filters, arrivals),
        arrivals.len() > 0,
    ensures
        is_run(filters.drop_last(), arrivals.drop_last()),
{
    let front = arrivals.drop_last();
    let passed = filters.drop_last();
    assert forall|i: int| #![trigger front[i]] 0 <= i < front.len() implies passed[i].moves_to(
        front[i].event,
        front[i].now,
        &passed[i + 1],
    ) by {
        assert(front[i] == arrivals[i]);
        assert(passed[i] == filters[i]);
        assert(passed[i + 1] == filters[i + 1]);
    }
}

/// What a filter sends on of a key comes from the events of that key alone: of
/// a debounced key, what would be forwarded if there were no other, and of any
/// other key, all of it.
pub proof fn law_sent_events_are_those_of_the_key(
    filters: Seq<Filter>,
    arrivals: Seq<Arrival>,
    code: u16,
)
    requires
        is_run(filters, arrivals),
        filters[0].state_of(code) == untouched(),
    ensures
        sent(filters, arrivals, code) == if is_target(
            &filters[0].config(),
            filters[0].listed(),
            code,
        ) {
            forwarded(&filters[0].config(), untouched(), strokes_of(code, arrivals))
        } else {
            strokes_of(code, arrivals)
        },
    decreases arrivals.len(),
{
    if arrivals.len() > 0 {
        let front = arrivals.drop_last();
        let passed = filters.drop_last();
        lemma_run_without_last(filters, arrivals);
        law_sent_events_are_those_of_the_key(passed, front, code);
        law_keys_are_independent(passed, front, code);
        assert(passed.last() == filters[arrivals.len() - 1]);
        let own = strokes_of(code, arrivals);
        if arrivals.last().event.key == Some(code) {
            assert(own.drop_last() =~= strokes_of(code, front));
        }
    }
}

/// Other keys do not disturb: two filters of the same configuration that get
/// the same events of a key send on the same of them, whatever events of other
/// keys either gets in between.
pub proof fn law_other_keys_do_not_disturb(
    filters: Seq<Filter>,
    arrivals: Seq<Arrival>,
    other_filters: Seq<Filter>,
    other_arrivals: Seq<Arrival>,
    code: u16,
)
    requires
        is_run(filters, arrivals),
        is_run(other_filters, other_arrivals),
        filters[0].state_of(code) == untouched(),
        other_filters[0].state_of(code) == untouched(),
        filters[0].config() == other_filters[0].config(),
        filters[0].listed() == other_filters[0].listed(),
        strokes_of(code, arrivals) == strokes_of(code, other_arrivals),
    ensures
        sent(filters, arrivals, code) == sent(other_filters, other_arrivals, code),
{
    law_sent_events_are_those_of_the_key(filters, arrivals, code);
    law_sent_events_are_those_of_the_key(other_filters, other_arrivals, code);
}

/// Programs see whole key strokes of every key, whatever the other keys do:
/// where the keyboard sends the presses and releases of a key in turn, so does
/// the filter.
pub proof fn law_filter_sends_whole_strokes(
    filters: Seq<Filter>,
    arrivals: Seq<Arrival>,
    code: u16,
)
    requires
        is_run(filters, arrivals),
        filters[0].state_of(code) == untouched(),
        alternates(edges(strokes_of(code, arrivals))),
    ensures
        alternates(edges(sent(filters, arrivals, code))),
        edges(strokes_of(code, arrivals)).len() % 2 == 0 ==> edges(
            sent(filters, arrivals, code),
        ).len() % 2 == 0,
{
    law_sent_events_are_those_of_the_key(filters, arrivals, code);
    law_forwarded_presses_are_released(&filters[0].config(), strokes_of(code, arrivals));
}

/// The gap before a press is the time since the press before it less the time
/// for which that one was held.
pub proof fn law_gap_is_interval_less_hold(down: u64, up: u64, next: u64)
    requires
        down <= up <= next,
    ensures
        elapsed(up, next) == elapsed(down, next) - elapsed(down, up),
{
}

/// When the key last went down, by the events alone.
pub open spec fn last_press(strokes: Seq<Stroke>) -> Option<u64>
    decreases strokes.len(),
{
    if strokes.len() == 0 {
        None
    } else if strokes.last().value == 1 {
        Some(strokes.last().now)
    } else {
        last_press(strokes.drop_last())
    }
}

proof fn lemma_last_press_is_remembered(cfg: &DebounceConfig, strokes: Seq<Stroke>)
    ensures
        state_after(cfg, untouched(), strokes).last_dn_at == last_press(strokes),
    decreases strokes.len(),
{
    if strokes.len() > 0 {
        lemma_last_press_is_remembered(cfg, strokes.drop_last());
    }
}

proof fn lemma_last_release_from(cfg: &DebounceConfig, st: KeyModel, strokes: Seq<Stroke>)
    ensures
        state_after(cfg, st, strokes).last_up == match last_release(strokes) {
            Some(up) => Some(up),
            None => st.last_up,
        },
    decreases strokes.len(),
{
    if strokes.len() > 0 {
        lemma_last_release_from(cfg, st, strokes.drop_last());
    }
}

/// The press at `next` comes less than `window_ms` milliseconds after the
/// release at `up`. A release that lies ahead counts as just gone by.
pub open spec fn comes_within(up: u64, next: u64, window_ms: u64) -> bool {
    0 < window_ms && next - up < window_ms * 1_000_000
}

/// What the configured thresholds are for. Take any events, then a release at
/// `up` that is forwarded, then any number of events that are suppressed, then
/// a press at `next`. The press is suppressed if and only if it comes, after
/// the last release, within a window that goes by how long the key was held at
/// `up`: below the micro bound the micro window, else below the short bound the
/// extended window, else the base window.
pub proof fn law_thresholds_decide(
    cfg: &DebounceConfig,
    strokes: Seq<Stroke>,
    up: u64,
    chatter: Seq<Stroke>,
    next: u64,
)
    requires
        decision(cfg, state_after(cfg, untouched(), strokes), 0, up) is Forward,
        all_suppressed(
            cfg,
            state_after_one(
                cfg,
                state_after(cfg, untouched(), strokes),
                Stroke { value: 0, now: up },
            ),
            chatter,
        ),
    ensures
        ({
            let released = state_after_one(
                cfg,
                state_after(cfg, untouched(), strokes),
                Stroke { value: 0, now: up },
            );
            let suppressed = decision(
                cfg,
                state_after(cfg, released, chatter),
                1,
                next,
            ) is Suppress;
            let last_up = match last_release(chatter) {
                Some(later) => later,
                None => up,
            };
            match last_press(strokes) {
                None => suppressed <==> comes_within(last_up, next, cfg.threshold_ms),
                Some(down) => {
                    let hold = if down <= up {
                        up - down
                    } else {
                        0
                    };
                    &&& hold < cfg.micro_hold_threshold_ms * 1_000_000 ==> (suppressed
                        <==> comes_within(last_up, next, cfg.micro_extended_threshold_ms))
                    &&& cfg.micro_hold_threshold_ms * 1_000_000 <= hold
                        < cfg.short_hold_threshold_ms * 1_000_000 ==> (suppressed <==> comes_within(
                        last_up,
                        next,
                        cfg.extended_threshold_ms,
                    ))
                    &&& hold >= cfg.micro_hold_threshold_ms * 1_000_000 && hold
                        >= cfg.short_hold_threshold_ms * 1_000_000 ==> (suppressed <==> comes_within(
                        last_up,
                        next,
                        cfg.threshold_ms,
                    ))
                },
            }
        }),
{
    let released = state_after_one(
        cfg,
        state_after(cfg, untouched(), strokes),
        Stroke { value: 0, now: up },
    );
    lemma_last_press_is_remembered(cfg, strokes);
    lemma_last_release_from(cfg, released, chatter);
    law_chatter_keeps_the_window(cfg, released, chatter);
}

/// A press that is forwarded, held from `down` to `up`, and followed by a press
/// at `next`: each configured bound and window has its effect, and no other
/// number does.
pub proof fn law_hold_decides_the_window(
    cfg: &DebounceConfig,
    st: KeyModel,
    down: u64,
    up: u64,
    next: u64,
)
    requires
        down <= up <= next,
        decision(cfg, st, 1, down) is Forward,
    ensures
        ({
            let pressed = state_after_one(cfg, st, Stroke { value: 1, now: down });
            let released = state_after_one(cfg, pressed, Stroke { value: 0, now: up });
            let suppressed = decision(cfg, released, 1, next) is Suppress;
            &&& decision(cfg, pressed, 0, up) is Forward
            &&& up - down < cfg.micro_hold_threshold_ms * 1_000_000 ==> (suppressed <==> next - up
                < cfg.micro_extended_threshold_ms * 1_000_000)
            &&& up - down >= cfg.micro_hold_threshold_ms * 1_000_000 && up - down
                < cfg.short_hold_threshold_ms * 1_000_000 ==> (suppressed <==> next - up
                < cfg.extended_threshold_ms * 1_000_000)
            &&& up - down >= cfg.micro_hold_threshold_ms * 1_000_000 && up - down
                >= cfg.short_hold_threshold_ms * 1_000_000 ==> (suppressed <==> next - up
                < cfg.threshold_ms * 1_000_000)
        }),
{
}

/// The key is down by a press that was suppressed.
pub open spec fn in_suppressed_press(cfg: &DebounceConfig, strokes: Seq<Stroke>) -> bool
    decreases strokes.len(),
{
    if strokes.len() == 0 {
        false
    } else if strokes.last().value == 1 {
        !forwards_last(cfg, untouched(), strokes)
    } else if strokes.last().value == 0 {
        false
    } else {
        in_suppressed_press(cfg, strokes.drop_last())
    }
}

proof fn lemma_suppressed_press_is_remembered(cfg: &DebounceConfig, strokes: Seq<Stroke>)
    ensures
        state_after(cfg, untouched(), strokes).suppressed == in_suppressed_press(cfg, strokes),
    decreases strokes.len(),
{
    if strokes.len() > 0 {
        lemma_suppressed_press_is_remembered(cfg, strokes.drop_last());
    }
}

/// A release is suppressed if and only if the press before it was, whatever
/// came before the two.
pub proof fn law_release_is_suppressed_with_its_press(
    cfg: &DebounceConfig,
    strokes: Seq<Stroke>,
    now: u64,
)
    ensures
        decision(cfg, state_after(cfg, untouched(), strokes), 0, now) is Suppress
            <==> in_suppressed_press(cfg, strokes),
{
    lemma_suppressed_press_is_remembered(cfg, strokes);
}

/// An event that is neither a press nor a release is forwarded, and what
/// happens to any event behind it is as if it had not been there.
pub proof fn law_other_events_leave_no_trace(
    cfg: &DebounceConfig,
    st: KeyModel,
    other: Stroke,
    value: i32,
    now: u64,
)
    requires
        other.value != 0,
        other.value != 1,
    ensures
        decision(cfg, st, other.value, other.now) is Forward,
        decision(cfg, state_after_one(cfg, st, other), value, now) == decision(
            cfg,
            st,
            value,
            now,
        ),
        state_after_one(cfg, st, other) == st,
{
}

/// The reason for a decision on a press tells the gap before it and the window
/// that it was held against: the press is suppressed if and only if the one is
/// below the other.
pub proof fn law_press_reason_tells_the_gap(
    cfg: &DebounceConfig,
    strokes: Seq<Stroke>,
    now: u64,
)
    requires
        last_release(strokes) is Some,
        last_release(strokes)->0 <= now,
    ensures
        ({
            let gap = now - last_release(strokes)->0;
            match decision(cfg, state_after(cfg, untouched(), strokes), 1, now) {
                EventDecision::Forward { reason: Reason::Gap { gap_us, threshold_ms, .. } } =>
                    gap_us == gap / 1000 && gap >= threshold_ms * 1_000_000,
                EventDecision::Suppress { reason: Reason::Gap { gap_us, threshold_ms, .. } } =>
                    gap_us == gap / 1000 && gap < threshold_ms * 1_000_000,
                _ => false,
            }
        }),
        measured_in(reason_of(decision(cfg, state_after(cfg, untouched(), strokes), 1, now)))
            == Some(((now - last_release(strokes)->0) / 1000) as u64),
{
    law_gap_starts_at_last_release(cfg, strokes);
}

/// The reason for forwarding a release tells how long the key was held, and
/// announces the window that the next press is held against.
pub proof fn law_release_reason_tells_the_hold(
    cfg: &DebounceConfig,
    strokes: Seq<Stroke>,
    up: u64,
    next: u64,
)
    requires
        decision(cfg, state_after(cfg, untouched(), strokes), 0, up) is Forward,
        last_press(strokes) matches Some(down) ==> down <= up,
    ensures
        ({
            let before = state_after(cfg, untouched(), strokes);
            let released = state_after_one(cfg, before, Stroke { value: 0, now: up });
            match decision(cfg, before, 0, up) {
                EventDecision::Forward { reason: Reason::Release { hold_us, tier, next_ms } } => {
                    &&& match last_press(strokes) {
                        Some(down) => hold_us == Some(((up - down) / 1000) as u64),
                        None => hold_us is None,
                    }
                    &&& match reason_of(decision(cfg, released, 1, next)) {
                        Reason::Gap { threshold_ms, tier: armed, .. } => threshold_ms == next_ms
                            && armed == tier,
                        _ => false,
                    }
                },
                _ => false,
            }
        }),
        measured_in(reason_of(decision(cfg, state_after(cfg, untouched(), strokes), 0, up)))
            == match last_press(strokes) {
            Some(down) => Some(((up - down) / 1000) as u64),
            None => None,
        },
{
    lemma_last_press_is_remembered(cfg, strokes);
}

/// The reason for suppressing a release tells how long the suppressed press was
/// held.
pub proof fn law_paired_release_tells_the_hold(
    cfg: &DebounceConfig,
    strokes: Seq<Stroke>,
    up: u64,
)
    requires
        decision(cfg, state_after(cfg, untouched(), strokes), 0, up) is Suppress,
        last_press(strokes) matches Some(down) ==> down <= up,
    ensures
        match decision(cfg, state_after(cfg, untouched(), strokes), 0, up) {
            EventDecision::Suppress { reason: Reason::PairedUp { hold_us } } => match last_press(
                strokes,
            ) {
                Some(down) => hold_us == Some(((up - down) / 1000) as u64),
                None => hold_us is None,
            },
            _ => false,
        },
        measured_in(reason_of(decision(cfg, state_after(cfg, untouched(), strokes), 0, up)))
            == match last_press(strokes) {
            Some(down) => Some(((up - down) / 1000) as u64),
            None => None,
        },
{
    lemma_last_press_is_remembered(cfg, strokes);
}

/// Where there is nothing to measure, no time is told: of the first press of a
/// key, and of an event that is neither a press nor a release.
pub proof fn law_nothing_measured_is_not_told(
    cfg: &DebounceConfig,
    strokes: Seq<Stroke>,
    value: i32,
    now: u64,
)
    requires
        value != 0,
        value == 1 ==> last_release(strokes) is None,
    ensures
        decision(cfg, state_after(cfg, untouched(), strokes), value, now) is Forward,
        measured_in(reason_of(decision(cfg, state_after(cfg, untouched(), strokes), value, now)))
            is None,
{
    law_gap_starts_at_last_release(cfg, strokes);
}

/// Every key of the list is debounced, wherever in the list it stands, and no
/// other key is.
pub proof fn law_listed_keys_are_debounced(cfg: &DebounceConfig, keys: Seq<u16>, code: u16)
    requires
        !cfg.debounce_all,
    ensures
        forall|i: int| 0 <= i < keys.len() ==> is_target(cfg, keys, #[trigger] keys[i]),
        (forall|i: int| 0 <= i < keys.len() ==> #[trigger] keys[i] != code) ==> !is_target(
            cfg,
            keys,
            code,
        ),
{
}

/// The order of the list does not matter, nor how often a key stands in it:
/// two lists of the same keys debounce the same keys.
pub proof fn law_order_of_the_list_does_not_matter(
    cfg: &DebounceConfig,
    keys: Seq<u16>,
    other: Seq<u16>,
    code: u16,
)
    requires
        forall|i: int|
            0 <= i < keys.len() ==> exists|j: int|
                0 <= j < other.len() && other[j] == #[trigger] keys[i],
        forall|j: int|
            0 <= j < other.len() ==> exists|i: int|
                0 <= i < keys.len() && keys[i] == #[trigger] other[j],
    ensures
        is_target(cfg, keys, code) == is_target(cfg, other, code),
{
}

/// Where all keys are debounced, the exceptions are the two Ctrl, Shift, Alt
/// and Meta keys, Caps Lock, Num Lock and Scroll Lock, and no other key.
pub proof fn law_all_but_the_modifiers(cfg: &DebounceConfig, keys: Seq<u16>, code: u16)
    requires
        cfg.debounce_all,
    ensures
        !is_target(cfg, keys, code) <==> (code == 29 || code == 97 || code == 42 || code == 54
            || code == 56 || code == 100 || code == 125 || code == 126 || code == 58 || code == 69
            || code == 70),
{
}

/// The filter goes by its own list and its own configuration: it debounces the
/// events of each listed key, or of each key but the modifiers, and never an
/// event that is no key event.
pub proof fn law_filter_debounces_its_keys(filter: &Filter, event: KeyEvent)
    ensures
        event.key is None ==> !filter.debounces(event),
        event.key matches Some(code) ==> {
            &&& !filter.config().debounce_all ==> (filter.debounces(event) <==> exists|i: int|
                0 <= i < filter.listed().len() && #[trigger] filter.listed()[i] == code)
            &&& filter.config().debounce_all ==> (filter.debounces(event) <==> !(code == 29 || code
                == 97 || code == 42 || code == 54 || code == 56 || code == 100 || code == 125
                || code == 126 || code == 58 || code == 69 || code == 70))
        },
{
}

/// The lines of a stroke are printed together with the chatter that follows
/// it: the press, its release, then the suppressed press, in this order, and
/// nothing before.
pub proof fn law_chatter_is_logged_with_its_stroke(
    press: EventDecision,
    release: EventDecision,
    bounce: EventDecision,
    ts: Seq<Seq<char>>,
    reasons: Seq<Seq<char>>,
    waiting: Seq<Seq<Seq<char>>>,
    printed: Seq<Seq<Seq<char>>>,
)
    requires
        press is Forward,
        release is Forward,
        bounce is Suppress,
        logs_as_decided(press, 1, ts[0], reasons[0], false, waiting[0], waiting[1], printed[0]),
        logs_as_decided(release, 0, ts[1], reasons[1], false, waiting[1], waiting[2], printed[1]),
        logs_as_decided(bounce, 1, ts[2], reasons[2], false, waiting[2], waiting[3], printed[2]),
    ensures
        printed[0].len() == 0,
        printed[1].len() == 0,
        printed[2].len() == 3,
        is_log_line(printed[2][0], press, true, ts[0], reasons[0]),
        is_log_line(printed[2][1], release, false, ts[1], reasons[1]),
        is_log_line(printed[2][2], bounce, true, ts[2], reasons[2]),
        waiting[3].len() == 0,
{
    assert(waiting[1].last() == waiting[1][0]);
    assert(waiting[2].drop_last()[0] == waiting[1][0]);
    assert(printed[2].drop_last()[0] == waiting[2][0]);
    assert(printed[2].drop_last()[1] == waiting[2][1]);
}

/// No log line is printed twice or gets lost: the lines that were waiting, and
/// the line of the event, are afterwards printed or still wait, in order,
/// unless a forwarded press starts over.
pub proof fn law_log_lines_are_kept(
    d: EventDecision,
    value: i32,
    ts: Seq<char>,
    reason: Seq<char>,
    log_forward: bool,
    before: Seq<Seq<char>>,
    later: Seq<Seq<char>>,
    printed: Seq<Seq<char>>,
)
    requires
        logs_as_decided(d, value, ts, reason, log_forward, before, later, printed),
    ensures
        ({
            let press = value == 1;
            exists|line: Seq<char>|
                {
                    &&& #[trigger] is_log_line(line, d, press, ts, reason)
                    &&& d is Suppress ==> printed == before.push(line) && later.len() == 0
                    &&& d is Forward && log_forward ==> printed == seq![line]
                    &&& d is Forward && !log_forward ==> printed.len() == 0
                    &&& d is Forward && !log_forward && !press ==> later == before.push(line)
                    &&& d is Forward && !log_forward && press ==> later == seq![line]
                    &&& d is Forward && log_forward && !press ==> later == before
                    &&& d is Forward && log_forward && press ==> later.len() == 0
                }
        }),
{
    let line = if d is Suppress {
        printed.last()
    } else if log_forward {
        printed[0]
    } else {
        later.last()
    };
    if d is Suppress {
        assert(printed =~= printed.drop_last().push(line));
    } else if log_forward {
        assert(printed =~= seq![line]);
    } else {
        assert(later =~= later.drop_last().push(line));
        assert(Seq::<Seq<char>>::empty().push(line) =~= seq![line]);
    }
    assert(is_log_line(line, d, value == 1, ts, reason));
}

/// A key of which no release was seen has the base window, whatever
/// else was seen of it.
pub proof fn law_base_window_until_a_release(cfg: &DebounceConfig, strokes: Seq<Stroke>)
    requires
        forall|i: int| 0 <= i < strokes.len() ==> #[trigger] strokes[i].value != 0,
    ensures
        window_ms(cfg, state_after(cfg, untouched(), strokes).last_hold_tier) == cfg.threshold_ms,
        state_after(cfg, untouched(), strokes).last_up is None,
    decreases strokes.len(),
{
    if strokes.len() > 0 {
        let front = strokes.drop_last();
        assert forall|i: int| 0 <= i < front.len() implies #[trigger] front[i].value != 0 by {
            assert(front[i] == strokes[i]);
        }
        law_base_window_until_a_release(cfg, front);
        assert(strokes[strokes.len() - 1].value != 0);
    }
}

} // verus!
