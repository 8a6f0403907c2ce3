//! The filter over all keys: which events are debounced, and what becomes of
//! each event that the keyboard sends.
use std::collections::HashMap;
use vstd::prelude::*;

use crate::config::DebounceConfig;
use crate::debounce::{after, decision, logs_as_decided, measured_in, reason_of, untouched};
use crate::debounce::{apply_decision, process_event};
use crate::debounce::{Applied, EventDecision, KeyModel, PerKeyState};
use crate::keys::evdev_key_name;
use crate::keys::is_modifier;
use crate::keys::is_modifier_code;
use crate::keys::key_name;
use crate::log::reason_text;
use crate::text::texts;

verus! {

/// An event of the keyboard: the code of its key, where it is a key event, and
/// its value.
#[derive(Clone, Copy, Debug)]
pub struct KeyEvent {
    pub key: Option<u16>,
    pub value: i32,
}

/// A key event as the health record wants it.
#[derive(Clone, Copy, Debug, PartialEq, Eq)]
pub struct Seen {
    pub key: u16,
    pub value: i32,
    pub suppressed: bool,
}

/// What becomes of an event.
pub struct Outcome {
    /// Send the event on.
    pub forward: bool,
    /// Log lines to print, in order.
    pub lines: Vec<String>,
    /// What to record, for every key event.
    pub seen: Option<Seen>,
}

/// The keys that are debounced: all but the modifiers, or those listed.
pub open spec fn is_target(cfg: &DebounceConfig, keys: Seq<u16>, code: u16) -> bool {
    if cfg.debounce_all {
        !is_modifier_code(code)
    } else {
        keys.contains(code)
    }
}

/// The debounce state of every key.
pub struct Filter {
    cfg: DebounceConfig,
    keys: Vec<u16>,
    states: HashMap<u16, PerKeyState>,
}

impl Filter {
    /// The configuration of the filter.
    pub closed spec fn config(&self) -> DebounceConfig {
        self.cfg
    }

    /// The keys that are listed to be debounced.
    pub closed spec fn listed(&self) -> Seq<u16> {
        self.keys@
    }

    /// What is remembered of a key.
    pub closed spec fn state_of(&self, code: u16) -> KeyModel {
        if self.states@.contains_key(code) {
            self.states@[code]@
        } else {
            untouched()
        }
    }

    /// The pending log lines of a key.
    pub closed spec fn pending_of(&self, code: u16) -> Seq<Seq<char>> {
        if self.states@.contains_key(code) {
            self.states@[code].pending_lines()
        } else {
            Seq::empty()
        }
    }

    /// The event is one of a debounced key.
    pub open spec fn debounces(&self, event: KeyEvent) -> bool {
        event.key matches Some(code) && is_target(&self.config(), self.listed(), code)
    }

    /// The decision on an event of a debounced key.
    pub open spec fn decision_on(&self, event: KeyEvent, now: u64) -> EventDecision {
        decision(&self.config(), self.state_of(event.key->0), event.value, now)
    }

    /// `later` is this filter once it has seen `event` at `now`: the key of a
    /// debounced event has moved on, and nothing else has changed.
    pub open spec fn moves_to(&self, event: KeyEvent, now: u64, later: &Filter) -> bool {
        &&& later.config() == self.config()
        &&& later.listed() == self.listed()
        &&& forall|code: u16|
            #![trigger later.state_of(code)]
            later.state_of(code) == if self.debounces(event) && event.key == Some(code) {
                after(
                    &self.config(),
                    self.state_of(code),
                    self.decision_on(event, now),
                    event.value,
                    now,
                )
            } else {
                self.state_of(code)
            }
        &&& forall|code: u16|
            #![trigger later.pending_of(code)]
            !(self.debounces(event) && event.key == Some(code)) ==> later.pending_of(code)
                == self.pending_of(code)
    }

    /// A filter that has seen no event.
    pub fn new(keys: Vec<u16>, cfg: DebounceConfig) -> (r: Self)
        ensures
            r.config() == cfg,
            r.listed() == keys@,
            forall|code: u16| r.state_of(code) == untouched(),
            forall|code: u16| r.pending_of(code) == Seq::<Seq<char>>::empty(),
    {
        Filter { cfg, keys, states: HashMap::new() }
    }

    /// Whether the key is listed.
    fn lists(&self, code: u16) -> (r: bool)
        ensures
            r == self.listed().contains(code),
    {
        let mut i: usize = 0;
        while i < self.keys.len()
            invariant
                i <= self.keys@.len(),
                forall|j: int| 0 <= j < i ==> self.keys@[j] != code,
            decreases self.keys@.len() - i,
        {
            if self.keys[i] == code {
                return true;
            }
            i = i + 1;
        }
        false
    }

    /// Whether the key is debounced.
    pub fn targets(&self, code: u16) -> (r: bool)
        ensures
            r == is_target(&self.config(), self.listed(), code),
            !self.config().debounce_all ==> (r <==> exists|i: int|
                0 <= i < self.listed().len() && #[trigger] self.listed()[i] == code),
    {
        if self.cfg.debounce_all {
            !is_modifier(code)
        } else {
            self.lists(code)
        }
    }

    /// The time that the log line of an event will show, in microseconds:
    /// the gap before a press, the hold before a release.
    pub fn measure(&self, event: KeyEvent, now: u64) -> (r: Option<u64>)
        ensures
            r == if self.debounces(event) {
                measured_in(reason_of(self.decision_on(event, now)))
            } else {
                None
            },
    {
        broadcast use vstd::std_specs::hash::group_hash_axioms;

        match event.key {
            Some(code) => {
                if !self.targets(code) {
                    return None;
                }
                match self.states.get(&code) {
                    Some(state) => process_event(
                        &self.cfg,
                        state,
                        event.value,
                        now,
                    ).reason().measured_us(),
                    None => {
                        let state: PerKeyState = PerKeyState::new();
                        process_event(&self.cfg, &state, event.value, now).reason().measured_us()
                    },
                }
            },
            None => None,
        }
    }

    /// Filters one event that arrives at `now`. `ts` is the time of day for
    /// the log; `measured` is what `measure` said of the event, in
    /// milliseconds with two decimals.
    ///
    /// An event of a debounced key goes by the state of that key alone. Any
    /// other event is forwarded and leaves no trace.
    pub fn handle(&mut self, event: KeyEvent, now: u64, ts: &str, measured: &str) -> (r: Outcome)
        ensures
            old(self).moves_to(event, now, final(self)),
            r.forward == (old(self).debounces(event) ==> old(self).decision_on(
                event,
                now,
            ) is Forward),
            !old(self).debounces(event) ==> r.lines@.len() == 0,
            old(self).debounces(event) ==> logs_as_decided(
                old(self).decision_on(event, now),
                event.value,
                ts@,
                reason_text(
                    old(self).decision_on(event, now),
                    evdev_key_name(event.key->0),
                    measured@,
                ),
                old(self).config().log_forward,
                old(self).pending_of(event.key->0),
                final(self).pending_of(event.key->0),
                texts(r.lines@),
            ),
            r.seen == match event.key {
                Some(key) => Some(Seen { key, value: event.value, suppressed: !r.forward }),
                None => None,
            },
            (forall|i: int|
                0 <= i < old(self).listed().len() ==> Some(#[trigger] old(self).listed()[i])
                    != event.key) && !old(self).config().debounce_all ==> r.forward,
    {
        broadcast use vstd::std_specs::hash::group_hash_axioms;

        let code: u16 = match event.key {
            Some(code) => code,
            None => {
                return Outcome { forward: true, lines: Vec::new(), seen: None };
            },
        };
        if !self.targets(code) {
            let seen: Seen = Seen { key: code, value: event.value, suppressed: false };
            return Outcome { forward: true, lines: Vec::new(), seen: Some(seen) };
        }
        let mut state: PerKeyState = match self.states.remove(&code) {
            Some(state) => state,
            None => PerKeyState::new(),
        };
        let d: EventDecision = process_event(&self.cfg, &state, event.value, now);
        let name: String = key_name(code);
        let reason: String = d.describe(name.as_str(), measured);
        let applied: Applied = apply_decision(
            &self.cfg,
            &mut state,
            d,
            event.value,
            now,
            ts,
            reason.as_str(),
        );
        self.states.insert(code, state);
        let seen: Seen = Seen { key: code, value: event.value, suppressed: !applied.forward };
        Outcome { forward: applied.forward, lines: applied.lines, seen: Some(seen) }
    }
}

} // verus!
