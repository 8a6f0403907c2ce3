//! The outer loop of the daemon: waiting for the keyboard, filtering, and
//! waiting again once it is unplugged.
use vstd::prelude::*;
use vstd::string::*;

use crate::config::is_config;
use crate::config::Config;

verus! {

/// What has just happened.
pub enum RunEvent {
    /// The daemon started, or a wait is over.
    Ready,
    /// The keyboard was found by its name at this path.
    Found(String),
    /// The keyboard was not found by its name.
    NotFound,
    /// The device was unplugged.
    Disconnected,
    /// Filtering failed for good.
    Fatal,
}

/// What to tell the user.
#[derive(Clone, Copy, Debug, PartialEq, Eq, Structural)]
pub enum Notice {
    /// The keyboard is not there yet.
    NotFound,
    /// The keyboard was unplugged.
    Disconnected,
}

/// What to do next.
pub enum RunAction {
    /// Look for the keyboard of this name.
    Discover(String),
    /// Filter the device at this path.
    Filter(String),
    /// Tell the user, where there is something to tell, then wait a second.
    Wait(Option<Notice>),
    /// End with the error.
    Stop,
}

/// What to do next, without the machine's strings.
pub enum Step {
    Discover(Seq<char>),
    Filter(Seq<char>),
    Wait(Option<Notice>),
    Stop,
}

impl View for RunAction {
    type V = Step;

    open spec fn view(&self) -> Step {
        match self {
            RunAction::Discover(name) => Step::Discover(name@),
            RunAction::Filter(path) => Step::Filter(path@),
            RunAction::Wait(notice) => Step::Wait(*notice),
            RunAction::Stop => Step::Stop,
        }
    }
}

/// What the loop remembers.
pub struct RunModel {
    /// The keyboard has been found by its name before.
    pub connected_before: bool,
    /// The user has been told that the keyboard is not there.
    pub told_not_found: bool,
}

/// Where the keyboard is to be had: at the configured path, which comes first,
/// or else under its name.
pub open spec fn source(cfg: &Config) -> Step {
    match cfg.keyboard_name {
        Some(name) => if cfg.device_path@.len() == 0 {
            Step::Discover(name@)
        } else {
            Step::Filter(cfg.device_path@)
        },
        None => Step::Filter(cfg.device_path@),
    }
}

/// What an event asks for.
pub open spec fn step(cfg: &Config, m: RunModel, event: RunEvent) -> Step {
    match event {
        RunEvent::Ready => source(cfg),
        RunEvent::Found(path) => Step::Filter(path@),
        RunEvent::NotFound => Step::Wait(
            if !m.connected_before && !m.told_not_found {
                Some(Notice::NotFound)
            } else {
                None
            },
        ),
        RunEvent::Disconnected => Step::Wait(Some(Notice::Disconnected)),
        RunEvent::Fatal => Step::Stop,
    }
}

/// What is remembered after an event.
pub open spec fn remembered(m: RunModel, event: RunEvent) -> RunModel {
    match event {
        RunEvent::Found(_) => RunModel { connected_before: true, told_not_found: false },
        RunEvent::NotFound => RunModel {
            told_not_found: m.told_not_found || !m.connected_before,
            ..m
        },
        _ => m,
    }
}

/// The state of the outer loop.
pub struct Supervisor {
    connected_before: bool,
    last_message_was_not_found: bool,
}

impl View for Supervisor {
    type V = RunModel;

    closed spec fn view(&self) -> RunModel {
        RunModel {
            connected_before: self.connected_before,
            told_not_found: self.last_message_was_not_found,
        }
    }
}

impl Supervisor {
    pub fn new() -> (r: Self)
        ensures
            r@ == (RunModel { connected_before: false, told_not_found: false }),
    {
        Supervisor { connected_before: false, last_message_was_not_found: false }
    }

    /// Takes in an event and says what to do next.
    pub fn next(&mut self, cfg: &Config, event: RunEvent) -> (r: RunAction)
        ensures
            r@ == step(cfg, old(self)@, event),
            final(self)@ == remembered(old(self)@, event),
    {
        match event {
            RunEvent::Ready => {
                match &cfg.keyboard_name {
                    Some(name) => {
                        if cfg.device_path.as_str().is_empty() {
                            return RunAction::Discover(name.clone());
                        }
                    },
                    None => {},
                }
                RunAction::Filter(cfg.device_path.clone())
            },
            RunEvent::Found(path) => {
                self.connected_before = true;
                self.last_message_was_not_found = false;
                RunAction::Filter(path)
            },
            RunEvent::NotFound => {
                if !self.connected_before && !self.last_message_was_not_found {
                    self.last_message_was_not_found = true;
                    RunAction::Wait(Some(Notice::NotFound))
                } else {
                    RunAction::Wait(None)
                }
            },
            RunEvent::Disconnected => RunAction::Wait(Some(Notice::Disconnected)),
            RunEvent::Fatal => RunAction::Stop,
        }
    }
}

impl Notice {
    /// The words for the user.
    pub open spec fn words(self) -> Seq<char> {
        match self {
            Notice::NotFound => "⚠ Device not found. Waiting for connection…"@,
            Notice::Disconnected => "⚠ Device disconnected. Waiting for reconnection…"@,
        }
    }

    /// The words for the user.
    pub fn message(self) -> (r: &'static str)
        ensures
            r@ == self.words(),
    {
        match self {
            Notice::NotFound => "⚠ Device not found. Waiting for connection…",
            Notice::Disconnected => "⚠ Device disconnected. Waiting for reconnection…",
        }
    }
}

/// A configured path comes before a configured name: where the path is set,
/// the keyboard is never looked for by its name.
pub proof fn law_device_path_overrides_name(
    cfg: Config,
    conf: Map<Seq<char>, Seq<char>>,
    keys: Seq<u16>,
    m: RunModel,
)
    requires
        is_config(cfg, conf, keys),
        conf.contains_key("DEVICE_PATH"@),
        conf["DEVICE_PATH"@].len() > 0,
    ensures
        step(&cfg, m, RunEvent::Ready) == Step::Filter(conf["DEVICE_PATH"@]),
{
}

/// Without a configured path the keyboard is looked for by its name, again
/// after each wait.
pub proof fn law_name_is_looked_up_each_time(
    cfg: Config,
    conf: Map<Seq<char>, Seq<char>>,
    keys: Seq<u16>,
    m: RunModel,
)
    requires
        is_config(cfg, conf, keys),
        !conf.contains_key("DEVICE_PATH"@),
        conf.contains_key("KEYBOARD_NAME"@),
    ensures
        step(&cfg, m, RunEvent::Ready) == Step::Discover(conf["KEYBOARD_NAME"@]),
{
}

/// What is remembered after all the events.
pub open spec fn remembered_after(m: RunModel, events: Seq<RunEvent>) -> RunModel
    decreases events.len(),
{
    if events.len() == 0 {
        m
    } else {
        remembered(remembered_after(m, events.drop_last()), events.last())
    }
}

/// The user is told that the keyboard is not there at most once: never again
/// after the first time, nor once it has been found.
pub proof fn law_not_found_is_told_once(
    cfg: Config,
    m: RunModel,
    events: Seq<RunEvent>,
    at: int,
)
    requires
        0 <= at < events.len(),
        events[at] is NotFound || events[at] is Found,
    ensures
        step(&cfg, remembered_after(m, events), RunEvent::NotFound) == Step::Wait(None),
    decreases events.len(),
{
    if at < events.len() - 1 {
        assert(events.drop_last()[at] == events[at]);
        law_not_found_is_told_once(cfg, m, events.drop_last(), at);
    }
}

/// The loop ends on a fatal error and on nothing else.
pub proof fn law_only_fatal_errors_stop(cfg: Config, m: RunModel, event: RunEvent)
    ensures
        step(&cfg, m, event) is Stop <==> event is Fatal,
{
}

/// The keyboard is read from the configured path where there is one, else
/// looked for by its name.
pub proof fn law_path_or_name(cfg: Config, m: RunModel)
    ensures
        cfg.device_path@.len() > 0 ==> step(&cfg, m, RunEvent::Ready) == Step::Filter(
            cfg.device_path@,
        ),
        cfg.device_path@.len() == 0 ==> (cfg.keyboard_name matches Some(name) ==> step(
            &cfg,
            m,
            RunEvent::Ready,
        ) == Step::Discover(name@)),
        cfg.keyboard_name is None ==> step(&cfg, m, RunEvent::Ready) == Step::Filter(
            cfg.device_path@,
        ),
{
}

/// The keyboard that was found is the one that is filtered, whatever came
/// before.
pub proof fn law_found_keyboard_is_filtered(cfg: Config, m: RunModel, path: String)
    ensures
        step(&cfg, m, RunEvent::Found(path)) == Step::Filter(path@),
{
}

/// The user is told each time that the keyboard is unplugged, and the loop
/// waits for it to come back.
pub proof fn law_unplugging_is_told_each_time(cfg: Config, m: RunModel)
    ensures
        step(&cfg, m, RunEvent::Disconnected) == Step::Wait(Some(Notice::Disconnected)),
{
}

proof fn lemma_nothing_told_yet(events: Seq<RunEvent>)
    requires
        forall|i: int|
            0 <= i < events.len() ==> !(#[trigger] events[i] is NotFound) && !(events[i] is Found),
    ensures
        remembered_after(
            RunModel { connected_before: false, told_not_found: false },
            events,
        ) == (RunModel { connected_before: false, told_not_found: false }),
    decreases events.len(),
{
    if events.len() > 0 {
        let front = events.drop_last();
        assert forall|i: int| 0 <= i < front.len() implies !(#[trigger] front[i] is NotFound)
            && !(front[i] is Found) by {
            assert(front[i] == events[i]);
        }
        lemma_nothing_told_yet(front);
        assert(!(events[events.len() - 1] is NotFound) && !(events[events.len() - 1] is Found));
    }
}

/// From the start on, the user is told that the keyboard is not there exactly
/// if it is the first time that it is missed and it was never found before.
/// Either way the loop waits.
pub proof fn law_not_found_is_told_the_first_time(cfg: Config, events: Seq<RunEvent>)
    ensures
        ({
            let m = remembered_after(
                RunModel { connected_before: false, told_not_found: false },
                events,
            );
            let first = forall|i: int|
                0 <= i < events.len() ==> !(#[trigger] events[i] is NotFound) && !(events[i]
                    is Found);
            &&& first ==> step(&cfg, m, RunEvent::NotFound) == Step::Wait(Some(Notice::NotFound))
            &&& !first ==> step(&cfg, m, RunEvent::NotFound) == Step::Wait(None)
        }),
{
    let fresh = RunModel { connected_before: false, told_not_found: false };
    if forall|i: int|
        0 <= i < events.len() ==> !(#[trigger] events[i] is NotFound) && !(events[i] is Found) {
        lemma_nothing_told_yet(events);
    } else {
        let at = choose|i: int|
            0 <= i < events.len() && (#[trigger] events[i] is NotFound || events[i] is Found);
        law_not_found_is_told_once(cfg, fresh, events, at);
    }
}

} // verus!
