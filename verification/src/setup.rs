//! Taking the keyboard over: opening it, waiting until no key is held,
//! grabbing it, and throwing away what arrived in between.
use vstd::prelude::*;

use crate::device::is_device_disconnected;
use crate::device::is_gone;

verus! {

/// Milliseconds between two looks at the keys that are held.
pub const KEY_POLL_MS: u64 = 5;

/// Milliseconds after the grab before the leftover events are thrown away.
pub const SETTLE_MS: u64 = 50;

/// What has just happened.
#[derive(Debug)]
pub enum SetupEvent {
    /// There is a keyboard to take over.
    Start,
    /// The keyboard was opened.
    Opened,
    /// The virtual device is there.
    VirtualReady,
    /// The virtual device could not be made.
    VirtualFailed,
    /// Whether any key is held.
    KeysHeld(bool),
    /// A wait is over.
    Waited,
    /// The keyboard was grabbed.
    Grabbed,
    /// Whether events are waiting to be read.
    Pending(bool),
    /// The events that were waiting have been read.
    Drained,
    /// Filtering came to an end.
    Finished,
    /// The keyboard failed, with the error number, where there is one, of the
    /// error and of each error that led to it.
    Failed(Vec<Option<i32>>),
}

/// What to do next.
#[derive(Clone, Copy, Debug, PartialEq, Eq, Structural)]
pub enum SetupAction {
    /// Open the keyboard.
    Open,
    /// Make the virtual device.
    BuildVirtual,
    /// See whether any key is held.
    ReadKeys,
    /// Wait for so many milliseconds.
    Wait(u64),
    /// Grab the keyboard.
    Grab,
    /// See whether events are waiting.
    Poll,
    /// Read the events that are waiting and throw them away.
    Drain,
    /// Filter events.
    Filter,
    /// End, and wait for the keyboard to be plugged in again.
    EndUnplugged,
    /// End with the error.
    EndFailed,
}

/// Which action is under way.
#[derive(Clone, Copy, Debug, PartialEq, Eq, Structural)]
pub enum SetupPhase {
    Idle,
    Opening,
    Building,
    Reading,
    Pausing,
    Grabbing,
    Settling,
    Polling,
    Draining,
    Filtering,
    Ended,
}

/// The error numbers say that the keyboard is gone.
pub open spec fn says_gone(codes: Seq<Option<i32>>) -> bool {
    exists|i: int| 0 <= i < codes.len() && is_gone(#[trigger] codes[i])
}

/// The phase after an event. An event that the action under way cannot give
/// ends the setup.
pub open spec fn setup_after(phase: SetupPhase, event: SetupEvent) -> SetupPhase {
    match (phase, event) {
        (SetupPhase::Idle, SetupEvent::Start) => SetupPhase::Opening,
        (SetupPhase::Opening, SetupEvent::Opened) => SetupPhase::Building,
        (SetupPhase::Building, SetupEvent::VirtualReady) => SetupPhase::Reading,
        (SetupPhase::Reading, SetupEvent::KeysHeld(held)) => if held {
            SetupPhase::Pausing
        } else {
            SetupPhase::Grabbing
        },
        (SetupPhase::Pausing, SetupEvent::Waited) => SetupPhase::Reading,
        (SetupPhase::Grabbing, SetupEvent::Grabbed) => SetupPhase::Settling,
        (SetupPhase::Settling, SetupEvent::Waited) => SetupPhase::Polling,
        (SetupPhase::Polling, SetupEvent::Pending(pending)) => if pending {
            SetupPhase::Draining
        } else {
            SetupPhase::Filtering
        },
        (SetupPhase::Draining, SetupEvent::Drained) => SetupPhase::Polling,
        _ => SetupPhase::Ended,
    }
}

/// The action of a phase. An ended setup asks for nothing more.
pub open spec fn setup_action(phase: SetupPhase) -> SetupAction {
    match phase {
        SetupPhase::Opening => SetupAction::Open,
        SetupPhase::Building => SetupAction::BuildVirtual,
        SetupPhase::Reading => SetupAction::ReadKeys,
        SetupPhase::Pausing => SetupAction::Wait(KEY_POLL_MS),
        SetupPhase::Grabbing => SetupAction::Grab,
        SetupPhase::Settling => SetupAction::Wait(SETTLE_MS),
        SetupPhase::Polling => SetupAction::Poll,
        SetupPhase::Draining => SetupAction::Drain,
        SetupPhase::Filtering => SetupAction::Filter,
        SetupPhase::Idle => SetupAction::EndFailed,
        SetupPhase::Ended => SetupAction::EndFailed,
    }
}

/// What an event asks for. The keyboard counts as unplugged where its error
/// says that it is gone, and where filtering ended without an error.
pub open spec fn setup_step(phase: SetupPhase, event: SetupEvent) -> SetupAction {
    match event {
        SetupEvent::Failed(codes) => if says_gone(codes@) {
            SetupAction::EndUnplugged
        } else {
            SetupAction::EndFailed
        },
        SetupEvent::Finished => if phase is Filtering {
            SetupAction::EndUnplugged
        } else {
            SetupAction::EndFailed
        },
        _ => setup_action(setup_after(phase, event)),
    }
}

/// How far the keyboard has been taken over.
pub struct Setup {
    phase: SetupPhase,
}

impl View for Setup {
    type V = SetupPhase;

    closed spec fn view(&self) -> SetupPhase {
        self.phase
    }
}

impl SetupPhase {
    /// The action of the phase.
    fn action(self) -> (r: SetupAction)
        ensures
            r == setup_action(self),
    {
        match self {
            SetupPhase::Opening => SetupAction::Open,
            SetupPhase::Building => SetupAction::BuildVirtual,
            SetupPhase::Reading => SetupAction::ReadKeys,
            SetupPhase::Pausing => SetupAction::Wait(KEY_POLL_MS),
            SetupPhase::Grabbing => SetupAction::Grab,
            SetupPhase::Settling => SetupAction::Wait(SETTLE_MS),
            SetupPhase::Polling => SetupAction::Poll,
            SetupPhase::Draining => SetupAction::Drain,
            SetupPhase::Filtering => SetupAction::Filter,
            SetupPhase::Idle | SetupPhase::Ended => SetupAction::EndFailed,
        }
    }

    /// The phase after an event.
    fn after(self, event: &SetupEvent) -> (r: SetupPhase)
        ensures
            r == setup_after(self, *event),
    {
        match (self, event) {
            (SetupPhase::Idle, SetupEvent::Start) => SetupPhase::Opening,
            (SetupPhase::Opening, SetupEvent::Opened) => SetupPhase::Building,
            (SetupPhase::Building, SetupEvent::VirtualReady) => SetupPhase::Reading,
            (SetupPhase::Reading, SetupEvent::KeysHeld(held)) => if *held {
                SetupPhase::Pausing
            } else {
                SetupPhase::Grabbing
            },
            (SetupPhase::Pausing, SetupEvent::Waited) => SetupPhase::Reading,
            (SetupPhase::Grabbing, SetupEvent::Grabbed) => SetupPhase::Settling,
            (SetupPhase::Settling, SetupEvent::Waited) => SetupPhase::Polling,
            (SetupPhase::Polling, SetupEvent::Pending(pending)) => if *pending {
                SetupPhase::Draining
            } else {
                SetupPhase::Filtering
            },
            (SetupPhase::Draining, SetupEvent::Drained) => SetupPhase::Polling,
            _ => SetupPhase::Ended,
        }
    }
}

impl SetupEvent {
    /// The event for a look at the keys. Where they could not be read, none
    /// counts as held.
    pub fn keys_read(held: Option<bool>) -> (r: SetupEvent)
        ensures
            r == SetupEvent::KeysHeld(held == Some(true)),
    {
        match held {
            Some(held) => SetupEvent::KeysHeld(held),
            None => SetupEvent::KeysHeld(false),
        }
    }
}

impl Setup {
    /// A keyboard of which nothing has been taken over.
    pub fn new() -> (r: Self)
        ensures
            r@ == SetupPhase::Idle,
    {
        Setup { phase: SetupPhase::Idle }
    }

    /// Takes in an event and says what to do next. The keyboard is grabbed
    /// only when no key is held, or the programs that read it would never see
    /// the release.
    pub fn next(&mut self, event: SetupEvent) -> (r: SetupAction)
        ensures
            r == setup_step(old(self)@, event),
            final(self)@ == setup_after(old(self)@, event),
            r is Grab ==> event == SetupEvent::KeysHeld(false),
            r is Filter ==> event == SetupEvent::Pending(false),
            event matches SetupEvent::Failed(codes) ==> (r is EndUnplugged <==> exists|i: int|
                0 <= i < codes@.len() && is_gone(#[trigger] codes@[i])),
    {
        let phase: SetupPhase = self.phase;
        self.phase = phase.after(&event);
        match &event {
            SetupEvent::Failed(codes) => {
                if is_device_disconnected(codes) {
                    SetupAction::EndUnplugged
                } else {
                    SetupAction::EndFailed
                }
            },
            SetupEvent::Finished => match phase {
                SetupPhase::Filtering => SetupAction::EndUnplugged,
                _ => SetupAction::EndFailed,
            },
            _ => self.phase.action(),
        }
    }
}

/// The phase after all the events.
pub open spec fn setup_after_all(events: Seq<SetupEvent>) -> SetupPhase
    decreases events.len(),
{
    if events.len() == 0 {
        SetupPhase::Idle
    } else {
        setup_after(setup_after_all(events.drop_last()), events.last())
    }
}

/// The keyboard is grabbed.
pub open spec fn is_grabbed(phase: SetupPhase) -> bool {
    phase is Settling || phase is Polling || phase is Draining || phase is Filtering
}

/// At `i` the keyboard was grabbed, right after no key was held.
pub open spec fn grabs_at(events: Seq<SetupEvent>, i: int) -> bool {
    0 < i < events.len() && events[i] is Grabbed && events[i - 1] == SetupEvent::KeysHeld(false)
}

/// The keyboard is only ever held by a grab that came right after no key was
/// held.
pub proof fn law_grab_waits_for_release(events: Seq<SetupEvent>)
    ensures
        is_grabbed(setup_after_all(events)) ==> exists|i: int| grabs_at(events, i),
    decreases events.len(),
{
    if events.len() > 0 {
        let front = events.drop_last();
        law_grab_waits_for_release(front);
        if is_grabbed(setup_after_all(events)) {
            if is_grabbed(setup_after_all(front)) {
                let i = choose|i: int| grabs_at(front, i);
                assert(front[i] == events[i] && front[i - 1] == events[i - 1]);
                assert(grabs_at(events, i));
            } else {
                assert(setup_after_all(front) is Grabbing);
                assert(front.last() == events[events.len() - 2]);
                assert(grabs_at(events, events.len() - 1));
            }
        }
    }
}

/// Filtering starts on an empty queue: after the grab the waiting events are
/// thrown away until none is left.
pub proof fn law_filter_starts_on_empty_queue(events: Seq<SetupEvent>)
    requires
        setup_after_all(events) is Filtering,
    ensures
        events.last() == SetupEvent::Pending(false),
        exists|i: int| grabs_at(events, i) && i < events.len() - 1,
{
    law_grab_waits_for_release(events);
    let i = choose|i: int| grabs_at(events, i);
    assert(grabs_at(events, i) && i < events.len() - 1);
}

/// Nothing goes on once the setup has ended.
pub proof fn law_ended_setup_stays_ended(event: SetupEvent)
    ensures
        setup_after(SetupPhase::Ended, event) is Ended,
        setup_step(SetupPhase::Ended, event) is EndUnplugged || setup_step(
            SetupPhase::Ended,
            event,
        ) is EndFailed,
{
}

/// The keyboard is taken over step by step. A held key is looked at again
/// after five milliseconds; the grab is given fifty to settle, and what is
/// waiting then is thrown away until nothing is left.
pub proof fn law_takeover_goes_step_by_step()
    ensures
        setup_step(SetupPhase::Idle, SetupEvent::Start) is Open,
        setup_after(SetupPhase::Idle, SetupEvent::Start) is Opening,
        setup_step(SetupPhase::Opening, SetupEvent::Opened) is BuildVirtual,
        setup_after(SetupPhase::Opening, SetupEvent::Opened) is Building,
        setup_step(SetupPhase::Building, SetupEvent::VirtualReady) is ReadKeys,
        setup_after(SetupPhase::Building, SetupEvent::VirtualReady) is Reading,
        setup_step(SetupPhase::Reading, SetupEvent::KeysHeld(true)) == SetupAction::Wait(5),
        setup_after(SetupPhase::Reading, SetupEvent::KeysHeld(true)) is Pausing,
        setup_step(SetupPhase::Pausing, SetupEvent::Waited) is ReadKeys,
        setup_after(SetupPhase::Pausing, SetupEvent::Waited) is Reading,
        setup_step(SetupPhase::Reading, SetupEvent::KeysHeld(false)) is Grab,
        setup_after(SetupPhase::Reading, SetupEvent::KeysHeld(false)) is Grabbing,
        setup_step(SetupPhase::Grabbing, SetupEvent::Grabbed) == SetupAction::Wait(50),
        setup_after(SetupPhase::Grabbing, SetupEvent::Grabbed) is Settling,
        setup_step(SetupPhase::Settling, SetupEvent::Waited) is Poll,
        setup_after(SetupPhase::Settling, SetupEvent::Waited) is Polling,
        setup_step(SetupPhase::Polling, SetupEvent::Pending(true)) is Drain,
        setup_after(SetupPhase::Polling, SetupEvent::Pending(true)) is Draining,
        setup_step(SetupPhase::Draining, SetupEvent::Drained) is Poll,
        setup_after(SetupPhase::Draining, SetupEvent::Drained) is Polling,
        setup_step(SetupPhase::Polling, SetupEvent::Pending(false)) is Filter,
        setup_after(SetupPhase::Polling, SetupEvent::Pending(false)) is Filtering,
        setup_step(SetupPhase::Filtering, SetupEvent::Finished) is EndUnplugged,
        setup_step(SetupPhase::Building, SetupEvent::VirtualFailed) is EndFailed,
{
}

/// A keyboard that fails ends the takeover in every phase. It counts as
/// unplugged if and only if one of the error numbers says that there is no
/// such device, or no such file.
pub proof fn law_failing_keyboard_ends_the_takeover(phase: SetupPhase, codes: Vec<Option<i32>>)
    ensures
        setup_after(phase, SetupEvent::Failed(codes)) is Ended,
        setup_step(phase, SetupEvent::Failed(codes)) is EndUnplugged || setup_step(
            phase,
            SetupEvent::Failed(codes),
        ) is EndFailed,
        setup_step(phase, SetupEvent::Failed(codes)) is EndUnplugged <==> exists|i: int|
            0 <= i < codes@.len() && (#[trigger] codes@[i] == Some(19i32) || codes@[i] == Some(
                2i32,
            )),
{
    if says_gone(codes@) {
        let i = choose|i: int| 0 <= i < codes@.len() && is_gone(#[trigger] codes@[i]);
        assert(codes@[i] == Some(19i32) || codes@[i] == Some(2i32));
    }
    if exists|i: int|
        0 <= i < codes@.len() && (#[trigger] codes@[i] == Some(19i32) || codes@[i] == Some(2i32)) {
        let i = choose|i: int|
            0 <= i < codes@.len() && (#[trigger] codes@[i] == Some(19i32) || codes@[i] == Some(
                2i32,
            ));
        assert(is_gone(codes@[i]));
    }
}

/// The takeover only ever goes forward by what was asked for: the event has to
/// be the one that the action under way gives.
pub proof fn law_takeover_needs_its_answer(phase: SetupPhase, event: SetupEvent)
    requires
        !(setup_after(phase, event) is Ended),
    ensures
        match phase {
            SetupPhase::Idle => event is Start,
            SetupPhase::Opening => event is Opened,
            SetupPhase::Building => event is VirtualReady,
            SetupPhase::Reading => event is KeysHeld,
            SetupPhase::Pausing => event is Waited,
            SetupPhase::Grabbing => event is Grabbed,
            SetupPhase::Settling => event is Waited,
            SetupPhase::Polling => event is Pending,
            SetupPhase::Draining => event is Drained,
            SetupPhase::Filtering => false,
            SetupPhase::Ended => false,
        },
{
}

} // verus!
