use keyboard_debouncer::setup::{Setup, SetupAction, SetupEvent, KEY_POLL_MS, SETTLE_MS};

/// A setup that has reached the point at which it looks at the keys.
fn reading_keys() -> Setup {
    let mut setup = Setup::new();
    assert_eq!(setup.next(SetupEvent::Start), SetupAction::Open);
    assert_eq!(setup.next(SetupEvent::Opened), SetupAction::BuildVirtual);
    assert_eq!(
        setup.next(SetupEvent::VirtualReady),
        SetupAction::ReadKeys
    );
    setup
}

/// A setup that has grabbed the keyboard and looks for leftover events.
fn polling() -> Setup {
    let mut setup = reading_keys();
    assert_eq!(setup.next(SetupEvent::KeysHeld(false)), SetupAction::Grab);
    assert_eq!(setup.next(SetupEvent::Grabbed), SetupAction::Wait(50));
    assert_eq!(setup.next(SetupEvent::Waited), SetupAction::Poll);
    setup
}

#[test]
fn keyboard_is_grabbed_once_no_key_is_held() {
    assert_eq!(KEY_POLL_MS, 5);
    assert_eq!(SETTLE_MS, 50);
    let mut setup = reading_keys();
    for _ in 0..3 {
        assert_eq!(setup.next(SetupEvent::KeysHeld(true)), SetupAction::Wait(5));
        assert_eq!(setup.next(SetupEvent::Waited), SetupAction::ReadKeys);
    }
    assert_eq!(setup.next(SetupEvent::KeysHeld(false)), SetupAction::Grab);
}

#[test]
fn unreadable_keys_count_as_released() {
    assert!(matches!(
        SetupEvent::keys_read(None),
        SetupEvent::KeysHeld(false)
    ));
    assert!(matches!(
        SetupEvent::keys_read(Some(false)),
        SetupEvent::KeysHeld(false)
    ));
    assert!(matches!(
        SetupEvent::keys_read(Some(true)),
        SetupEvent::KeysHeld(true)
    ));
}

#[test]
fn leftover_events_are_drained_until_none_is_left() {
    let mut setup = polling();
    for _ in 0..3 {
        assert_eq!(setup.next(SetupEvent::Pending(true)), SetupAction::Drain);
        assert_eq!(setup.next(SetupEvent::Drained), SetupAction::Poll);
    }
    assert_eq!(setup.next(SetupEvent::Pending(false)), SetupAction::Filter);
    assert_eq!(setup.next(SetupEvent::Finished), SetupAction::EndUnplugged);
}

#[test]
fn unplugged_keyboard_is_told_from_other_errors_at_any_time() {
    let gone = || SetupEvent::Failed(vec![None, Some(19)]);
    let missing = || SetupEvent::Failed(vec![Some(2)]);
    let other = || SetupEvent::Failed(vec![Some(13), None]);

    let mut setup = Setup::new();
    setup.next(SetupEvent::Start);
    assert_eq!(setup.next(missing()), SetupAction::EndUnplugged);

    let mut setup = reading_keys();
    setup.next(SetupEvent::KeysHeld(false));
    assert_eq!(setup.next(gone()), SetupAction::EndUnplugged);

    let mut setup = polling();
    setup.next(SetupEvent::Pending(true));
    assert_eq!(setup.next(gone()), SetupAction::EndUnplugged);

    let mut setup = polling();
    setup.next(SetupEvent::Pending(false));
    assert_eq!(setup.next(other()), SetupAction::EndFailed);
}

#[test]
fn missing_virtual_device_is_fatal() {
    let mut setup = Setup::new();
    setup.next(SetupEvent::Start);
    setup.next(SetupEvent::Opened);
    assert_eq!(
        setup.next(SetupEvent::VirtualFailed),
        SetupAction::EndFailed
    );
}

#[test]
fn nothing_goes_on_after_the_end() {
    let mut setup = reading_keys();
    assert_eq!(setup.next(SetupEvent::Grabbed), SetupAction::EndFailed);
    assert_eq!(
        setup.next(SetupEvent::KeysHeld(false)),
        SetupAction::EndFailed
    );
    assert_eq!(setup.next(SetupEvent::Finished), SetupAction::EndFailed);
}
