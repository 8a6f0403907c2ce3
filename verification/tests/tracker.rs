use keyboard_debouncer::filter::Seen;
use keyboard_debouncer::tracker::{
    stamp, Handover, Phase, RecordAction, Recorder, Reply, SetupProgress, SetupStep, TrackEvent, BATCH_LIMIT,
    QUEUE_LIMIT,
};

fn event(ts_ms: u64) -> TrackEvent {
    TrackEvent {
        ts_ms,
        key: 30,
        value: 1,
        suppressed: false,
    }
}

/// Answers every action of the recorder: hands out the events, then closes.
/// Returns the timestamps of the rows that each transaction stored.
fn record(events: Vec<TrackEvent>) -> Vec<Vec<i64>> {
    let mut recorder = Recorder::new();
    let mut left = events.into_iter();
    let mut open = Vec::new();
    let mut stored = Vec::new();
    loop {
        let reply = match recorder.action() {
            RecordAction::Receive | RecordAction::TryReceive => match left.next() {
                Some(event) => Reply::Received(event),
                None => Reply::Nothing,
            },
            RecordAction::Begin | RecordAction::Prepare => Reply::Done,
            RecordAction::Insert(row) => {
                open.push(row.ts_ms);
                Reply::Done
            }
            RecordAction::Commit => {
                stored.push(std::mem::take(&mut open));
                Reply::Done
            }
            RecordAction::Stop => return stored,
        };
        recorder = recorder.reply(reply);
    }
}

#[test]
fn event_is_stamped_in_milliseconds() {
    let seen = Seen {
        key: 30,
        value: 2,
        suppressed: true,
    };
    let ev = stamp(seen, Some((1_700_000_000, 123_999_999)));
    assert_eq!(
        ev,
        TrackEvent {
            ts_ms: 1_700_000_000_123,
            key: 30,
            value: 2,
            suppressed: true
        }
    );
    assert_eq!(stamp(seen, None).ts_ms, 0);
    assert_eq!(
        stamp(seen, Some((u64::MAX, 0))).ts_ms,
        (u64::MAX as u128 * 1000) as u64
    );
}

#[test]
fn row_holds_the_name_of_the_key() {
    let row = event(7).row();
    assert_eq!(row.ts_ms, 7);
    assert_eq!(row.key, "KEY_A");
    assert_eq!(row.value, 1);
    assert_eq!(row.suppressed, 0);
    let mut dropped = event(u64::MAX);
    dropped.suppressed = true;
    assert_eq!(dropped.row().suppressed, 1);
    assert_eq!(dropped.row().ts_ms, -1);
    assert_eq!(dropped.row_named(String::from("x")).key, "x");
}

#[test]
fn events_are_stored_in_order() {
    let stored = record((0..5).map(event).collect());
    assert_eq!(stored, vec![vec![0, 1, 2, 3, 4]]);
}

#[test]
fn batches_are_limited() {
    assert_eq!(BATCH_LIMIT, 1000);
    assert_eq!(QUEUE_LIMIT, 10000);
    let stored = record((0..2500).map(event).collect());
    let sizes: Vec<usize> = stored.iter().map(|batch| batch.len()).collect();
    assert_eq!(sizes, vec![1000, 1000, 500]);
    let all: Vec<i64> = stored.into_iter().flatten().collect();
    assert_eq!(all, (0..2500).collect::<Vec<i64>>());
}

#[test]
fn failure_drops_the_batch_without_a_commit() {
    let mut recorder = Recorder::new()
        .reply(Reply::Received(event(1)))
        .reply(Reply::Received(event(2)))
        .reply(Reply::Nothing);
    assert!(matches!(recorder.action(), RecordAction::Begin));
    recorder = recorder.reply(Reply::Done);
    assert!(matches!(recorder.action(), RecordAction::Prepare));
    recorder = recorder.reply(Reply::Done);
    assert!(matches!(recorder.action(), RecordAction::Insert(row) if row.ts_ms == 1));
    recorder = recorder.reply(Reply::Done);
    assert_eq!(recorder.phase(), Phase::Inserting(1));
    recorder = recorder.reply(Reply::Failed);
    assert!(matches!(recorder.action(), RecordAction::Receive));
    recorder = recorder.reply(Reply::Nothing);
    assert!(matches!(recorder.action(), RecordAction::Stop));
}

#[test]
fn reply_that_does_not_fit_changes_nothing() {
    let recorder = Recorder::new().reply(Reply::Done).reply(Reply::Failed);
    assert_eq!(recorder.phase(), Phase::Waiting);
    let recorder = recorder.reply(Reply::Nothing).reply(Reply::Received(event(1)));
    assert_eq!(recorder.phase(), Phase::Stopped);
}

#[test]
fn vital_setup_steps_end_tracking() {
    assert!(SetupStep::Directories.ends_tracking());
    assert!(SetupStep::Open.ends_tracking());
    assert!(SetupStep::Table.ends_tracking());
    assert!(!SetupStep::WalMode.ends_tracking());
    assert!(!SetupStep::SynchronousMode.ends_tracking());
    assert!(!SetupStep::Index.ends_tracking());
}

#[test]
fn failures_in_words() {
    assert_eq!(
        SetupStep::Directories.failure("k.db", "e"),
        "Tracker: Failed to create directories for DB: e"
    );
    assert_eq!(
        SetupStep::Open.failure("k.db", "e"),
        "Tracker: Failed to open database at k.db: e"
    );
    assert_eq!(
        SetupStep::WalMode.failure("k.db", "e"),
        "Tracker: Failed to enable WAL mode: e"
    );
    assert_eq!(
        SetupStep::SynchronousMode.failure("k.db", "e"),
        "Tracker: Failed to set synchronous mode: e"
    );
    assert_eq!(
        SetupStep::Table.failure("k.db", "e"),
        "Tracker: Failed to create table: e"
    );
    assert_eq!(
        SetupStep::Index.failure("k.db", "e"),
        "Tracker: Failed to create index: e"
    );
    assert_eq!(
        Phase::Beginning.failure("e"),
        "Tracker: Failed to start transaction: e"
    );
    assert_eq!(
        Phase::Preparing.failure("e"),
        "Tracker: Failed to prepare statement"
    );
    assert_eq!(
        Phase::Inserting(3).failure("e"),
        "Tracker: Failed to insert event: e"
    );
    assert_eq!(
        Phase::Committing.failure("e"),
        "Tracker: Failed to commit transaction: e"
    );
    assert_eq!(Phase::Waiting.failure("e"), "");
}

/// The steps that are done, and how making the database ready ends, where the
/// given steps fail.
fn set_up(directory_missing: bool, failing: &[SetupStep]) -> (Vec<SetupStep>, SetupProgress) {
    let mut steps = Vec::new();
    let mut progress = SetupProgress::begin(directory_missing);
    while let SetupProgress::Do(step) = progress {
        steps.push(step);
        progress = step.progress(!failing.contains(&step));
    }
    (steps, progress)
}

#[test]
fn database_is_made_ready_in_order() {
    let all = vec![
        SetupStep::Directories,
        SetupStep::Open,
        SetupStep::WalMode,
        SetupStep::SynchronousMode,
        SetupStep::Table,
        SetupStep::Index,
    ];
    assert_eq!(set_up(true, &[]), (all.clone(), SetupProgress::Ready));
    assert_eq!(
        set_up(false, &[]),
        (all[1..].to_vec(), SetupProgress::Ready)
    );
    let minor = [
        SetupStep::WalMode,
        SetupStep::SynchronousMode,
        SetupStep::Index,
    ];
    assert_eq!(set_up(true, &minor), (all, SetupProgress::Ready));
}

#[test]
fn vital_failure_gives_the_record_up() {
    assert_eq!(
        set_up(true, &[SetupStep::Directories]),
        (vec![SetupStep::Directories], SetupProgress::GiveUp)
    );
    assert_eq!(
        set_up(false, &[SetupStep::Open]),
        (vec![SetupStep::Open], SetupProgress::GiveUp)
    );
    let (steps, end) = set_up(false, &[SetupStep::Table]);
    assert_eq!(steps.last(), Some(&SetupStep::Table));
    assert_eq!(end, SetupProgress::GiveUp);
}

#[test]
fn recording_goes_on_after_a_failure() {
    let mut recorder = Recorder::new();
    let mut left = vec![event(1), event(2), event(3)].into_iter();
    let mut open = Vec::new();
    let mut stored: Vec<i64> = Vec::new();
    let mut collect = true;
    loop {
        let reply = match recorder.action() {
            RecordAction::Receive => match left.next() {
                Some(event) => Reply::Received(event),
                None => Reply::Nothing,
            },
            RecordAction::TryReceive => Reply::Nothing,
            RecordAction::Begin | RecordAction::Prepare => Reply::Done,
            RecordAction::Insert(row) => {
                if row.ts_ms == 2 && collect {
                    collect = false;
                    open.clear();
                    Reply::Failed
                } else {
                    open.push(row.ts_ms);
                    Reply::Done
                }
            }
            RecordAction::Commit => {
                stored.append(&mut open);
                Reply::Done
            }
            RecordAction::Stop => break,
        };
        recorder = recorder.reply(reply);
    }
    assert_eq!(stored, vec![1, 3]);
}

#[test]
fn only_a_full_queue_is_told() {
    assert_eq!(
        Handover::Full.notice(),
        Some("Tracker: Buffer full, dropping event (is disk too slow?)")
    );
    assert_eq!(Handover::Queued.notice(), None);
    assert_eq!(Handover::Closed.notice(), None);
}
