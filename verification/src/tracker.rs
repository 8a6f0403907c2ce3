//! The key health record: what is stored of every key event, and in which
//! batches.
use vstd::prelude::*;
use vstd::string::*;

use crate::filter::Seen;
use crate::keys::evdev_key_name;
use crate::keys::key_name;

verus! {

/// The most events that one transaction stores.
pub const BATCH_LIMIT: usize = 1000;

/// The events that can wait for the recorder before one is dropped.
pub const QUEUE_LIMIT: usize = 10000;

/// A key event with the time at which it was seen, in milliseconds since the
/// start of 1970.
#[derive(Clone, Copy, Debug, PartialEq, Eq)]
pub struct TrackEvent {
    pub ts_ms: u64,
    pub key: u16,
    pub value: i32,
    pub suppressed: bool,
}

/// A row of the table of key events.
#[derive(Debug, PartialEq, Eq)]
pub struct TrackRow {
    pub ts_ms: i64,
    pub key: String,
    pub value: i32,
    pub suppressed: i32,
}

/// Milliseconds in a time since the start of 1970, as far as they fit.
pub open spec fn epoch_ms(since_epoch: Option<(u64, u32)>) -> int {
    match since_epoch {
        Some((secs, nanos)) => (secs * 1000 + nanos as int / 1_000_000)
            % 0x1_0000_0000_0000_0000,
        None => 0,
    }
}

/// The time and the key event together. `since_epoch` holds the seconds and
/// nanoseconds since the start of 1970; a clock that is set before that gives
/// the time zero.
pub fn stamp(seen: Seen, since_epoch: Option<(u64, u32)>) -> (r: TrackEvent)
    ensures
        r.ts_ms == epoch_ms(since_epoch),
        since_epoch is None ==> r.ts_ms == 0,
        since_epoch matches Some((secs, nanos)) ==> (secs * 1000 + nanos as int / 1_000_000
            <= u64::MAX ==> r.ts_ms == secs * 1000 + nanos as int / 1_000_000),
        r.key == seen.key,
        r.value == seen.value,
        r.suppressed == seen.suppressed,
{
    let ts_ms: u64 = match since_epoch {
        Some((secs, nanos)) => {
            let ms: u128 = (secs as u128) * 1000 + (nanos as u128) / 1_000_000;
            let low: u128 = ms % 0x1_0000_0000_0000_0000;
            low as u64
        },
        None => 0,
    };
    TrackEvent { ts_ms, key: seen.key, value: seen.value, suppressed: seen.suppressed }
}

/// `row` stores `event`: the name of the key, and 1 for a suppressed event.
pub open spec fn is_row(row: TrackRow, event: TrackEvent) -> bool {
    &&& row.ts_ms == event.ts_ms as i64
    &&& row.key@ == evdev_key_name(event.key)
    &&& row.value == event.value
    &&& row.suppressed == if event.suppressed {
        1i32
    } else {
        0i32
    }
}

impl TrackEvent {
    /// The row that stores the event.
    pub fn row(&self) -> (r: TrackRow)
        ensures
            is_row(r, *self),
            r.value == self.value,
            r.key@ == evdev_key_name(self.key),
            r.suppressed == 1 <==> self.suppressed,
            r.suppressed == 0 <==> !self.suppressed,
            self.ts_ms <= i64::MAX ==> r.ts_ms == self.ts_ms,
    {
        self.row_named(key_name(self.key))
    }

    /// The row that stores the event under the given name of its key.
    pub fn row_named(&self, key: String) -> (r: TrackRow)
        ensures
            r.ts_ms == self.ts_ms as i64,
            r.key == key,
            r.value == self.value,
            r.suppressed == if self.suppressed {
                1i32
            } else {
                0i32
            },
    {
        TrackRow {
            ts_ms: #[verifier::truncate] (self.ts_ms as i64),
            key,
            value: self.value,
            suppressed: if self.suppressed {
                1
            } else {
                0
            },
        }
    }
}

/// What came of handing an event to the recorder.
#[derive(Clone, Copy, Debug, PartialEq, Eq, Structural)]
pub enum Handover {
    /// The event waits to be recorded.
    Queued,
    /// The queue is full, and the event is dropped.
    Full,
    /// The recorder is gone, and the event is dropped.
    Closed,
}

/// What the user is told of an event that was handed over: only that one was
/// dropped because the recorder is too slow.
pub open spec fn handover_text(handover: Handover) -> Option<Seq<char>> {
    match handover {
        Handover::Full => Some("Tracker: Buffer full, dropping event (is disk too slow?)"@),
        _ => None,
    }
}

impl Handover {
    /// What to tell the user, where there is something to tell.
    pub fn notice(self) -> (r: Option<&'static str>)
        ensures
            (match r {
                Some(words) => Some(words@),
                None => None,
            }) == handover_text(self),
    {
        match self {
            Handover::Full => Some("Tracker: Buffer full, dropping event (is disk too slow?)"),
            Handover::Queued | Handover::Closed => None,
        }
    }
}

/// Where the recorder stands.
#[derive(Clone, Copy, Debug, PartialEq, Eq, Structural)]
pub enum Phase {
    /// Waiting for the first event of a batch.
    Waiting,
    /// Collecting what else is there.
    Draining,
    /// Opening a transaction.
    Beginning,
    /// Preparing the statement.
    Preparing,
    /// Storing the event of this number.
    Inserting(usize),
    /// Closing the transaction.
    Committing,
    /// No more events will come.
    Stopped,
}

/// What the recorder asks for.
#[derive(Debug)]
pub enum RecordAction {
    /// Wait for an event.
    Receive,
    /// Take an event, if there is one.
    TryReceive,
    /// Open a transaction.
    Begin,
    /// Prepare the statement that stores a row.
    Prepare,
    /// Store the row.
    Insert(TrackRow),
    /// Close the transaction, so that the rows stay.
    Commit,
    /// End.
    Stop,
}

/// What came of an action.
#[derive(Clone, Copy, Debug)]
pub enum Reply {
    /// An event was received.
    Received(TrackEvent),
    /// No event was there to be received.
    Nothing,
    /// The database did what was asked.
    Done,
    /// The database did not do what was asked. An open transaction is undone.
    Failed,
}

/// The phase of the recorder and the events of the current batch.
pub struct RecorderModel {
    pub phase: Phase,
    pub batch: Seq<TrackEvent>,
}

/// Waiting for the next batch.
pub open spec fn next_batch() -> RecorderModel {
    RecorderModel { phase: Phase::Waiting, batch: Seq::empty() }
}

/// What a recorder is in between two actions.
pub open spec fn valid(m: RecorderModel) -> bool {
    match m.phase {
        Phase::Waiting => m.batch.len() == 0,
        Phase::Stopped => m.batch.len() == 0,
        Phase::Draining => 0 < m.batch.len() < BATCH_LIMIT,
        Phase::Inserting(i) => i < m.batch.len() <= BATCH_LIMIT,
        _ => 0 < m.batch.len() <= BATCH_LIMIT,
    }
}

/// The reply is one that the action of the phase can have.
pub open spec fn fits(phase: Phase, reply: Reply) -> bool {
    match phase {
        Phase::Waiting => reply is Received || reply is Nothing,
        Phase::Draining => reply is Received || reply is Nothing,
        Phase::Stopped => false,
        _ => reply is Done || reply is Failed,
    }
}

/// The recorder after a reply. A reply that does not fit changes nothing.
pub open spec fn advance(m: RecorderModel, reply: Reply) -> RecorderModel {
    if !fits(m.phase, reply) {
        m
    } else {
        match reply {
            Reply::Received(event) => {
                let batch = m.batch.push(event);
                let phase = if batch.len() < BATCH_LIMIT {
                    Phase::Draining
                } else {
                    Phase::Beginning
                };
                RecorderModel { phase, batch }
            },
            Reply::Nothing => RecorderModel {
                phase: if m.phase is Waiting {
                    Phase::Stopped
                } else {
                    Phase::Beginning
                },
                ..m
            },
            Reply::Failed => next_batch(),
            Reply::Done => match m.phase {
                Phase::Beginning => RecorderModel { phase: Phase::Preparing, ..m },
                Phase::Preparing => RecorderModel { phase: Phase::Inserting(0), ..m },
                Phase::Inserting(i) => RecorderModel {
                    phase: if i + 1 < m.batch.len() {
                        Phase::Inserting((i + 1) as usize)
                    } else {
                        Phase::Committing
                    },
                    ..m
                },
                _ => next_batch(),
            },
        }
    }
}

/// `action` is what the recorder asks for.
pub open spec fn asks_for(m: RecorderModel, action: RecordAction) -> bool {
    match m.phase {
        Phase::Waiting => action is Receive,
        Phase::Draining => action is TryReceive,
        Phase::Beginning => action is Begin,
        Phase::Preparing => action is Prepare,
        Phase::Inserting(i) => match action {
            RecordAction::Insert(row) => is_row(row, m.batch[i as int]),
            _ => false,
        },
        Phase::Committing => action is Commit,
        Phase::Stopped => action is Stop,
    }
}

/// Stores the events that are handed to it, in batches of one transaction
/// each.
pub struct Recorder {
    phase: Phase,
    batch: Vec<TrackEvent>,
}

impl View for Recorder {
    type V = RecorderModel;

    closed spec fn view(&self) -> RecorderModel {
        RecorderModel { phase: self.phase, batch: self.batch@ }
    }
}

impl Recorder {
    /// The recorder is between two actions.
    #[verifier::type_invariant]
    spec fn inv(self) -> bool {
        valid(RecorderModel { phase: self.phase, batch: self.batch@ })
    }

    /// A recorder that has received nothing.
    pub fn new() -> (r: Self)
        ensures
            r@ == next_batch(),
            valid(r@),
    {
        Recorder { phase: Phase::Waiting, batch: Vec::new() }
    }

    /// What the recorder asks for.
    pub fn action(&self) -> (r: RecordAction)
        ensures
            valid(self@),
            asks_for(self@, r),
            self@.phase matches Phase::Inserting(i) ==> (r matches RecordAction::Insert(row)
                && row.value == self@.batch[i as int].value),
    {
        proof {
            use_type_invariant(self);
        }
        match self.phase {
            Phase::Waiting => RecordAction::Receive,
            Phase::Draining => RecordAction::TryReceive,
            Phase::Beginning => RecordAction::Begin,
            Phase::Preparing => RecordAction::Prepare,
            Phase::Inserting(i) => RecordAction::Insert(self.batch[i].row()),
            Phase::Committing => RecordAction::Commit,
            Phase::Stopped => RecordAction::Stop,
        }
    }

    /// Where the recorder stands.
    pub fn phase(&self) -> (r: Phase)
        ensures
            r == self@.phase,
    {
        self.phase
    }

    /// Takes in what came of the action.
    pub fn reply(self, reply: Reply) -> (r: Self)
        ensures
            valid(self@),
            valid(r@),
            r@ == advance(self@, reply),
    {
        proof {
            use_type_invariant(&self);
        }
        let phase: Phase = self.phase;
        let mut batch: Vec<TrackEvent> = self.batch;
        match (phase, reply) {
            (Phase::Waiting, Reply::Received(event)) | (Phase::Draining, Reply::Received(event)) => {
                batch.push(event);
                if batch.len() < BATCH_LIMIT {
                    Recorder { phase: Phase::Draining, batch }
                } else {
                    Recorder { phase: Phase::Beginning, batch }
                }
            },
            (Phase::Waiting, Reply::Nothing) => Recorder { phase: Phase::Stopped, batch },
            (Phase::Draining, Reply::Nothing) => Recorder { phase: Phase::Beginning, batch },
            (Phase::Beginning, Reply::Done) => Recorder { phase: Phase::Preparing, batch },
            (Phase::Preparing, Reply::Done) => Recorder { phase: Phase::Inserting(0), batch },
            (Phase::Inserting(i), Reply::Done) => {
                if i + 1 < batch.len() {
                    Recorder { phase: Phase::Inserting(i + 1), batch }
                } else {
                    Recorder { phase: Phase::Committing, batch }
                }
            },
            (Phase::Committing, Reply::Done) | (Phase::Beginning, Reply::Failed) | (
                Phase::Preparing,
                Reply::Failed,
            ) | (Phase::Inserting(_), Reply::Failed) | (Phase::Committing, Reply::Failed) => {
                batch.clear();
                Recorder { phase: Phase::Waiting, batch }
            },
            _ => Recorder { phase, batch },
        }
    }
}

/// A step in making the database ready.
#[derive(Clone, Copy, Debug, PartialEq, Eq, Structural)]
pub enum SetupStep {
    /// Make the directories that the file stands in.
    Directories,
    /// Open the file.
    Open,
    /// Switch to a write-ahead log.
    WalMode,
    /// Relax when the disk is waited for.
    SynchronousMode,
    /// Make the table of key events.
    Table,
    /// Make the index over the time.
    Index,
}

/// Without this step there is nothing to record to.
pub open spec fn is_vital(step: SetupStep) -> bool {
    step is Directories || step is Open || step is Table
}

/// The message for a step that failed.
pub open spec fn setup_failure_text(
    step: SetupStep,
    path: Seq<char>,
    error: Seq<char>,
) -> Seq<char> {
    match step {
        SetupStep::Directories => "Tracker: Failed to create directories for DB: "@ + error,
        SetupStep::Open => "Tracker: Failed to open database at "@ + path + ": "@ + error,
        SetupStep::WalMode => "Tracker: Failed to enable WAL mode: "@ + error,
        SetupStep::SynchronousMode => "Tracker: Failed to set synchronous mode: "@ + error,
        SetupStep::Table => "Tracker: Failed to create table: "@ + error,
        SetupStep::Index => "Tracker: Failed to create index: "@ + error,
    }
}

impl SetupStep {
    /// Whether recording is given up when the step fails.
    pub fn ends_tracking(self) -> (r: bool)
        ensures
            r == is_vital(self),
    {
        match self {
            SetupStep::Directories | SetupStep::Open | SetupStep::Table => true,
            SetupStep::WalMode | SetupStep::SynchronousMode | SetupStep::Index => false,
        }
    }

    /// The message for the step having failed on the database at `path`.
    pub fn failure(self, path: &str, error: &str) -> (r: String)
        ensures
            r@ == setup_failure_text(self, path@, error@),
    {
        match self {
            SetupStep::Directories => "Tracker: Failed to create directories for DB: ".to_owned(),
            SetupStep::Open => "Tracker: Failed to open database at ".to_owned().concat(
                path,
            ).concat(": "),
            SetupStep::WalMode => "Tracker: Failed to enable WAL mode: ".to_owned(),
            SetupStep::SynchronousMode => "Tracker: Failed to set synchronous mode: ".to_owned(),
            SetupStep::Table => "Tracker: Failed to create table: ".to_owned(),
            SetupStep::Index => "Tracker: Failed to create index: ".to_owned(),
        }.concat(error)
    }
}

/// How far the database has been made ready.
#[derive(Clone, Copy, Debug, PartialEq, Eq, Structural)]
pub enum SetupProgress {
    /// Do this step.
    Do(SetupStep),
    /// The database is ready.
    Ready,
    /// There will be no record.
    GiveUp,
}

/// The first step. The directories are made only where they are missing.
pub open spec fn first_setup(directory_missing: bool) -> SetupProgress {
    SetupProgress::Do(
        if directory_missing {
            SetupStep::Directories
        } else {
            SetupStep::Open
        },
    )
}

/// What comes after a step that was done.
pub open spec fn setup_behind(step: SetupStep) -> SetupProgress {
    match step {
        SetupStep::Directories => SetupProgress::Do(SetupStep::Open),
        SetupStep::Open => SetupProgress::Do(SetupStep::WalMode),
        SetupStep::WalMode => SetupProgress::Do(SetupStep::SynchronousMode),
        SetupStep::SynchronousMode => SetupProgress::Do(SetupStep::Table),
        SetupStep::Table => SetupProgress::Do(SetupStep::Index),
        SetupStep::Index => SetupProgress::Ready,
    }
}

/// What comes after a step. A failed step is passed over, unless it is vital.
pub open spec fn setup_progress(step: SetupStep, succeeded: bool) -> SetupProgress {
    if !succeeded && is_vital(step) {
        SetupProgress::GiveUp
    } else {
        setup_behind(step)
    }
}

impl SetupProgress {
    /// How making the database ready begins.
    pub fn begin(directory_missing: bool) -> (r: SetupProgress)
        ensures
            r == first_setup(directory_missing),
    {
        if directory_missing {
            SetupProgress::Do(SetupStep::Directories)
        } else {
            SetupProgress::Do(SetupStep::Open)
        }
    }
}

impl SetupStep {
    /// What comes after the step.
    pub fn progress(self, succeeded: bool) -> (r: SetupProgress)
        ensures
            r == setup_progress(self, succeeded),
    {
        if !succeeded && self.ends_tracking() {
            return SetupProgress::GiveUp;
        }
        match self {
            SetupStep::Directories => SetupProgress::Do(SetupStep::Open),
            SetupStep::Open => SetupProgress::Do(SetupStep::WalMode),
            SetupStep::WalMode => SetupProgress::Do(SetupStep::SynchronousMode),
            SetupStep::SynchronousMode => SetupProgress::Do(SetupStep::Table),
            SetupStep::Table => SetupProgress::Do(SetupStep::Index),
            SetupStep::Index => SetupProgress::Ready,
        }
    }
}

/// Where making the database ready stands, once each step has gone as
/// `outcomes` says.
pub open spec fn setup_progress_after(
    directory_missing: bool,
    outcomes: Seq<bool>,
) -> SetupProgress
    decreases outcomes.len(),
{
    if outcomes.len() == 0 {
        first_setup(directory_missing)
    } else {
        match setup_progress_after(directory_missing, outcomes.drop_last()) {
            SetupProgress::Do(step) => setup_progress(step, outcomes.last()),
            done => done,
        }
    }
}

/// A step was reached at `i`, and it succeeded.
pub open spec fn succeeded_at(
    directory_missing: bool,
    outcomes: Seq<bool>,
    step: SetupStep,
    i: int,
) -> bool {
    &&& 0 <= i < outcomes.len()
    &&& setup_progress_after(directory_missing, outcomes.take(i)) == SetupProgress::Do(step)
    &&& outcomes[i]
}

/// The step stands before where the setup is.
pub open spec fn is_behind(step: SetupStep, progress: SetupProgress) -> bool {
    match step {
        SetupStep::Directories => progress != SetupProgress::Do(SetupStep::Directories),
        SetupStep::Open => !(progress == SetupProgress::Do(SetupStep::Directories) || progress
            == SetupProgress::Do(SetupStep::Open)),
        _ => progress == SetupProgress::Do(SetupStep::Index) || progress is Ready,
    }
}

proof fn lemma_vital_steps_succeeded(
    directory_missing: bool,
    outcomes: Seq<bool>,
    step: SetupStep,
)
    requires
        is_vital(step),
        step is Directories ==> directory_missing,
        !(setup_progress_after(directory_missing, outcomes) is GiveUp),
        is_behind(step, setup_progress_after(directory_missing, outcomes)),
    ensures
        exists|i: int| succeeded_at(directory_missing, outcomes, step, i),
    decreases outcomes.len(),
{
    if outcomes.len() > 0 {
        let front = outcomes.drop_last();
        let n = outcomes.len() - 1;
        let before = setup_progress_after(directory_missing, front);
        assert(outcomes.take(n) =~= front);
        if before == SetupProgress::Do(step) {
            assert(succeeded_at(directory_missing, outcomes, step, n));
        } else {
            lemma_vital_steps_succeeded(directory_missing, front, step);
            let i = choose|i: int| succeeded_at(directory_missing, front, step, i);
            assert(outcomes.take(i) =~= front.take(i));
            assert(succeeded_at(directory_missing, outcomes, step, i));
        }
    }
}

/// Recording begins only on a database that was opened and has its table, in
/// directories that were there or have been made.
pub proof fn law_ready_database_has_its_table(directory_missing: bool, outcomes: Seq<bool>)
    requires
        setup_progress_after(directory_missing, outcomes) is Ready,
    ensures
        exists|i: int| succeeded_at(directory_missing, outcomes, SetupStep::Open, i),
        exists|i: int| succeeded_at(directory_missing, outcomes, SetupStep::Table, i),
        directory_missing ==> exists|i: int|
            succeeded_at(directory_missing, outcomes, SetupStep::Directories, i),
{
    if directory_missing {
        lemma_vital_steps_succeeded(directory_missing, outcomes, SetupStep::Directories);
    }
    lemma_vital_steps_succeeded(directory_missing, outcomes, SetupStep::Open);
    lemma_vital_steps_succeeded(directory_missing, outcomes, SetupStep::Table);
}

/// The message for the database having failed in a phase.
pub open spec fn write_failure_text(phase: Phase, error: Seq<char>) -> Seq<char> {
    match phase {
        Phase::Beginning => "Tracker: Failed to start transaction: "@ + error,
        Phase::Preparing => "Tracker: Failed to prepare statement"@,
        Phase::Inserting(_) => "Tracker: Failed to insert event: "@ + error,
        Phase::Committing => "Tracker: Failed to commit transaction: "@ + error,
        _ => Seq::empty(),
    }
}

impl Phase {
    /// The message for the database having failed in this phase; empty where
    /// the database is not asked for anything.
    pub fn failure(self, error: &str) -> (r: String)
        ensures
            r@ == write_failure_text(self, error@),
    {
        match self {
            Phase::Beginning => "Tracker: Failed to start transaction: ".to_owned().concat(error),
            Phase::Preparing => "Tracker: Failed to prepare statement".to_owned(),
            Phase::Inserting(_) => "Tracker: Failed to insert event: ".to_owned().concat(error),
            Phase::Committing => "Tracker: Failed to commit transaction: ".to_owned().concat(
                error,
            ),
            _ => String::new(),
        }
    }
}

/// The recorder after all the replies.
pub open spec fn advance_all(m: RecorderModel, replies: Seq<Reply>) -> RecorderModel
    decreases replies.len(),
{
    if replies.len() == 0 {
        m
    } else {
        advance(advance_all(m, replies.drop_last()), replies.last())
    }
}

/// Each reply is one that the action before it can have.
pub open spec fn all_fit(m: RecorderModel, replies: Seq<Reply>) -> bool
    decreases replies.len(),
{
    replies.len() > 0 ==> {
        &&& all_fit(m, replies.drop_last())
        &&& fits(advance_all(m, replies.drop_last()).phase, replies.last())
    }
}

/// The events among the replies, in order.
pub open spec fn received(replies: Seq<Reply>) -> Seq<TrackEvent>
    decreases replies.len(),
{
    if replies.len() == 0 {
        Seq::empty()
    } else {
        let before = received(replies.drop_last());
        match replies.last() {
            Reply::Received(event) => before.push(event),
            _ => before,
        }
    }
}

/// The events whose rows the database was asked to store since the last
/// transaction was opened, and said that it did.
pub open spec fn inserted(m: RecorderModel, replies: Seq<Reply>) -> Seq<TrackEvent>
    decreases replies.len(),
{
    if replies.len() == 0 {
        Seq::empty()
    } else {
        let front = replies.drop_last();
        let at = advance_all(m, front);
        match at.phase {
            Phase::Inserting(i) => if replies.last() is Done {
                inserted(m, front).push(at.batch[i as int])
            } else {
                Seq::empty()
            },
            Phase::Committing => inserted(m, front),
            _ => Seq::empty(),
        }
    }
}

/// The events that are stored for good, in order: with each transaction that
/// the database closed, those inserted in it.
pub open spec fn stored(m: RecorderModel, replies: Seq<Reply>) -> Seq<TrackEvent>
    decreases replies.len(),
{
    if replies.len() == 0 {
        Seq::empty()
    } else {
        let front = replies.drop_last();
        if advance_all(m, front).phase is Committing && replies.last() is Done {
            stored(m, front) + inserted(m, front)
        } else {
            stored(m, front)
        }
    }
}

/// A recorder stays valid: it never collects more than one batch holds, and
/// never asks for a row that it does not have.
pub proof fn law_recorder_stays_valid(m: RecorderModel, replies: Seq<Reply>)
    requires
        valid(m),
    ensures
        valid(advance_all(m, replies)),
        advance_all(m, replies).batch.len() <= BATCH_LIMIT,
    decreases replies.len(),
{
    if replies.len() > 0 {
        law_recorder_stays_valid(m, replies.drop_last());
    }
}

/// The rows of a transaction are stored one by one in the order in which the
/// events came, and the transaction is closed only once each row of the batch
/// has been stored.
pub proof fn law_commit_stores_the_whole_batch(replies: Seq<Reply>)
    requires
        all_fit(next_batch(), replies),
    ensures
        ({
            let m = advance_all(next_batch(), replies);
            match m.phase {
                Phase::Inserting(i) => inserted(next_batch(), replies) == m.batch.take(i as int),
                Phase::Committing => inserted(next_batch(), replies) == m.batch,
                _ => true,
            }
        }),
    decreases replies.len(),
{
    if replies.len() > 0 {
        let front = replies.drop_last();
        law_commit_stores_the_whole_batch(front);
        law_recorder_stays_valid(next_batch(), front);
        let at = advance_all(next_batch(), front);
        match at.phase {
            Phase::Inserting(i) => {
                assert(at.batch.take(i as int).push(at.batch[i as int]) =~= at.batch.take(i + 1));
                assert(at.batch.take(at.batch.len() as int) =~= at.batch);
            },
            Phase::Preparing => {
                assert(at.batch.take(0) =~= Seq::empty());
            },
            _ => {},
        }
    }
}

/// Nothing gets lost: as long as the database does not fail, every event that
/// was received is stored, in the order in which it came, but for those of
/// the batch that is still open.
pub proof fn law_every_event_is_stored(replies: Seq<Reply>)
    requires
        all_fit(next_batch(), replies),
        forall|i: int| 0 <= i < replies.len() ==> !(#[trigger] replies[i] is Failed),
    ensures
        stored(next_batch(), replies) + advance_all(next_batch(), replies).batch == received(
            replies,
        ),
    decreases replies.len(),
{
    if replies.len() > 0 {
        let front = replies.drop_last();
        assert forall|i: int| 0 <= i < front.len() implies !(#[trigger] front[i] is Failed) by {
            assert(front[i] == replies[i]);
        }
        law_every_event_is_stored(front);
        law_commit_stores_the_whole_batch(front);
        let at = advance_all(next_batch(), front);
        assert(!(replies[replies.len() - 1] is Failed));
        match replies.last() {
            Reply::Received(event) => {
                assert(stored(next_batch(), front) + at.batch.push(event) =~= (stored(
                    next_batch(),
                    front,
                ) + at.batch).push(event));
            },
            _ => {
                assert(stored(next_batch(), replies) + advance_all(next_batch(), replies).batch
                    =~= stored(next_batch(), front) + at.batch);
            },
        }
    } else {
        assert(stored(next_batch(), replies) + next_batch().batch =~= Seq::empty());
    }
}

/// A failure costs the current batch and nothing else: what was stored before
/// stays, and the recorder goes on with the next event.
pub proof fn law_failure_costs_one_batch(replies: Seq<Reply>, reply: Reply)
    requires
        reply is Failed,
        fits(advance_all(next_batch(), replies).phase, reply),
    ensures
        stored(next_batch(), replies.push(reply)) == stored(next_batch(), replies),
        advance_all(next_batch(), replies.push(reply)) == next_batch(),
{
    assert(replies.push(reply).drop_last() =~= replies);
}

proof fn lemma_advance_in_two(m: RecorderModel, front: Seq<Reply>, later: Seq<Reply>)
    ensures
        advance_all(m, front + later) == advance_all(advance_all(m, front), later),
    decreases later.len(),
{
    if later.len() == 0 {
        assert(front + later =~= front);
    } else {
        lemma_advance_in_two(m, front, later.drop_last());
        assert((front + later).drop_last() =~= front + later.drop_last());
    }
}

proof fn lemma_inserted_since(front: Seq<Reply>, later: Seq<Reply>)
    requires
        advance_all(next_batch(), front) == next_batch(),
        later.len() > 0,
    ensures
        inserted(next_batch(), front + later) == inserted(next_batch(), later),
    decreases later.len(),
{
    let back = later.drop_last();
    assert((front + later).drop_last() =~= front + back);
    lemma_advance_in_two(next_batch(), front, back);
    if back.len() > 0 {
        lemma_inserted_since(front, back);
    }
}

/// Recording goes on: whatever happened up to the end of a batch, failures
/// among it, what comes afterwards is stored as by a new recorder, behind what
/// was stored before.
pub proof fn law_recording_goes_on(front: Seq<Reply>, later: Seq<Reply>)
    requires
        advance_all(next_batch(), front) == next_batch(),
    ensures
        advance_all(next_batch(), front + later) == advance_all(next_batch(), later),
        stored(next_batch(), front + later) == stored(next_batch(), front) + stored(
            next_batch(),
            later,
        ),
    decreases later.len(),
{
    lemma_advance_in_two(next_batch(), front, later);
    if later.len() == 0 {
        assert(front + later =~= front);
        assert(stored(next_batch(), front) + Seq::<TrackEvent>::empty() =~= stored(
            next_batch(),
            front,
        ));
    } else {
        let back = later.drop_last();
        law_recording_goes_on(front, back);
        assert((front + later).drop_last() =~= front + back);
        if advance_all(next_batch(), back).phase is Committing && later.last() is Done {
            lemma_inserted_since(front, back);
            assert(stored(next_batch(), front) + stored(next_batch(), back) + inserted(
                next_batch(),
                back,
            ) =~= stored(next_batch(), front) + (stored(next_batch(), back) + inserted(
                next_batch(),
                back,
            )));
        }
    }
}

/// A failure costs no event but those of its batch: every event received
/// afterwards is stored, in order, as long as the database does not fail
/// again, but for those of the batch that is still open.
pub proof fn law_events_after_a_failure_are_stored(front: Seq<Reply>, later: Seq<Reply>)
    requires
        advance_all(next_batch(), front) == next_batch(),
        all_fit(next_batch(), later),
        forall|i: int| 0 <= i < later.len() ==> !(#[trigger] later[i] is Failed),
    ensures
        stored(next_batch(), front + later) + advance_all(next_batch(), front + later).batch
            == stored(next_batch(), front) + received(later),
{
    law_recording_goes_on(front, later);
    law_every_event_is_stored(later);
    assert(stored(next_batch(), front) + stored(next_batch(), later) + advance_all(
        next_batch(),
        later,
    ).batch =~= stored(next_batch(), front) + (stored(next_batch(), later) + advance_all(
        next_batch(),
        later,
    ).batch));
}

/// The row tells all of its event: the time, the name of the key, the value as
/// it came, and whether the event was suppressed. Two events of the same row
/// differ at most in a key of the same name.
pub proof fn law_row_tells_its_event(row: TrackRow, event: TrackEvent, other: TrackEvent)
    requires
        is_row(row, event),
    ensures
        row.value == event.value,
        row.suppressed == 1 <==> event.suppressed,
        row.suppressed == 0 <==> !event.suppressed,
        row.key@ == evdev_key_name(event.key),
        row.ts_ms as u64 == event.ts_ms,
        event.ts_ms <= i64::MAX ==> row.ts_ms == event.ts_ms,
        is_row(row, other) ==> other.value == event.value && other.suppressed == event.suppressed
            && other.ts_ms == event.ts_ms && evdev_key_name(other.key) == evdev_key_name(event.key),
{
    let here = event.ts_ms;
    let there = other.ts_ms;
    assert((here as i64) as u64 == here) by (bit_vector);
    assert((there as i64) as u64 == there) by (bit_vector);
}

/// The time of an event counts whole milliseconds: a second is a thousand of
/// them, and a million nanoseconds are one.
pub proof fn law_time_counts_milliseconds(secs: u64, nanos: u32)
    ensures
        epoch_ms(None) == 0,
        secs * 1000 + nanos as int / 1_000_000 <= u64::MAX ==> epoch_ms(Some((secs, nanos)))
            == secs * 1000 + nanos as int / 1_000_000,
        0 <= epoch_ms(Some((secs, nanos))) <= u64::MAX,
        (secs * 1000 + nanos as int / 1_000_000 - epoch_ms(Some((secs, nanos)))) % (u64::MAX + 1)
            == 0,
{
}

/// The row that is to be stored at place `i` is that of the event at place `i`
/// of the batch.
pub proof fn law_row_asked_for_is_of_its_event(m: RecorderModel, i: usize, action: RecordAction)
    requires
        m.phase == Phase::Inserting(i),
        asks_for(m, action),
    ensures
        match action {
            RecordAction::Insert(row) => {
                &&& row.value == m.batch[i as int].value
                &&& row.suppressed == if m.batch[i as int].suppressed {
                    1i32
                } else {
                    0i32
                }
                &&& row.key@ == evdev_key_name(m.batch[i as int].key)
                &&& row.ts_ms as u64 == m.batch[i as int].ts_ms
            },
            _ => false,
        },
{
    let ts_ms = m.batch[i as int].ts_ms;
    assert((ts_ms as i64) as u64 == ts_ms) by (bit_vector);
}

/// What the recorder asks for tells where it stands: it waits only between two
/// batches, takes what is there only while it collects one, and touches the
/// database only once the batch is complete.
pub proof fn law_action_tells_the_phase(m: RecorderModel, action: RecordAction)
    requires
        asks_for(m, action),
    ensures
        action is Receive <==> m.phase is Waiting,
        action is TryReceive <==> m.phase is Draining,
        action is Begin <==> m.phase is Beginning,
        action is Prepare <==> m.phase is Preparing,
        action is Insert <==> m.phase is Inserting,
        action is Commit <==> m.phase is Committing,
        action is Stop <==> m.phase is Stopped,
{
}

/// The replies that hand over these events, one after the other.
pub open spec fn handing_over(events: Seq<TrackEvent>) -> Seq<Reply> {
    Seq::new(events.len(), |i: int| Reply::Received(events[i]))
}

/// The events that are there go into one batch, in order, up to a thousand. A
/// batch of a thousand is complete, and a smaller one is once nothing more is
/// there.
pub proof fn law_batch_takes_what_is_there(events: Seq<TrackEvent>)
    requires
        0 < events.len() <= 1000,
    ensures
        ({
            let m = advance_all(next_batch(), handing_over(events));
            &&& m.batch == events
            &&& events.len() < 1000 ==> m.phase is Draining && advance(m, Reply::Nothing)
                == (RecorderModel { phase: Phase::Beginning, batch: events })
            &&& events.len() == 1000 ==> m.phase is Beginning
        }),
    decreases events.len(),
{
    let replies = handing_over(events);
    let front = events.drop_last();
    let before = advance_all(next_batch(), handing_over(front));
    assert(replies.drop_last() =~= handing_over(front));
    assert(replies.last() == Reply::Received(events.last()));
    if events.len() > 1 {
        law_batch_takes_what_is_there(front);
    } else {
        assert(before == next_batch());
    }
    assert(before.batch =~= front);
    assert(front.push(events.last()) =~= events);
    assert(advance_all(next_batch(), replies) == advance(before, Reply::Received(events.last())));
}

/// A complete batch takes one step of the database after the other: open,
/// prepare, one row for each event in order, close. Then the next batch is
/// waited for.
pub proof fn law_batch_is_stored_step_by_step(batch: Seq<TrackEvent>, done: nat)
    requires
        0 < batch.len() <= 1000,
        done <= batch.len() + 3,
    ensures
        advance_all(
            RecorderModel { phase: Phase::Beginning, batch },
            Seq::new(done, |i: int| Reply::Done),
        ) == if done == 0 {
            RecorderModel { phase: Phase::Beginning, batch }
        } else if done == 1 {
            RecorderModel { phase: Phase::Preparing, batch }
        } else if done < batch.len() + 2 {
            RecorderModel { phase: Phase::Inserting((done - 2) as usize), batch }
        } else if done == batch.len() + 2 {
            RecorderModel { phase: Phase::Committing, batch }
        } else {
            RecorderModel { phase: Phase::Waiting, batch: Seq::empty() }
        },
    decreases done,
{
    if done > 0 {
        let before = (done - 1) as nat;
        law_batch_is_stored_step_by_step(batch, before);
        assert(Seq::new(done, |i: int| Reply::Done).drop_last() =~= Seq::new(
            before,
            |i: int| Reply::Done,
        ));
    }
}

/// The recorder stops when it waits for an event and none will come, and only
/// then; once stopped it stays so.
pub proof fn law_recorder_stops_when_nothing_comes(m: RecorderModel, reply: Reply)
    ensures
        !(m.phase is Stopped) ==> (advance(m, reply).phase is Stopped <==> m.phase is Waiting
            && reply is Nothing),
        m.phase is Stopped ==> advance(m, reply) == m,
{
}

/// The database is made ready in this order: the directories where they are
/// missing, the file, its two modes, the table, the index. A mode or the index
/// can fail; without directories, file or table there is no record.
pub proof fn law_database_is_made_ready_in_order(succeeded: bool)
    ensures
        first_setup(true) == SetupProgress::Do(SetupStep::Directories),
        first_setup(false) == SetupProgress::Do(SetupStep::Open),
        setup_progress(SetupStep::Directories, true) == SetupProgress::Do(SetupStep::Open),
        setup_progress(SetupStep::Open, true) == SetupProgress::Do(SetupStep::WalMode),
        setup_progress(SetupStep::WalMode, succeeded) == SetupProgress::Do(
            SetupStep::SynchronousMode,
        ),
        setup_progress(SetupStep::SynchronousMode, succeeded) == SetupProgress::Do(
            SetupStep::Table,
        ),
        setup_progress(SetupStep::Table, true) == SetupProgress::Do(SetupStep::Index),
        setup_progress(SetupStep::Index, succeeded) is Ready,
        setup_progress(SetupStep::Directories, false) is GiveUp,
        setup_progress(SetupStep::Open, false) is GiveUp,
        setup_progress(SetupStep::Table, false) is GiveUp,
{
}

/// The user hears of an event that could not be handed over only where the
/// queue was full.
pub proof fn law_only_a_full_queue_is_told(handover: Handover)
    ensures
        handover_text(handover) is Some <==> handover is Full,
        handover is Full ==> handover_text(handover) == Some(
            "Tracker: Buffer full, dropping event (is disk too slow?)"@,
        ),
{
}

/// The messages of the recorder end with the error that they are about, and
/// the one on opening names the file. Only a statement that cannot be prepared
/// is told without its error.
pub proof fn law_recorder_messages(path: Seq<char>, error: Seq<char>, i: usize)
    ensures
        setup_failure_text(SetupStep::Directories, path, error)
            == "Tracker: Failed to create directories for DB: "@ + error,
        setup_failure_text(SetupStep::Open, path, error) == "Tracker: Failed to open database at "@
            + path + ": "@ + error,
        setup_failure_text(SetupStep::WalMode, path, error)
            == "Tracker: Failed to enable WAL mode: "@ + error,
        setup_failure_text(SetupStep::SynchronousMode, path, error)
            == "Tracker: Failed to set synchronous mode: "@ + error,
        setup_failure_text(SetupStep::Table, path, error) == "Tracker: Failed to create table: "@
            + error,
        setup_failure_text(SetupStep::Index, path, error) == "Tracker: Failed to create index: "@
            + error,
        write_failure_text(Phase::Beginning, error) == "Tracker: Failed to start transaction: "@
            + error,
        write_failure_text(Phase::Preparing, error) == "Tracker: Failed to prepare statement"@,
        write_failure_text(Phase::Inserting(i), error) == "Tracker: Failed to insert event: "@
            + error,
        write_failure_text(Phase::Committing, error) == "Tracker: Failed to commit transaction: "@
            + error,
{
}

} // verus!
