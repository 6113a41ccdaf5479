//! The loop around the subscription: when to wait, pull, back off, write the
//! checkpoint and stop.

use vstd::prelude::*;

use crate::checkpoint::ChannelPosition;
use crate::subscription::WaitResult;
use crate::text::text_eq;
use crate::time::{Span, Tick};

verus! {

/// The first pause after a failed pull, in milliseconds.
pub const MIN_ERROR_BACKOFF_MS: u64 = 100;

/// The longest pause after a failed pull, in milliseconds.
pub const MAX_ERROR_BACKOFF_MS: u64 = 5000;

/// How often the health of the channels is reported, in milliseconds.
pub const HEALTH_INTERVAL_MS: u64 = 30_000;

// ---------------------------------------------------------------------------
// Acknowledgements
// ---------------------------------------------------------------------------
/// How the checkpoint follows the events that were sent.
#[derive(Debug, Clone, Copy, PartialEq, Eq, Structural)]
pub enum Finalizer {
    /// It is written at once.
    Sync,
    /// It is written when the events were acknowledged.
    Async,
}

/// What becomes of the positions of a batch.
#[derive(Debug, Clone, Copy, PartialEq, Eq, Structural)]
pub enum FinalizeAction {
    /// Write them to the checkpoint.
    WriteCheckpoint,
    /// Write them when the batch is acknowledged.
    Register,
    /// Say that an acknowledgement is not waited for.
    WarnReceiverIgnored,
    /// Say that the positions may be lost.
    WarnNoReceiver,
}

impl Finalizer {
    /// The finalizer for a source with or without acknowledgements.
    pub fn new(acknowledgements: bool) -> (finalizer: Finalizer)
        ensures
            finalizer == if acknowledgements {
                Finalizer::Async
            } else {
                Finalizer::Sync
            },
    {
        if acknowledgements {
            Finalizer::Async
        } else {
            Finalizer::Sync
        }
    }

    /// What becomes of the positions of a batch that was sent.
    pub fn finalize(self, has_receiver: bool) -> (action: FinalizeAction)
        ensures
            action == match (self, has_receiver) {
                (Finalizer::Sync, false) => FinalizeAction::WriteCheckpoint,
                (Finalizer::Async, true) => FinalizeAction::Register,
                (Finalizer::Sync, true) => FinalizeAction::WarnReceiverIgnored,
                (Finalizer::Async, false) => FinalizeAction::WarnNoReceiver,
            },
    {
        match (self, has_receiver) {
            (Finalizer::Sync, false) => FinalizeAction::WriteCheckpoint,
            (Finalizer::Async, true) => FinalizeAction::Register,
            (Finalizer::Sync, true) => FinalizeAction::WarnReceiverIgnored,
            (Finalizer::Async, false) => FinalizeAction::WarnNoReceiver,
        }
    }
}

/// How a batch fared downstream.
#[derive(Debug, Clone, Copy, PartialEq, Eq, Structural)]
pub enum BatchStatus {
    Delivered,
    Errored,
    Rejected,
}

/// Whether an acknowledged batch moves the checkpoint: only where it was
/// delivered.
pub fn apply_ack(status: BatchStatus) -> (write: bool)
    ensures
        write == (status == BatchStatus::Delivered),
{
    status == BatchStatus::Delivered
}

/// The names of the channels of some positions, separated by commas.
pub open spec fn joined_channels(positions: Seq<ChannelPosition>) -> Seq<char>
    decreases positions.len(),
{
    if positions.len() == 0 {
        Seq::empty()
    } else if positions.len() == 1 {
        positions[0].channel@
    } else {
        joined_channels(positions.drop_last()) + ", "@ + positions.last().channel@
    }
}

/// The names of the channels of some positions, separated by commas.
pub fn channel_list(positions: &Vec<ChannelPosition>) -> (list: String)
    ensures
        list@ == joined_channels(positions@),
{
    let mut list = String::new();
    let mut i: usize = 0;
    assert(list@ =~= joined_channels(positions@.take(0)));
    while i < positions.len()
        invariant
            i <= positions@.len(),
            list@ == joined_channels(positions@.take(i as int)),
        decreases positions.len() - i,
    {
        let ghost next = positions@.take(i + 1);
        let ghost before = list@;
        assert(next.drop_last() =~= positions@.take(i as int));
        assert(next.last() == positions@[i as int]);
        if i > 0 {
            list.append(", ");
        }
        list.append(positions[i].channel.as_str());
        assert(list@ =~= joined_channels(next)) by {
            if i == 0 {
                assert(before =~= Seq::<char>::empty());
            }
        }
        i += 1;
    }
    assert(positions@.take(i as int) =~= positions@);
    list
}

// ---------------------------------------------------------------------------
// A batch of events
// ---------------------------------------------------------------------------
/// What became of one event of a batch.
#[derive(Debug)]
pub struct EventOutcome {
    pub channel: String,
    /// The event's size, where it could be converted.
    pub byte_size: Option<u64>,
}

/// A batch in numbers.
#[derive(Debug)]
pub struct BatchTally {
    /// Events that were converted.
    pub events: usize,
    /// Their size.
    pub bytes: u128,
    /// The channels that the batch touched, each once.
    pub channels: Vec<String>,
}

/// The number of events that were converted.
pub open spec fn converted(outcomes: Seq<EventOutcome>) -> nat
    decreases outcomes.len(),
{
    if outcomes.len() == 0 {
        0
    } else {
        converted(outcomes.drop_last()) + if outcomes.last().byte_size is Some {
            1nat
        } else {
            0
        }
    }
}

/// The size of the events that were converted.
pub open spec fn converted_bytes(outcomes: Seq<EventOutcome>) -> nat
    decreases outcomes.len(),
{
    if outcomes.len() == 0 {
        0
    } else {
        converted_bytes(outcomes.drop_last()) + match outcomes.last().byte_size {
            Some(size) => size as nat,
            None => 0,
        }
    }
}

/// Whether a list of names holds each once.
pub open spec fn names_differ(names: Seq<String>) -> bool {
    forall|i: int, j: int|
        0 <= i < j < names.len() ==> (#[trigger] names[i])@ != (#[trigger] names[j])@
}

/// Whether a name is on a list.
pub open spec fn is_listed(names: Seq<String>, name: Seq<char>) -> bool {
    exists|i: int| 0 <= i < names.len() && (#[trigger] names[i])@ == name
}

/// Whether a list holds the channels of a batch, each once: those of events that
/// could not be converted too.
pub open spec fn lists_channels(names: Seq<String>, outcomes: Seq<EventOutcome>) -> bool {
    &&& names_differ(names)
    &&& forall|i: int|
        0 <= i < outcomes.len() ==> is_listed(names, (#[trigger] outcomes[i]).channel@)
    &&& forall|i: int|
        0 <= i < names.len() ==> exists|j: int|
            0 <= j < outcomes.len() && (#[trigger] outcomes[j]).channel@ == (
            #[trigger] names[i])@
}

fn list_name(names: &mut Vec<String>, name: &str)
    requires
        names_differ(old(names)@),
    ensures
        names_differ(final(names)@),
        is_listed(old(names)@, name@) ==> final(names)@ == old(names)@,
        !is_listed(old(names)@, name@) ==> final(names)@.len() == old(names)@.len() + 1
            && final(names)@.drop_last() == old(names)@ && final(names)@.last()@ == name@,
{
    let mut i: usize = 0;
    while i < names.len()
        invariant
            i <= names@.len(),
            names@ == old(names)@,
            names_differ(names@),
            forall|j: int| 0 <= j < i ==> (#[trigger] names@[j])@ != name@,
        decreases names.len() - i,
    {
        if text_eq(names[i].as_str(), name) {
            assert(is_listed(names@, name@));
            return;
        }
        i += 1;
    }
    let ghost before = names@;
    names.push(name.to_owned());
    assert(names@.drop_last() =~= before);
    assert forall|a: int, b: int| 0 <= a < b < names@.len() implies (#[trigger] names@[a])@ != (
    #[trigger] names@[b])@ by {
        assert(names@[a] == before[a]);
        if b < before.len() {
            assert(names@[b] == before[b]);
        }
    }
}

/// Count a batch.
pub fn tally_batch(outcomes: &Vec<EventOutcome>) -> (tally: BatchTally)
    ensures
        tally.events == converted(outcomes@),
        tally.bytes == converted_bytes(outcomes@),
        lists_channels(tally.channels@, outcomes@),
{
    let mut events: usize = 0;
    let mut bytes: u128 = 0;
    let mut channels: Vec<String> = Vec::new();
    let mut i: usize = 0;
    while i < outcomes.len()
        invariant
            i <= outcomes@.len(),
            events <= i,
            bytes <= i * 18_446_744_073_709_551_615,
            events == converted(outcomes@.take(i as int)),
            bytes == converted_bytes(outcomes@.take(i as int)),
            lists_channels(channels@, outcomes@.take(i as int)),
        decreases outcomes.len() - i,
    {
        let ghost past = outcomes@.take(i as int);
        let ghost next = outcomes@.take(i + 1);
        assert(next.drop_last() =~= past);
        assert(next.last() == outcomes@[i as int]);
        let ghost before = channels@;
        list_name(&mut channels, outcomes[i].channel.as_str());
        proof {
            let name = outcomes@[i as int].channel@;
            assert(is_listed(channels@, name)) by {
                if !is_listed(before, name) {
                    assert(channels@[channels@.len() - 1]@ == name);
                }
            }
            assert forall|k: int| 0 <= k < next.len() implies is_listed(
                channels@,
                (#[trigger] next[k]).channel@,
            ) by {
                if k < past.len() {
                    assert(past[k] == next[k]);
                    let at = choose|at: int|
                        0 <= at < before.len() && (#[trigger] before[at])@ == past[k].channel@;
                    assert(channels@[at] == before[at]);
                }
            }
            assert forall|k: int| 0 <= k < channels@.len() implies exists|j: int|
                0 <= j < next.len() && (#[trigger] next[j]).channel@ == (
                #[trigger] channels@[k])@ by {
                if k < before.len() {
                    assert(channels@[k] == before[k]);
                    let j = choose|j: int|
                        0 <= j < past.len() && (#[trigger] past[j]).channel@ == before[k]@;
                    assert(next[j] == past[j]);
                } else {
                    assert(next[i as int].channel@ == channels@[k]@);
                }
            }
        }
        if let Some(size) = outcomes[i].byte_size {
            events += 1;
            bytes += size as u128;
        }
        i += 1;
    }
    assert(outcomes@.take(i as int) =~= outcomes@);
    BatchTally { events, bytes, channels }
}

/// What to do with a batch.
#[derive(Debug, Clone, Copy, PartialEq, Eq, Structural)]
pub enum BatchAction {
    /// Nothing: none of its events could be converted.
    Nothing,
    /// Send its events.
    Send,
    /// End the loop: there is nobody to send to.
    Close,
    /// Hand its positions to the finalizer.
    Finalize,
}

/// Whether a batch is sent: only where it has events.
pub fn begin_batch(tally: &BatchTally) -> (action: BatchAction)
    ensures
        action == if tally.events > 0 {
            BatchAction::Send
        } else {
            BatchAction::Nothing
        },
{
    if tally.events > 0 {
        BatchAction::Send
    } else {
        BatchAction::Nothing
    }
}

/// What to do with a batch once it was sent, or could not be. `positions` is the
/// number of its channels that have a position.
pub fn batch_sent(sent: bool, positions: usize) -> (action: BatchAction)
    ensures
        action == if !sent {
            BatchAction::Close
        } else if positions > 0 {
            BatchAction::Finalize
        } else {
            BatchAction::Nothing
        },
{
    if !sent {
        BatchAction::Close
    } else if positions > 0 {
        BatchAction::Finalize
    } else {
        BatchAction::Nothing
    }
}

// ---------------------------------------------------------------------------
// The loop
// ---------------------------------------------------------------------------
/// The next thing to do.
#[derive(Debug, Clone, Copy, PartialEq, Eq, Structural)]
pub enum LoopAction {
    /// Write the checkpoint for what was acknowledged, without waiting.
    ApplyReadyAcks,
    /// Write the status file.
    WriteStatus,
    /// Wait for events.
    Wait,
    /// Write all positions to the checkpoint.
    FlushBookmarks,
    /// Report how many channels are live.
    ReportHealth,
    /// Pull events; on speculation after a wait that brought none.
    Pull { speculative: bool },
    /// Convert and send the events that were pulled.
    ProcessBatch,
    /// Hand the container of the events back.
    RecycleBuffer,
    /// Report a failed pull, and pause for this many milliseconds.
    BackOff { millis: u64 },
    /// Report a failed pull that ends the loop, then wait for the outstanding
    /// acknowledgements.
    ReportAndDrain,
    /// Wait for the outstanding acknowledgements.
    DrainAcks,
    /// Nothing: the source has ended.
    Done,
}

/// How it went.
#[derive(Debug, Clone, Copy, PartialEq, Eq, Structural)]
pub enum LoopEvent {
    /// The acknowledgements were applied; the status file is due, or not.
    AcksApplied { status_due: bool },
    /// The wait ended.
    Waited { result: WaitResult, now: Tick },
    /// The positions were written.
    Flushed { now: Tick },
    /// The pull brought this many events.
    Pulled { events: usize },
    /// The pull failed.
    PullFailed { recoverable: bool },
    /// The batch was processed; there is nobody to send to any more, or there is.
    Processed { closed: bool },
    /// Anything else was done.
    Finished,
}

/// What is being done.
#[derive(Debug, Clone, Copy, PartialEq, Eq, Structural)]
pub enum LoopStage {
    Acks,
    Status,
    Waiting,
    PeriodicFlush,
    Health,
    Pulling,
    Processing,
    Recycling { closed: bool },
    BackingOff,
    ShutdownFlush,
    Draining,
    Over,
}

/// The loop of a source.
#[derive(Debug, Clone, Copy, PartialEq, Eq, Structural)]
pub struct SourceLoop {
    pub acknowledgements: bool,
    pub checkpoint_interval: Span,
    /// Waits without events between two health reports.
    pub health_interval: u32,
    pub stage: LoopStage,
    /// The pause after the next failed pull, in milliseconds.
    pub error_backoff: u64,
    /// Waits without events since the last health report.
    pub timeout_count: u32,
    /// When the positions were last written.
    pub last_checkpoint: Tick,
}

/// The number of waits between two health reports.
pub open spec fn health_waits(event_timeout_ms: u64) -> u32 {
    if HEALTH_INTERVAL_MS / event_timeout_ms >= 1 {
        (HEALTH_INTERVAL_MS / event_timeout_ms) as u32
    } else {
        1
    }
}

/// The pause after the next failure.
pub open spec fn doubled_backoff(millis: u64) -> u64 {
    if millis * 2 <= MAX_ERROR_BACKOFF_MS {
        (millis * 2) as u64
    } else {
        MAX_ERROR_BACKOFF_MS
    }
}

impl SourceLoop {
    /// At a stage, with something to do.
    pub open spec fn to(self, stage: LoopStage, action: LoopAction) -> (SourceLoop, LoopAction) {
        (SourceLoop { stage, ..self }, action)
    }

    /// The next round.
    pub open spec fn next_round(self) -> (SourceLoop, LoopAction) {
        self.to(LoopStage::Acks, LoopAction::ApplyReadyAcks)
    }

    /// The end: outstanding acknowledgements are waited for first.
    pub open spec fn ended(self) -> (SourceLoop, LoopAction) {
        self.to(LoopStage::Draining, LoopAction::DrainAcks)
    }

    /// Pull.
    pub open spec fn pull(self, speculative: bool) -> (SourceLoop, LoopAction) {
        self.to(LoopStage::Pulling, LoopAction::Pull { speculative })
    }

    /// A wait without events: report the health in its turn, then pull on
    /// speculation.
    pub open spec fn idle(self) -> (SourceLoop, LoopAction) {
        if self.timeout_count + 1 >= self.health_interval {
            SourceLoop { timeout_count: 0, ..self }.to(LoopStage::Health, LoopAction::ReportHealth)
        } else {
            SourceLoop { timeout_count: (self.timeout_count + 1) as u32, ..self }.pull(true)
        }
    }

    /// Whether the positions are due to be written. With acknowledgements they
    /// are written as batches are acknowledged, and only then.
    pub open spec fn flush_due(self, now: Tick) -> bool {
        !self.acknowledgements && self.checkpoint_interval@ <= if now.nanos
            >= self.last_checkpoint.nanos {
            now.nanos - self.last_checkpoint.nanos
        } else {
            0
        }
    }

    /// After a wait.
    pub open spec fn on_waited(self, result: WaitResult, now: Tick) -> (SourceLoop, LoopAction) {
        match result {
            WaitResult::EventsAvailable => self.pull(false),
            WaitResult::Timeout => if self.flush_due(now) {
                self.to(LoopStage::PeriodicFlush, LoopAction::FlushBookmarks)
            } else {
                self.idle()
            },
            WaitResult::Shutdown => if self.acknowledgements {
                self.ended()
            } else {
                self.to(LoopStage::ShutdownFlush, LoopAction::FlushBookmarks)
            },
        }
    }

    /// After an event.
    pub open spec fn after(self, event: LoopEvent) -> (SourceLoop, LoopAction) {
        match (self.stage, event) {
            (LoopStage::Acks, LoopEvent::AcksApplied { status_due }) => if status_due {
                self.to(LoopStage::Status, LoopAction::WriteStatus)
            } else {
                self.to(LoopStage::Waiting, LoopAction::Wait)
            },
            (LoopStage::Status, LoopEvent::Finished) => self.to(
                LoopStage::Waiting,
                LoopAction::Wait,
            ),
            (LoopStage::Waiting, LoopEvent::Waited { result, now }) => self.on_waited(result, now),
            (LoopStage::PeriodicFlush, LoopEvent::Flushed { now }) => SourceLoop {
                last_checkpoint: now,
                ..self
            }.idle(),
            (LoopStage::Health, LoopEvent::Finished) => self.pull(true),
            (LoopStage::Pulling, LoopEvent::Pulled { events }) => {
                let calm = SourceLoop { error_backoff: MIN_ERROR_BACKOFF_MS, ..self };
                if events > 0 {
                    calm.to(LoopStage::Processing, LoopAction::ProcessBatch)
                } else {
                    calm.to(LoopStage::Recycling { closed: false }, LoopAction::RecycleBuffer)
                }
            },
            (LoopStage::Pulling, LoopEvent::PullFailed { recoverable }) => if recoverable {
                SourceLoop { error_backoff: doubled_backoff(self.error_backoff), ..self }.to(
                    LoopStage::BackingOff,
                    LoopAction::BackOff { millis: self.error_backoff },
                )
            } else {
                self.to(LoopStage::Draining, LoopAction::ReportAndDrain)
            },
            (LoopStage::Processing, LoopEvent::Processed { closed }) => self.to(
                LoopStage::Recycling { closed },
                LoopAction::RecycleBuffer,
            ),
            (LoopStage::Recycling { closed }, LoopEvent::Finished) => if closed {
                self.ended()
            } else {
                self.next_round()
            },
            (LoopStage::BackingOff, LoopEvent::Finished) => self.next_round(),
            (LoopStage::ShutdownFlush, LoopEvent::Flushed { .. }) => self.ended(),
            (LoopStage::Draining, LoopEvent::Finished) => self.to(
                LoopStage::Over,
                LoopAction::Done,
            ),
            (LoopStage::Over, _) => self.to(LoopStage::Over, LoopAction::Done),
            _ => self.ended(),
        }
    }

    /// What holds between any two events.
    pub open spec fn wf(self) -> bool {
        &&& 1 <= self.health_interval
        &&& self.timeout_count < self.health_interval
        &&& MIN_ERROR_BACKOFF_MS <= self.error_backoff <= MAX_ERROR_BACKOFF_MS
    }

    /// The loop at its start. The first thing to do is to apply acknowledgements.
    pub fn run_internal(
        acknowledgements: bool,
        checkpoint_interval_secs: u64,
        event_timeout_ms: u64,
        now: Tick,
    ) -> (source: SourceLoop)
        requires
            event_timeout_ms > 0,
        ensures
            source.wf(),
            source.acknowledgements == acknowledgements,
            source.checkpoint_interval@ == checkpoint_interval_secs * 1_000_000_000,
            source.health_interval == health_waits(event_timeout_ms),
            source.stage == LoopStage::Acks,
            source.error_backoff == MIN_ERROR_BACKOFF_MS,
            source.timeout_count == 0,
            source.last_checkpoint == now,
    {
        let waits: u64 = HEALTH_INTERVAL_MS / event_timeout_ms;
        assert(waits <= HEALTH_INTERVAL_MS) by (nonlinear_arith)
            requires
                event_timeout_ms > 0,
                waits == HEALTH_INTERVAL_MS / event_timeout_ms,
        ;
        let health_interval: u32 = if waits >= 1 {
            waits as u32
        } else {
            1
        };
        SourceLoop {
            acknowledgements,
            checkpoint_interval: Span::from_secs(checkpoint_interval_secs),
            health_interval,
            stage: LoopStage::Acks,
            error_backoff: MIN_ERROR_BACKOFF_MS,
            timeout_count: 0,
            last_checkpoint: now,
        }
    }

    fn go(&mut self, stage: LoopStage, action: LoopAction) -> (next: LoopAction)
        ensures
            *final(self) == (SourceLoop { stage, ..*old(self) }),
            next == action,
    {
        self.stage = stage;
        action
    }

    fn be_idle(&mut self) -> (action: LoopAction)
        requires
            old(self).wf(),
        ensures
            *final(self) == old(self).idle().0,
            action == old(self).idle().1,
            final(self).wf(),
    {
        if self.timeout_count + 1 >= self.health_interval {
            self.timeout_count = 0;
            self.go(LoopStage::Health, LoopAction::ReportHealth)
        } else {
            self.timeout_count = self.timeout_count + 1;
            self.go(LoopStage::Pulling, LoopAction::Pull { speculative: true })
        }
    }

    fn waited(&mut self, result: WaitResult, now: Tick) -> (action: LoopAction)
        requires
            old(self).wf(),
        ensures
            *final(self) == old(self).on_waited(result, now).0,
            action == old(self).on_waited(result, now).1,
            final(self).wf(),
    {
        match result {
            WaitResult::EventsAvailable => self.go(
                LoopStage::Pulling,
                LoopAction::Pull { speculative: false },
            ),
            WaitResult::Timeout => {
                let due = !self.acknowledgements && now.since(self.last_checkpoint).as_nanos()
                    >= self.checkpoint_interval.as_nanos();
                if due {
                    self.go(LoopStage::PeriodicFlush, LoopAction::FlushBookmarks)
                } else {
                    self.be_idle()
                }
            },
            WaitResult::Shutdown => {
                if self.acknowledgements {
                    self.go(LoopStage::Draining, LoopAction::DrainAcks)
                } else {
                    self.go(LoopStage::ShutdownFlush, LoopAction::FlushBookmarks)
                }
            },
        }
    }

    /// Move on. Returns the next thing to do.
    pub fn advance(&mut self, event: LoopEvent) -> (action: LoopAction)
        requires
            old(self).wf(),
        ensures
            *final(self) == old(self).after(event).0,
            action == old(self).after(event).1,
            final(self).wf(),
    {
        match (self.stage, event) {
            (LoopStage::Acks, LoopEvent::AcksApplied { status_due }) => {
                if status_due {
                    self.go(LoopStage::Status, LoopAction::WriteStatus)
                } else {
                    self.go(LoopStage::Waiting, LoopAction::Wait)
                }
            },
            (LoopStage::Status, LoopEvent::Finished) => self.go(
                LoopStage::Waiting,
                LoopAction::Wait,
            ),
            (LoopStage::Waiting, LoopEvent::Waited { result, now }) => self.waited(result, now),
            (LoopStage::PeriodicFlush, LoopEvent::Flushed { now }) => {
                self.last_checkpoint = now;
                self.be_idle()
            },
            (LoopStage::Health, LoopEvent::Finished) => self.go(
                LoopStage::Pulling,
                LoopAction::Pull { speculative: true },
            ),
            (LoopStage::Pulling, LoopEvent::Pulled { events }) => {
                self.error_backoff = MIN_ERROR_BACKOFF_MS;
                if events > 0 {
                    self.go(LoopStage::Processing, LoopAction::ProcessBatch)
                } else {
                    self.go(LoopStage::Recycling { closed: false }, LoopAction::RecycleBuffer)
                }
            },
            (LoopStage::Pulling, LoopEvent::PullFailed { recoverable }) => {
                if recoverable {
                    let millis: u64 = self.error_backoff;
                    let doubled: u64 = millis * 2;
                    self.error_backoff = if doubled <= MAX_ERROR_BACKOFF_MS {
                        doubled
                    } else {
                        MAX_ERROR_BACKOFF_MS
                    };
                    self.go(LoopStage::BackingOff, LoopAction::BackOff { millis })
                } else {
                    self.go(LoopStage::Draining, LoopAction::ReportAndDrain)
                }
            },
            (LoopStage::Processing, LoopEvent::Processed { closed }) => self.go(
                LoopStage::Recycling { closed },
                LoopAction::RecycleBuffer,
            ),
            (LoopStage::Recycling { closed }, LoopEvent::Finished) => {
                if closed {
                    self.go(LoopStage::Draining, LoopAction::DrainAcks)
                } else {
                    self.go(LoopStage::Acks, LoopAction::ApplyReadyAcks)
                }
            },
            (LoopStage::BackingOff, LoopEvent::Finished) => self.go(
                LoopStage::Acks,
                LoopAction::ApplyReadyAcks,
            ),
            (LoopStage::ShutdownFlush, LoopEvent::Flushed { .. }) => self.go(
                LoopStage::Draining,
                LoopAction::DrainAcks,
            ),
            (LoopStage::Draining, LoopEvent::Finished) => self.go(
                LoopStage::Over,
                LoopAction::Done,
            ),
            (LoopStage::Over, _) => self.go(LoopStage::Over, LoopAction::Done),
            _ => self.go(LoopStage::Draining, LoopAction::DrainAcks),
        }
    }
}

// ---------------------------------------------------------------------------
// Laws
// ---------------------------------------------------------------------------
/// However the loop ends, outstanding acknowledgements are waited for first.
pub proof fn every_exit_drains(source: SourceLoop, event: LoopEvent)
    requires
        source.stage != LoopStage::Over,
        source.after(event).1 == LoopAction::Done,
    ensures
        source.stage == LoopStage::Draining,
{
}

/// With acknowledgements, positions are written only as batches are acknowledged.
pub proof fn acknowledged_sources_never_flush(source: SourceLoop, event: LoopEvent)
    requires
        source.acknowledgements,
    ensures
        source.after(event).1 != LoopAction::FlushBookmarks,
        source.after(event).0.acknowledgements,
{
}

/// A pull that succeeded hands its container back, events or not, before anything
/// else begins.
pub proof fn containers_are_always_handed_back(source: SourceLoop, events: usize, closed: bool)
    requires
        source.stage == LoopStage::Pulling,
    ensures
        ({
            let pulled = source.after(LoopEvent::Pulled { events });
            if events == 0 {
                pulled.1 == LoopAction::RecycleBuffer
            } else {
                pulled.1 == LoopAction::ProcessBatch && pulled.0.after(
                    LoopEvent::Processed { closed },
                ).1 == LoopAction::RecycleBuffer
            }
        }),
{
}

/// Pauses after failures in a row double from the shortest to the longest, and a
/// pull that succeeds sets them back.
pub proof fn pauses_double_and_are_set_back(source: SourceLoop, events: usize)
    requires
        source.wf(),
        source.stage == LoopStage::Pulling,
    ensures
        ({
            let failed = source.after(LoopEvent::PullFailed { recoverable: true });
            &&& failed.1 == LoopAction::BackOff { millis: source.error_backoff }
            &&& failed.0.error_backoff >= source.error_backoff
            &&& failed.0.error_backoff <= MAX_ERROR_BACKOFF_MS
            &&& source.error_backoff * 2 <= MAX_ERROR_BACKOFF_MS ==> failed.0.error_backoff
                == source.error_backoff * 2
        }),
        source.after(LoopEvent::Pulled { events }).0.error_backoff == MIN_ERROR_BACKOFF_MS,
{
}

/// The acknowledgements are applied in every round, before the status file is
/// written and before the wait.
pub proof fn acknowledgements_come_first(source: SourceLoop, event: LoopEvent)
    requires
        source.stage != LoopStage::Acks,
    ensures
        source.after(event).1 == LoopAction::Wait ==> source.stage == LoopStage::Status,
        source.after(event).1 != LoopAction::WriteStatus,
{
}

} // verus!
