//! The loop around the subscription, and the fields of its events.

use windows_event_log::checkpoint::ChannelPosition;
use windows_event_log::schema::{log_namespace, outputs, FieldKind, LogNamespace};
use windows_event_log::source::{
    apply_ack, batch_sent, begin_batch, channel_list, tally_batch, BatchAction, BatchStatus,
    EventOutcome, FinalizeAction, Finalizer, LoopAction, LoopEvent, SourceLoop,
};
use windows_event_log::subscription::WaitResult;
use windows_event_log::time::Tick;

fn at(secs: u64) -> Tick {
    Tick {
        nanos: (1_000 + secs) * 1_000_000_000,
    }
}

fn waiting(acknowledgements: bool) -> SourceLoop {
    let mut source = SourceLoop::run_internal(acknowledgements, 5, 10_000, at(0));
    assert_eq!(
        source.advance(LoopEvent::AcksApplied { status_due: false }),
        LoopAction::Wait
    );
    source
}

fn waited(result: WaitResult, secs: u64) -> LoopEvent {
    LoopEvent::Waited {
        result,
        now: at(secs),
    }
}

#[test]
fn the_finalizer_follows_the_acknowledgements() {
    let sync = Finalizer::new(false);
    let acked = Finalizer::new(true);
    assert_eq!(sync.finalize(false), FinalizeAction::WriteCheckpoint);
    assert_eq!(sync.finalize(true), FinalizeAction::WarnReceiverIgnored);
    assert_eq!(acked.finalize(true), FinalizeAction::Register);
    assert_eq!(acked.finalize(false), FinalizeAction::WarnNoReceiver);
}

#[test]
fn only_delivered_batches_move_the_checkpoint() {
    assert!(apply_ack(BatchStatus::Delivered));
    assert!(!apply_ack(BatchStatus::Errored));
    assert!(!apply_ack(BatchStatus::Rejected));
}

#[test]
fn channel_names_are_joined_by_commas() {
    let position = |name: &str| ChannelPosition::bookmark_only(name.to_string(), String::new());
    assert_eq!(channel_list(&vec![]), "");
    assert_eq!(channel_list(&vec![position("System")]), "System");
    assert_eq!(
        channel_list(&vec![
            position("System"),
            position("Security"),
            position("Setup")
        ]),
        "System, Security, Setup"
    );
}

#[test]
fn a_batch_is_counted() {
    let outcome = |channel: &str, byte_size| EventOutcome {
        channel: channel.to_string(),
        byte_size,
    };
    let tally = tally_batch(&vec![
        outcome("System", Some(100)),
        outcome("Security", None),
        outcome("System", Some(u64::MAX)),
    ]);
    assert_eq!(tally.events, 2);
    assert_eq!(tally.bytes, 100 + u128::from(u64::MAX));
    assert_eq!(tally.channels, vec!["System", "Security"]);
    assert_eq!(begin_batch(&tally), BatchAction::Send);
    let unconverted = tally_batch(&vec![outcome("Security", None)]);
    assert_eq!(begin_batch(&unconverted), BatchAction::Nothing);
    assert_eq!(unconverted.channels, vec!["Security"]);

    assert_eq!(batch_sent(false, 3), BatchAction::Close);
    assert_eq!(batch_sent(true, 1), BatchAction::Finalize);
    assert_eq!(batch_sent(true, 0), BatchAction::Nothing);
}

#[test]
fn a_round_pulls_processes_and_hands_the_buffer_back() {
    let mut source = waiting(false);
    assert_eq!(
        source.advance(waited(WaitResult::EventsAvailable, 1)),
        LoopAction::Pull { speculative: false }
    );
    assert_eq!(
        source.advance(LoopEvent::Pulled { events: 3 }),
        LoopAction::ProcessBatch
    );
    assert_eq!(
        source.advance(LoopEvent::Processed { closed: false }),
        LoopAction::RecycleBuffer
    );
    assert_eq!(
        source.advance(LoopEvent::Finished),
        LoopAction::ApplyReadyAcks
    );
    assert_eq!(
        source.advance(LoopEvent::AcksApplied { status_due: true }),
        LoopAction::WriteStatus
    );
    assert_eq!(source.advance(LoopEvent::Finished), LoopAction::Wait);
}

/// Every exit waits for the outstanding acknowledgements.
#[test]
fn every_exit_drains_the_acknowledgements() {
    // Nobody to send to any more.
    let mut source = waiting(true);
    source.advance(waited(WaitResult::EventsAvailable, 1));
    source.advance(LoopEvent::Pulled { events: 1 });
    source.advance(LoopEvent::Processed { closed: true });
    assert_eq!(source.advance(LoopEvent::Finished), LoopAction::DrainAcks);
    assert_eq!(source.advance(LoopEvent::Finished), LoopAction::Done);

    // A stop, with and without acknowledgements.
    let mut source = waiting(true);
    assert_eq!(
        source.advance(waited(WaitResult::Shutdown, 1)),
        LoopAction::DrainAcks
    );
    let mut source = waiting(false);
    assert_eq!(
        source.advance(waited(WaitResult::Shutdown, 1)),
        LoopAction::FlushBookmarks
    );
    assert_eq!(
        source.advance(LoopEvent::Flushed { now: at(1) }),
        LoopAction::DrainAcks
    );

    // A pull that cannot be retried.
    let mut source = waiting(false);
    source.advance(waited(WaitResult::EventsAvailable, 1));
    assert_eq!(
        source.advance(LoopEvent::PullFailed { recoverable: false }),
        LoopAction::ReportAndDrain
    );
    assert_eq!(source.advance(LoopEvent::Finished), LoopAction::Done);
}

#[test]
fn pauses_double_to_five_seconds_and_are_set_back() {
    let mut source = waiting(true);
    let mut pauses = Vec::new();
    for _ in 0..8 {
        source.advance(waited(WaitResult::EventsAvailable, 1));
        match source.advance(LoopEvent::PullFailed { recoverable: true }) {
            LoopAction::BackOff { millis } => pauses.push(millis),
            other => panic!("{other:?}"),
        }
        source.advance(LoopEvent::Finished);
        source.advance(LoopEvent::AcksApplied { status_due: false });
    }
    assert_eq!(pauses, vec![100, 200, 400, 800, 1600, 3200, 5000, 5000]);
    source.advance(waited(WaitResult::EventsAvailable, 1));
    source.advance(LoopEvent::Pulled { events: 0 });
    assert_eq!(source.error_backoff, 100);
}

/// Without acknowledgements positions are written on their interval; with them
/// never.
#[test]
fn positions_are_flushed_on_their_interval() {
    let mut source = waiting(false);
    assert_eq!(
        source.advance(waited(WaitResult::Timeout, 4)),
        LoopAction::Pull { speculative: true }
    );
    let mut source = waiting(false);
    assert_eq!(
        source.advance(waited(WaitResult::Timeout, 5)),
        LoopAction::FlushBookmarks
    );
    assert_eq!(
        source.advance(LoopEvent::Flushed { now: at(6) }),
        LoopAction::Pull { speculative: true }
    );
    assert_eq!(source.last_checkpoint, at(6));
    let mut source = waiting(true);
    assert_eq!(
        source.advance(waited(WaitResult::Timeout, 500)),
        LoopAction::Pull { speculative: true }
    );
}

/// The health is reported about every thirty seconds of waiting.
#[test]
fn health_is_reported_in_its_turn() {
    let mut source = waiting(true);
    assert_eq!(source.health_interval, 3);
    let mut reports = Vec::new();
    for _ in 0..7 {
        let mut action = source.advance(waited(WaitResult::Timeout, 1));
        reports.push(action == LoopAction::ReportHealth);
        if action == LoopAction::ReportHealth {
            action = source.advance(LoopEvent::Finished);
        }
        assert_eq!(action, LoopAction::Pull { speculative: true });
        source.advance(LoopEvent::Pulled { events: 0 });
        source.advance(LoopEvent::Finished);
        source.advance(LoopEvent::AcksApplied { status_due: false });
    }
    assert_eq!(reports, vec![false, false, true, false, false, true, false]);
    assert_eq!(
        SourceLoop::run_internal(true, 5, 60_000, at(0)).health_interval,
        1
    );
}

#[test]
fn the_own_namespace_wins() {
    assert_eq!(
        log_namespace(Some(true), LogNamespace::Legacy),
        LogNamespace::Vector
    );
    assert_eq!(
        log_namespace(Some(false), LogNamespace::Vector),
        LogNamespace::Legacy
    );
    assert_eq!(
        log_namespace(None, LogNamespace::Vector),
        LogNamespace::Vector
    );
}

#[test]
fn the_fields_are_known_in_the_newer_layout_only() {
    let fields = outputs(None, LogNamespace::Vector).unwrap();
    assert_eq!(fields.len(), 29);
    let kind = |name: &str| fields.iter().find(|f| f.name == name).map(|f| f.kind);
    assert_eq!(kind("timestamp"), Some(FieldKind::Timestamp));
    assert_eq!(kind("event_id"), Some(FieldKind::Integer));
    assert_eq!(kind("keyword_names"), Some(FieldKind::BytesList));
    assert_eq!(kind("event_data"), Some(FieldKind::Object));
    assert_eq!(kind("level"), Some(FieldKind::Bytes));
    assert_eq!(kind("nonsense"), None);
    assert!(outputs(Some(false), LogNamespace::Vector).is_none());
}
