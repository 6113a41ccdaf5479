//! The status file: gaps, estimates, snapshots and when it is written.

use std::collections::VecDeque;
use std::path::{Path, PathBuf};

use windows_event_log::atomic_file::{AtomicWrite, FileAction, WritePolicy};
use windows_event_log::recovery::{Rung, TimeRung};
use windows_event_log::status::{
    gap_for_rung, newest_record_estimate, push_gap, rfc3339, temp_file_name, write_atomic,
    ChannelRecordStats, ChannelStatus, StatusPath, StatusSnapshot, StatusWriter, WriteNotice,
    MAX_RETAINED_GAPS,
};
use windows_event_log::time::{Tick, Timestamp};

fn ts(secs: i64) -> Timestamp {
    Timestamp::new(secs, 0).unwrap()
}

fn stats(count: u64, oldest: u64) -> Option<ChannelRecordStats> {
    Some(ChannelRecordStats { count, oldest })
}

fn tick(secs: u64) -> Tick {
    Tick {
        nanos: (5_000 + secs) * 1_000_000_000,
    }
}

#[test]
fn newest_record_is_oldest_plus_count_minus_one() {
    assert_eq!(newest_record_estimate(stats(100, 1), None), Some(100));
    assert_eq!(newest_record_estimate(stats(50, 951), None), Some(1_000));
    // A channel holding exactly one record: newest is that record.
    assert_eq!(newest_record_estimate(stats(1, 42), None), Some(42));
}

#[test]
fn an_estimate_behind_the_delivered_record_is_withheld_not_clamped() {
    assert_eq!(newest_record_estimate(stats(10, 1), Some(9_000)), None);
    // Exactly equal is caught up, and that is a real answer.
    assert_eq!(newest_record_estimate(stats(10, 1), Some(10)), Some(10));
}

#[test]
fn an_empty_or_unavailable_channel_has_no_newest_record() {
    assert_eq!(newest_record_estimate(stats(0, 1), Some(5)), None);
    assert_eq!(newest_record_estimate(None, Some(5)), None);
    // Arithmetic that would wrap is unavailable, never a wrapped number.
    assert_eq!(newest_record_estimate(stats(u64::MAX, 5), None), None);
}

#[test]
fn the_lossless_rungs_record_no_gap() {
    let from = Some(ts(1_700_000_000));
    let at = ts(1_700_000_010);
    for rung in [
        Rung::Bookmark,
        Rung::IsolateOne,
        Rung::TimeAdvance(TimeRung::BoundaryTick),
    ] {
        assert_eq!(
            gap_for_rung(rung, from, Some(at), at),
            None,
            "{rung:?} loses nothing and must not record a gap"
        );
    }
}

#[test]
fn the_boundary_tick_never_produces_a_gap() {
    let at = ts(1_700_000_010);
    assert_eq!(
        gap_for_rung(
            Rung::TimeAdvance(TimeRung::BoundaryTick),
            Some(ts(1_700_000_000)),
            Some(ts(1_700_000_005)),
            at
        ),
        None
    );
}

#[test]
fn a_record_skip_is_an_exact_single_record_gap() {
    let from = ts(1_700_000_000);
    let at = ts(1_700_000_010);
    let gap = gap_for_rung(Rung::SkipRecord, Some(from), None, at).unwrap();

    assert_eq!(gap.cause, "skip_record");
    assert!(gap.exact);
    assert_eq!(gap.missing_records, Some(1));
    assert_eq!(gap.from.as_deref(), Some("2023-11-14T22:13:20.000Z"));
    // Bounded by a record, not by a time.
    assert_eq!(gap.to, None);
    assert_eq!(gap.at, "2023-11-14T22:13:30.000Z");
}

#[test]
fn the_time_rungs_and_future_only_are_inexact_and_uncounted() {
    let from = ts(1_700_000_000);
    let resume = ts(1_700_000_030);
    let at = ts(1_700_000_010);

    for (rung, cause) in [
        (Rung::TimeAdvance(TimeRung::OneSecond), "+1s"),
        (Rung::TimeAdvance(TimeRung::TenSeconds), "+10s"),
        (Rung::TimeAdvance(TimeRung::OneMinute), "+60s"),
        (Rung::TimeAdvance(TimeRung::FiveMinutes), "+5m"),
        (Rung::TimeAdvance(TimeRung::ThirtyMinutes), "+30m"),
        (Rung::FutureOnly, "future_only"),
    ] {
        let gap = gap_for_rung(rung, Some(from), Some(resume), at).unwrap();
        assert_eq!(gap.cause, cause);
        assert!(!gap.exact, "{cause} cannot know what it never read");
        assert_eq!(gap.missing_records, None, "{cause} must not invent a count");
        assert_eq!(gap.from.as_deref(), Some("2023-11-14T22:13:20.000Z"));
        assert_eq!(gap.to.as_deref(), Some("2023-11-14T22:13:50.000Z"));
    }
}

#[test]
fn a_gap_with_no_prior_event_reports_a_null_lower_bound() {
    let at = ts(1_700_000_010);
    let gap = gap_for_rung(Rung::FutureOnly, None, Some(at), at).unwrap();
    assert_eq!(gap.from, None);
    assert_eq!(gap.to.as_deref(), Some("2023-11-14T22:13:30.000Z"));
}

#[test]
fn the_gap_list_is_bounded_and_evicts_the_oldest() {
    let mut gaps = VecDeque::new();
    for i in 0..(MAX_RETAINED_GAPS * 4) {
        let gap = gap_for_rung(
            Rung::SkipRecord,
            Some(ts(1_700_000_000 + i as i64)),
            None,
            ts(1_700_000_000 + i as i64),
        )
        .unwrap();
        push_gap(&mut gaps, gap);
    }

    assert_eq!(gaps.len(), MAX_RETAINED_GAPS);
    // The newest survived and the oldest did not.
    let newest = ts(1_700_000_000 + (MAX_RETAINED_GAPS * 4 - 1) as i64);
    assert_eq!(gaps.back().unwrap().at, rfc3339(newest));
    let oldest_kept = ts(1_700_000_000 + (MAX_RETAINED_GAPS * 3) as i64);
    assert_eq!(gaps.front().unwrap().at, rfc3339(oldest_kept));
}

/// The place of a status file, as a path.
fn path_of(path: &StatusPath) -> PathBuf {
    match path {
        StatusPath::Configured(path) => PathBuf::from(path),
        StatusPath::InDirectory {
            directory,
            file_name,
        } => Path::new(directory).join(file_name),
    }
}

#[test]
fn an_unconfigured_path_resolves_into_the_data_directory() {
    let data_dir = Path::new("C:\\ProgramData\\vector\\wel");
    assert_eq!(
        path_of(&StatusWriter::resolve_path(
            None,
            "C:\\ProgramData\\vector\\wel"
        )),
        data_dir.join("windows_event_log_status.json")
    );

    let configured = PathBuf::from("D:\\elsewhere\\status.json");
    assert_eq!(
        path_of(&StatusWriter::resolve_path(
            Some("D:\\elsewhere\\status.json"),
            "C:\\ProgramData\\vector\\wel"
        )),
        configured,
        "an explicit path wins outright and is not joined onto anything"
    );
}

fn writer() -> StatusWriter {
    StatusWriter::new(
        StatusPath::Configured("wel-status.json".to_string()),
        30,
        tick(0),
    )
}

#[test]
fn the_writer_fires_immediately_and_then_on_its_interval() {
    let mut writer = writer();
    assert!(
        writer.is_due(tick(0)),
        "a reader starting with the collector must not wait an interval for its first fact"
    );
    assert_eq!(writer.write(true, tick(0)), WriteNotice::Quiet);

    assert!(!writer.is_due(tick(29)));
    assert!(writer.is_due(tick(30)));
}

/// A write that fails must still arm the next interval.
#[test]
fn a_failed_write_still_arms_the_next_interval() {
    let mut writer = writer();
    writer.write(false, tick(0));

    assert!(!writer.is_due(tick(29)));
    assert!(writer.is_due(tick(30)));
}

/// The first failure is loud, those after it are not, and the recovery is told
/// once.
#[test]
fn a_run_of_failed_writes_is_told_at_both_ends() {
    let mut writer = writer();
    let first = writer.write(false, tick(0));
    let second = writer.write(false, tick(30));
    let third = writer.write(true, tick(60));
    let fourth = writer.write(true, tick(90));
    assert_ne!(first, second);
    assert_ne!(first, WriteNotice::Quiet);
    assert_ne!(third, WriteNotice::Quiet);
    assert_eq!(fourth, WriteNotice::Quiet);
}

#[test]
fn temporary_names_hold_the_process_id() {
    assert_eq!(
        temp_file_name(Some("wel-status.json"), 4711),
        "wel-status.json.4711.tmp"
    );
    assert_eq!(temp_file_name(None, 0), "status.json.0.tmp");
}

/// The target is put in place last, by one rename, and the temporary file does
/// not survive a write that failed there.
#[test]
fn the_write_replaces_the_target_and_leaves_no_temporary_behind() {
    let policy = WritePolicy {
        make_directory: true,
        replace_first: false,
        remove_temp: true,
    };
    let mut write = AtomicWrite::start(policy);
    let mut actions = vec![write.action];
    while write.action != FileAction::Done {
        actions.push(write.advance(true));
    }
    assert_eq!(
        actions,
        vec![
            FileAction::CreateDirectory,
            FileAction::CreateTemp,
            FileAction::WriteTemp,
            FileAction::SyncTemp,
            FileAction::RenameTemp,
            FileAction::Done,
        ]
    );

    let mut write = AtomicWrite::start(policy);
    for _ in 0..4 {
        write.advance(true);
    }
    assert_eq!(write.action, FileAction::RenameTemp);
    assert_eq!(write.advance(false), FileAction::RemoveTemp);
    assert_eq!(write.advance(true), FileAction::Failed);
}

#[test]
fn a_snapshot_keeps_one_status_per_channel() {
    let mut snapshot = StatusSnapshot::new(ts(1_700_000_100));
    assert_eq!(snapshot.schema, 1);
    assert_eq!(snapshot.as_of, "2023-11-14T22:15:00.000Z");
    for attempt in [3, 4] {
        snapshot.channels.insert(
            "Security".to_string(),
            ChannelStatus {
                subscribed: false,
                skipped_reason: Some("access_denied".to_string()),
                rung: "bookmark".to_string(),
                last_event_at: None,
                last_drained_at: None,
                last_record_id: None,
                newest_record_id: None,
                query_filters: true,
                bookmark_positioned: false,
                retry_attempt: attempt,
                name_table_misses: 7,
                gaps: Vec::new(),
            },
        );
    }
    assert_eq!(snapshot.channels.len(), 1);
    let (name, status) = snapshot.channels.entry(0);
    assert_eq!(name, "Security");
    assert_eq!(status.retry_attempt, 4);
    assert!(snapshot.channels.get("System").is_none());
}

/// The status file is written aside and renamed over the target, and nothing is
/// left behind by a rename that fails.
#[test]
fn the_status_file_is_replaced_by_a_rename() {
    let run = |directory: &str, fails_at: FileAction| {
        let mut write = AtomicWrite::start(write_atomic(directory));
        let mut actions = vec![write.action];
        while !matches!(write.action, FileAction::Done | FileAction::Failed) {
            let ok = write.action != fails_at;
            actions.push(write.advance(ok));
        }
        actions
    };
    assert_eq!(
        run("data", FileAction::Failed),
        vec![
            FileAction::CreateDirectory,
            FileAction::CreateTemp,
            FileAction::WriteTemp,
            FileAction::SyncTemp,
            FileAction::RenameTemp,
            FileAction::Done,
        ]
    );
    assert_eq!(
        run("", FileAction::RenameTemp),
        vec![
            FileAction::CreateTemp,
            FileAction::WriteTemp,
            FileAction::SyncTemp,
            FileAction::RenameTemp,
            FileAction::RemoveTemp,
            FileAction::Failed,
        ]
    );
}
