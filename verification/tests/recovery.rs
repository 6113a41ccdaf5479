//! Backoff, the resume ladder, batch sizes, episodes and gap detection.

use std::time::Duration;

use windows_event_log::recovery::{
    evaluate_gap, jitter_seed, Backoff, BatchAdaptation, EpisodeState, FailureEdge, GapDetection,
    GapVerdict, ResumeState, ResumedFrom, Rung, TimeRung, BACKOFF_BASE_SECS, BACKOFF_CAP_SECS,
    CLEAN_BATCHES_TO_RECOVER, UNAVAILABLE_REMINDER_SECS,
};
use windows_event_log::time::{Span, Tick, Timestamp};

fn ts(secs: i64, nanos: u32) -> Timestamp {
    Timestamp::new(secs, nanos).unwrap()
}

fn duration(span: Span) -> Duration {
    Duration::from_nanos(span.as_nanos() as u64)
}

fn tick(secs: u64) -> Tick {
    Tick {
        nanos: (1_000_000 + secs) * 1_000_000_000,
    }
}

#[test]
fn backoff_doubles_to_the_cap_and_never_exceeds_it() {
    let base = Duration::from_secs(BACKOFF_BASE_SECS);
    let cap = Duration::from_secs(BACKOFF_CAP_SECS);
    let mut backoff = Backoff::new(jitter_seed("System"));
    let mut previous = Duration::ZERO;
    for _ in 0..12 {
        let delay = duration(backoff.next_delay());
        assert!(delay <= cap, "delay {delay:?} exceeded the cap");
        // Jitter only ever subtracts, so the floor is 75% of the raw value.
        assert!(delay >= base.mul_f64(0.75) || previous == Duration::ZERO);
        previous = delay;
    }
}

#[test]
fn jitter_decorrelates_channels() {
    let mut a = Backoff::new(jitter_seed("System"));
    let mut b = Backoff::new(jitter_seed("Application"));
    let a_delays: Vec<_> = (0..5).map(|_| a.next_delay()).collect();
    let b_delays: Vec<_> = (0..5).map(|_| b.next_delay()).collect();
    assert_ne!(a_delays, b_delays);
}

#[test]
fn backoff_resets_after_recovery() {
    let mut backoff = Backoff::new(jitter_seed("System"));
    for _ in 0..6 {
        let _ = backoff.next_delay();
    }
    assert!(backoff.attempt() > 0);
    backoff.reset();
    assert_eq!(backoff.attempt(), 0);
    assert!(backoff.next_delay() <= Span::from_secs(BACKOFF_BASE_SECS));
}

/// The delays are those of a double-precision product of the raw delay with the
/// jitter factor, to the nanosecond.
#[test]
fn delays_equal_the_double_precision_product() {
    for channel in ["Application", "System", "Setup", "Security", "", "ü"] {
        let mut backoff = Backoff::new(jitter_seed(channel));
        let mut state = jitter_seed(channel) | 1;
        for attempt in 0..40u32 {
            let delay = duration(backoff.next_delay());
            let raw = Duration::from_secs((1u64 << attempt.min(6)).min(60));
            state ^= state << 13;
            state ^= state >> 7;
            state ^= state << 17;
            let unit = (state >> 11) as f64 / (1u64 << 53) as f64;
            let expected = raw.saturating_sub(raw.mul_f64(0.25 * unit));
            assert_eq!(delay, expected, "{channel} attempt {attempt}");
        }
    }
}

#[test]
fn the_jitter_seed_is_fnv_1a() {
    assert_eq!(jitter_seed(""), 0xcbf2_9ce4_8422_2325);
    assert_eq!(jitter_seed("a"), 0xaf63_dc4c_8601_ec8c);
    assert_eq!(jitter_seed("foobar"), 0x8594_4171_f739_67e8);
}

#[test]
fn a_moving_position_is_not_stuck() {
    let mut resume = ResumeState::new(true);
    for i in 0..10u64 {
        resume.observe_event(ts(1_700_000_000 + i as i64, 0), i);
        assert!(!resume.note_rebuild(), "moving position must not trigger");
    }
}

#[test]
fn a_fixed_position_trips_the_stuck_detector() {
    let mut resume = ResumeState::new(true);
    resume.observe_event(ts(1_700_000_000, 0), 42);
    assert!(!resume.note_rebuild());
    assert!(!resume.note_rebuild());
    assert!(resume.note_rebuild());
}

/// Isolate, then skip exactly one record, and only then discard time windows.
#[test]
fn ladder_isolates_and_skips_before_touching_time() {
    let mut resume = ResumeState::new(true);
    resume.observe_event(ts(1_700_000_000, 0), 42);

    assert_eq!(resume.advance_rung(), Rung::IsolateOne);
    assert_eq!(resume.advance_rung(), Rung::SkipRecord);
    assert_eq!(
        resume.advance_rung(),
        Rung::TimeAdvance(TimeRung::BoundaryTick)
    );
    assert_eq!(
        resume.advance_rung(),
        Rung::TimeAdvance(TimeRung::OneSecond)
    );
}

#[test]
fn unusable_record_identity_falls_through_to_time_rungs() {
    let mut resume = ResumeState::new(false);
    resume.observe_event(ts(1_700_000_000, 0), 42);
    assert_eq!(resume.advance_rung(), Rung::IsolateOne);
    assert_eq!(
        resume.advance_rung(),
        Rung::TimeAdvance(TimeRung::BoundaryTick)
    );
    assert!(!resume.take_poison_skip());
}

#[test]
fn ladder_terminates_at_future_only_and_stays_there() {
    let mut resume = ResumeState::new(false);
    resume.observe_event(ts(1_700_000_000, 0), 42);
    for _ in 0..20 {
        resume.advance_rung();
    }
    assert_eq!(resume.rung, Rung::FutureOnly);
    assert_eq!(resume.advance_rung(), Rung::FutureOnly);
}

#[test]
fn a_clean_read_resets_the_ladder() {
    let mut resume = ResumeState::new(true);
    resume.observe_event(ts(1_700_000_000, 0), 42);
    resume.advance_rung();
    resume.advance_rung();
    resume.observe_clean_read();
    assert_eq!(resume.rung, Rung::Bookmark);
    assert!(!resume.take_poison_skip());
}

#[test]
fn time_floor_floors_to_the_millisecond() {
    let mut resume = ResumeState::new(true);
    resume.observe_event(ts(1_700_000_000, 123_456_700), 1);
    let floor = resume.time_floor().unwrap();
    assert_eq!(floor.parts().1, 123_000_000);
}

/// A tick at the very end of a millisecond does not carry the floor past the event.
#[test]
fn the_boundary_tick_reads_the_last_events_own_millisecond_again() {
    let mut resume = ResumeState::new(true);
    resume.observe_event(ts(1_700_000_000, 123_999_900), 1);
    resume.rung = Rung::TimeAdvance(TimeRung::BoundaryTick);
    assert_eq!(
        resume.time_floor(),
        Some(ts(1_700_000_000, 123_000_000))
    );

    // Nor into the next second.
    resume.observe_event(ts(1_700_000_000, 999_999_900), 2);
    assert_eq!(
        resume.time_floor(),
        Some(ts(1_700_000_000, 999_000_000))
    );

    resume.rung = Rung::TimeAdvance(TimeRung::OneSecond);
    assert_eq!(
        resume.time_floor(),
        Some(ts(1_700_000_001, 999_000_000))
    );
}

/// The stored time and record number are held, and decide nothing about delivery.
#[test]
fn the_stored_position_is_recorded_and_never_withholds_an_event() {
    let mut resume = ResumeState::new(true);
    let last = ts(1_700_000_000, 123_456_700);
    resume.observe_event(last, 10);

    assert_eq!(resume.last_event_time, Some(last));
    assert_eq!(resume.last_record_id, Some(10));

    assert!(!resume.take_poison_skip());
    resume.observe_event(ts(1_700_000_000, 123_000_000), 9);
    assert!(!resume.take_poison_skip());
    resume.observe_event(ts(1_699_999_999, 0), 11);
    assert!(!resume.take_poison_skip());

    assert_eq!(resume.last_event_time, Some(ts(1_699_999_999, 0)));
    assert_eq!(resume.last_record_id, Some(11));
}

#[test]
fn poison_escape_drops_the_poison_event_and_delivers_the_next_one() {
    let mut resume = ResumeState::new(true);
    resume.observe_event(ts(1_700_000_000, 0), 42);

    assert_eq!(resume.advance_rung(), Rung::IsolateOne);
    assert_eq!(resume.advance_rung(), Rung::SkipRecord);

    assert!(
        resume.take_poison_skip(),
        "the poison event must not be delivered"
    );
    assert!(
        !resume.take_poison_skip(),
        "the next good event must be delivered"
    );
}

#[test]
fn the_poison_skip_is_consumed_once() {
    let mut resume = ResumeState::new(true);
    resume.observe_event(ts(1_700_000_000, 0), 42);
    resume.advance_rung();
    resume.advance_rung();

    assert!(resume.take_poison_skip());
    for id in 44..50u64 {
        assert!(
            !resume.take_poison_skip(),
            "record {id} must be delivered; the skip is one-shot"
        );
    }
}

/// The one-shot is armed by landing on the skip rung, so leaving it disarms it.
#[test]
fn advancing_past_the_skip_rung_disarms_the_one_shot() {
    let mut resume = ResumeState::new(true);
    resume.observe_event(ts(1_700_000_000, 0), 42);

    assert_eq!(resume.advance_rung(), Rung::IsolateOne);
    assert_eq!(resume.advance_rung(), Rung::SkipRecord);
    assert!(resume.skip_next_record, "the skip rung arms the one-shot");

    assert_eq!(
        resume.advance_rung(),
        Rung::TimeAdvance(TimeRung::BoundaryTick)
    );
    assert!(
        !resume.skip_next_record,
        "leaving the skip rung must disarm the unconsumed one-shot"
    );

    assert!(
        !resume.take_poison_skip(),
        "the first record past the new time floor must be sent"
    );
    assert!(!resume.take_poison_skip());
}

#[test]
fn dead_bookmark_resumes_by_time_and_consumes_no_skip() {
    let mut resume = ResumeState::new(true);
    resume.observe_event(ts(1_700_000_000, 0), 42);

    let rung = resume.bookmark_dead();
    assert_eq!(rung, Rung::TimeAdvance(TimeRung::BoundaryTick));
    assert_eq!(rung.resumed_from(), ResumedFrom::TimeFallback);
    assert!(
        !resume.take_poison_skip(),
        "a dead bookmark must not silently eat a record on top of the resume"
    );
}

#[test]
fn dead_bookmark_without_a_stored_time_goes_future_only() {
    let mut resume = ResumeState::new(true);
    assert_eq!(resume.bookmark_dead(), Rung::FutureOnly);
    assert_eq!(resume.rung.resumed_from(), ResumedFrom::FutureOnly);
}

#[test]
fn repeated_bookmark_death_widens_the_time_window() {
    let mut resume = ResumeState::new(true);
    resume.observe_event(ts(1_700_000_000, 0), 42);
    assert_eq!(
        resume.bookmark_dead(),
        Rung::TimeAdvance(TimeRung::BoundaryTick)
    );
    assert_eq!(
        resume.bookmark_dead(),
        Rung::TimeAdvance(TimeRung::OneSecond)
    );
    for _ in 0..10 {
        resume.bookmark_dead();
    }
    assert_eq!(resume.rung, Rung::FutureOnly);
}

#[test]
fn batch_halves_to_a_floor_of_one_and_recovers() {
    let mut batch = BatchAdaptation::new(100);
    assert_eq!(batch.halve(), 50);
    assert_eq!(batch.halve(), 25);
    for _ in 0..5 {
        batch.halve();
    }
    assert_eq!(batch.current(), 1);

    for _ in 0..CLEAN_BATCHES_TO_RECOVER {
        batch.observe_clean_batch();
    }
    assert_eq!(batch.current(), 2);
}

#[test]
fn batch_recovery_stops_at_the_configured_size() {
    let mut batch = BatchAdaptation::new(4);
    batch.isolate();
    assert_eq!(batch.current(), 1);
    for _ in 0..(CLEAN_BATCHES_TO_RECOVER * 10) {
        batch.observe_clean_batch();
    }
    assert_eq!(batch.current(), 4);
}

#[test]
fn episode_edges_are_onset_once_then_quiet() {
    let mut episode = EpisodeState::default();
    assert_eq!(episode.observe_failure(tick(0)), FailureEdge::Onset);
    for i in 1..50 {
        assert_eq!(episode.observe_failure(tick(i)), FailureEdge::Repeat);
    }
    assert_eq!(
        episode.observe_failure(tick(UNAVAILABLE_REMINDER_SECS)),
        FailureEdge::OngoingReminder
    );
    assert!(episode.observe_recovery());
    // Recovery is once per episode, not once per healthy batch.
    assert!(!episode.observe_recovery());
}

#[test]
fn gap_detection_reports_missing_count() {
    let detection = GapDetection {
        query_filters: false,
        rendered_delivery: false,
    };
    assert_eq!(
        evaluate_gap(Some(10), 11, detection, false),
        GapVerdict::Continuous
    );
    assert_eq!(
        evaluate_gap(Some(10), 20, detection, false),
        GapVerdict::Gap { missing: 9 }
    );
}

/// A gap we caused, a filtering query, and a forwarded channel never raise an
/// unexplained gap.
#[test]
fn gap_detection_has_three_suppressions() {
    let plain = GapDetection {
        query_filters: false,
        rendered_delivery: false,
    };
    assert_eq!(
        evaluate_gap(Some(10), 20, plain, true),
        GapVerdict::DeliberateSkip { missing: 9 }
    );
    assert_eq!(
        evaluate_gap(
            Some(10),
            20,
            GapDetection {
                query_filters: true,
                rendered_delivery: false
            },
            false
        ),
        GapVerdict::Suppressed
    );
    assert_eq!(
        evaluate_gap(
            Some(10),
            20,
            GapDetection {
                query_filters: false,
                rendered_delivery: true
            },
            false
        ),
        GapVerdict::Suppressed
    );
}

#[test]
fn gap_detection_starts_with_the_first_event_and_ignores_going_back() {
    let plain = GapDetection {
        query_filters: false,
        rendered_delivery: false,
    };
    assert_eq!(evaluate_gap(None, 900, plain, false), GapVerdict::Continuous);
    assert_eq!(
        evaluate_gap(Some(10), 3, plain, false),
        GapVerdict::Continuous
    );
    assert_eq!(
        evaluate_gap(Some(u64::MAX), u64::MAX, plain, false),
        GapVerdict::Continuous
    );
}

#[test]
fn deliberate_skip_flag_tracks_the_ladder() {
    assert!(!Rung::Bookmark.is_deliberate_skip());
    assert!(!Rung::IsolateOne.is_deliberate_skip());
    assert!(Rung::SkipRecord.is_deliberate_skip());
    assert!(Rung::TimeAdvance(TimeRung::OneSecond).is_deliberate_skip());
    assert!(Rung::FutureOnly.is_deliberate_skip());
}

/// A time rung resumes after the last good event, never before it.
#[test]
fn a_time_rung_moves_the_floor_forward_not_backward() {
    let base = ts(1_700_000_000, 0);

    for (rung, expected_advance) in [
        (TimeRung::BoundaryTick, Duration::from_nanos(100)),
        (TimeRung::OneSecond, Duration::from_secs(1)),
        (TimeRung::TenSeconds, Duration::from_secs(10)),
        (TimeRung::OneMinute, Duration::from_secs(60)),
        (TimeRung::FiveMinutes, Duration::from_secs(300)),
        (TimeRung::ThirtyMinutes, Duration::from_secs(1800)),
    ] {
        let mut resume = ResumeState::new(true);
        resume.observe_event(base, 1);
        resume.rung = Rung::TimeAdvance(rung);

        let floor = resume.time_floor().unwrap();
        assert!(
            floor >= base,
            "{rung:?} resumed BEFORE the last good event ({floor:?} < {base:?})"
        );
        // Floored to the millisecond, so the boundary tick lands exactly on the
        // base and every other rung lands its full window ahead.
        let advance = expected_advance
            - Duration::from_nanos(u64::from(expected_advance.subsec_nanos() % 1_000_000));
        let expected = ts(
            1_700_000_000 + advance.as_secs() as i64,
            advance.subsec_nanos(),
        );
        assert_eq!(floor, expected, "wrong window width for {rung:?}");
        assert_eq!(duration(rung.advance_by()), expected_advance);
    }
}

/// A floor that would leave the calendar is no floor.
#[test]
fn a_floor_past_the_end_of_the_calendar_is_none() {
    let mut resume = ResumeState::new(true);
    resume.observe_event(ts(8_210_266_876_799, 0), 1);
    assert!(resume.time_floor().is_some());
    resume.rung = Rung::TimeAdvance(TimeRung::OneSecond);
    assert!(resume.time_floor().is_none());
}

#[test]
fn marking_record_identity_unusable_takes_the_skip_rung_off_the_table() {
    let mut resume = ResumeState::new(true);
    resume.observe_event(ts(1_700_000_000, 0), 7);
    resume.mark_record_identity_unusable();

    assert_eq!(resume.advance_rung(), Rung::IsolateOne);
    assert_eq!(
        resume.advance_rung(),
        Rung::TimeAdvance(TimeRung::BoundaryTick),
        "forwarded record ids interleave from many machines, so the ladder must \
         go straight to time windows"
    );
    assert!(
        !resume.skip_next_record,
        "no record skip may be armed on a channel whose record ids mean nothing"
    );
}

#[test]
fn restore_returns_to_the_configured_size_in_one_step() {
    let mut batch = BatchAdaptation::new(100);
    batch.isolate();
    assert_eq!(batch.current(), 1);

    batch.restore();
    assert_eq!(
        batch.current(),
        100,
        "an escape's batch reduction is not a size problem"
    );
}

#[test]
fn log_field_labels_are_the_exact_strings_the_pack_keys_on() {
    assert_eq!(ResumedFrom::Bookmark.as_str(), "bookmark");
    assert_eq!(ResumedFrom::TimeFallback.as_str(), "time_fallback");
    assert_eq!(ResumedFrom::FutureOnly.as_str(), "future_only");

    assert_eq!(TimeRung::BoundaryTick.as_str(), "boundary_tick");
    assert_eq!(TimeRung::OneSecond.as_str(), "+1s");
    assert_eq!(TimeRung::TenSeconds.as_str(), "+10s");
    assert_eq!(TimeRung::OneMinute.as_str(), "+60s");
    assert_eq!(TimeRung::FiveMinutes.as_str(), "+5m");
    assert_eq!(TimeRung::ThirtyMinutes.as_str(), "+30m");

    assert_eq!(Rung::Bookmark.as_str(), "bookmark");
    assert_eq!(Rung::IsolateOne.as_str(), "isolate_one");
    assert_eq!(Rung::SkipRecord.as_str(), "skip_record");
    assert_eq!(Rung::FutureOnly.as_str(), "future_only");
    assert_eq!(Rung::TimeAdvance(TimeRung::OneMinute).as_str(), "+60s");
}

#[test]
fn jitter_keeps_varying_at_a_fixed_attempt() {
    let mut backoff = Backoff::new(jitter_seed("Application"));
    let mut delays = Vec::new();
    for _ in 0..8 {
        delays.push(backoff.next_delay());
        backoff.reset();
    }

    assert!(
        delays.windows(2).any(|pair| pair[0] != pair[1]),
        "every delay at attempt 0 was identical ({delays:?})"
    );
}

#[test]
fn jitter_never_takes_more_than_a_quarter_of_the_delay() {
    let base = Duration::from_secs(BACKOFF_BASE_SECS);
    let cap = Duration::from_secs(BACKOFF_CAP_SECS);
    for channel in ["Application", "System", "Setup", "Security"] {
        let mut backoff = Backoff::new(jitter_seed(channel));
        for attempt in 0..10u32 {
            let raw = base.saturating_mul(1u32 << attempt.min(6)).min(cap);
            let delay = duration(backoff.next_delay());
            assert!(
                delay >= raw.mul_f64(0.75),
                "{channel} attempt {attempt}: delay {delay:?} fell below 75% of {raw:?}"
            );
            assert!(
                delay <= raw,
                "{channel} attempt {attempt}: jitter added time"
            );
        }
    }
}

/// What counts is where the rebuilds find the position, and that no clean read and
/// no step of the ladder comes between them.
#[test]
fn stuck_means_three_rebuilds_at_one_position() {
    let (here, there) = (ts(1_700_000_000, 0), ts(1_700_000_001, 0));
    let mut resume = ResumeState::new(true);

    // Without a position nothing is stuck.
    for _ in 0..5 {
        assert!(!resume.note_rebuild());
    }

    resume.observe_event(here, 1);
    assert!(!resume.note_rebuild());
    // Gone and back between two rebuilds is no move.
    resume.observe_event(there, 2);
    resume.observe_event(here, 1);
    resume.mark_record_identity_unusable();
    assert!(!resume.note_rebuild());
    assert!(resume.note_rebuild());

    // A rebuild elsewhere starts over.
    resume.observe_event(there, 2);
    assert!(!resume.note_rebuild());
    resume.observe_event(here, 1);
    assert!(!resume.note_rebuild());
    assert!(!resume.note_rebuild());

    // So do a clean read and a step of the ladder.
    resume.observe_clean_read();
    assert!(!resume.note_rebuild());
    assert!(!resume.note_rebuild());
    resume.advance_rung();
    assert!(!resume.note_rebuild());
    assert!(!resume.note_rebuild());
    assert!(resume.note_rebuild());
}
