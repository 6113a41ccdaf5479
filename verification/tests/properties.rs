//! Invariants of the decisions, over many pseudo-random inputs.

use windows_event_log::recovery::{Backoff, ResumeState, Rung, TimeRung};
use windows_event_log::time::Timestamp;
use windows_event_log::win32_errors::{
    classify_evt_next, classify_render, classify_subscribe, DrainOutcome, QueryOrigin,
    RenderDisposition, SubscribeOutcome, INHERITED_UNDOCUMENTED_16953,
};

const CASES: usize = 4096;

/// The ceiling of the backoff, restated so that the assertion has its own oracle.
const BACKOFF_CAP_SECS: u64 = 60;
/// Largest fraction of the delay that jitter may subtract.
const JITTER_FRACTION: f64 = 0.25;

struct Random(u64);

impl Random {
    fn new(seed: u64) -> Random {
        Random(seed | 1)
    }

    fn next(&mut self) -> u64 {
        self.0 ^= self.0 << 13;
        self.0 ^= self.0 >> 7;
        self.0 ^= self.0 << 17;
        self.0.wrapping_mul(0x2545_f491_4f6c_dd1d)
    }

    fn below(&mut self, bound: u64) -> u64 {
        self.next() % bound
    }

    fn flag(&mut self) -> bool {
        self.below(2) == 1
    }

    fn origin(&mut self) -> QueryOrigin {
        if self.flag() {
            QueryOrigin::Operator
        } else {
            QueryOrigin::Generated
        }
    }

    /// Codes biased toward the interesting neighborhoods, over all of `u32`.
    fn code(&mut self) -> u32 {
        match self.below(6) {
            0 => self.below(201) as u32,
            1 => 1100 + self.below(801) as u32,
            2 => 4200 + self.below(201) as u32,
            3 => 14990 + self.below(111) as u32,
            4 => 16900 + self.below(101) as u32,
            _ => self.next() as u32,
        }
    }

    fn rung(&mut self) -> Rung {
        let rungs = [
            TimeRung::BoundaryTick,
            TimeRung::OneSecond,
            TimeRung::TenSeconds,
            TimeRung::OneMinute,
            TimeRung::FiveMinutes,
            TimeRung::ThirtyMinutes,
        ];
        match self.below(5) {
            0 => Rung::Bookmark,
            1 => Rung::IsolateOne,
            2 => Rung::SkipRecord,
            3 => Rung::TimeAdvance(rungs[self.below(6) as usize]),
            _ => Rung::FutureOnly,
        }
    }

    fn time(&mut self) -> Timestamp {
        let secs = self.below(6_000_000_000) as i64 - 2_000_000_000;
        Timestamp::new(secs, self.below(1_000_000_000) as u32).unwrap()
    }

    /// A batch as the API delivers it: record numbers ascending, times arbitrary.
    fn batch(&mut self) -> Vec<(Timestamp, u64)> {
        let len = 1 + self.below(63);
        (0..len).map(|i| (self.time(), 1_000 + i)).collect()
    }
}

fn drain_code_is_named(code: u32) -> bool {
    matches!(code, 259 | 4317 | 1223 | 15000 | 15009 | 5 | 15001 | 1734)
}

fn subscribe_code_is_named(code: u32) -> bool {
    matches!(code, 15000 | 15009 | 5 | 15001 | 1168 | 15011 | 15012)
        || code == INHERITED_UNDOCUMENTED_16953
}

fn reuses_the_same_handle(outcome: DrainOutcome) -> bool {
    match outcome {
        DrainOutcome::Drained => false,
        DrainOutcome::SkipChannel(_) => false,
        DrainOutcome::ReduceBatch => false,
        DrainOutcome::Rebuild => false,
    }
}

fn tears_down_the_subscription(disposition: RenderDisposition) -> bool {
    match disposition {
        RenderDisposition::UseBuffer => false,
        RenderDisposition::GrowBuffer => false,
        RenderDisposition::DropEvent => false,
    }
}

#[test]
fn classification_is_total_and_pure() {
    let mut random = Random::new(1);
    for _ in 0..CASES {
        let (code, returned, origin) = (random.code(), random.next() as u32, random.origin());
        let drained = classify_evt_next(code, returned, origin);
        assert_eq!(drained, classify_evt_next(code, returned, origin));
        let subscribed = classify_subscribe(code, origin);
        assert_eq!(subscribed, classify_subscribe(code, origin));
        let rendered = classify_render(code);
        assert_eq!(rendered, classify_render(code));
    }
}

#[test]
fn no_drain_input_retries_the_same_handle() {
    let mut random = Random::new(2);
    for _ in 0..CASES {
        let (code, returned, origin) = (random.code(), random.below(3) as u32, random.origin());
        let outcome = classify_evt_next(code, returned, origin);
        assert!(!reuses_the_same_handle(outcome));
        if outcome == DrainOutcome::Drained {
            assert!(
                code == 259 || (code == 4317 && returned == 0),
                "{code} with {returned} returned was treated as a clean drain"
            );
        }
    }
}

#[test]
fn unknown_codes_rebuild() {
    let mut random = Random::new(3);
    for _ in 0..CASES {
        let (code, returned, origin) = (random.code(), random.next() as u32, random.origin());
        if !drain_code_is_named(code) {
            assert_eq!(
                classify_evt_next(code, returned, origin),
                DrainOutcome::Rebuild
            );
        }
        if !subscribe_code_is_named(code) {
            assert_eq!(classify_subscribe(code, origin), SubscribeOutcome::Retry);
        }
    }
}

#[test]
fn render_codes_never_rebuild_a_subscription() {
    let mut random = Random::new(4);
    for _ in 0..CASES {
        let code = random.code();
        let disposition = classify_render(code);
        assert!(!tears_down_the_subscription(disposition));
        if code == 122 {
            assert_eq!(disposition, RenderDisposition::GrowBuffer);
        }
    }
    assert_eq!(classify_render(122), RenderDisposition::GrowBuffer);
}

#[test]
fn invalid_operation_is_benign_only_with_a_zero_count() {
    let mut random = Random::new(5);
    for case in 0..CASES {
        let returned = if case == 0 { 0 } else { random.next() as u32 };
        let outcome = classify_evt_next(4317, returned, random.origin());
        if returned == 0 {
            assert_eq!(outcome, DrainOutcome::Drained);
        } else {
            assert_eq!(outcome, DrainOutcome::Rebuild);
        }
    }
}

fn resume_state(
    start: Rung,
    identity_usable: bool,
    record_id: Option<u64>,
    have_time: bool,
) -> ResumeState {
    let mut resume = ResumeState::new(identity_usable);
    resume.rung = start;
    resume.last_record_id = record_id;
    if have_time {
        resume.last_event_time = Timestamp::new(1_700_000_000, 0);
    }
    resume
}

#[test]
fn the_resume_ladder_always_terminates() {
    // Longest possible walk: bookmark, isolate, skip, six time rungs, future-only.
    const LADDER_HEIGHT: usize = 10;
    let mut random = Random::new(6);
    for _ in 0..CASES {
        let start = random.rung();
        let record_id = if random.flag() {
            Some(random.next())
        } else {
            None
        };
        let mut resume = resume_state(start, random.flag(), record_id, random.flag());
        let mut seen = vec![resume.rung];
        let mut terminated = false;
        for step in 0..LADDER_HEIGHT {
            let next = resume.advance_rung();
            if next == Rung::FutureOnly {
                // Terminal: it must stay there however often it is pushed.
                for _ in 0..4 {
                    assert_eq!(resume.advance_rung(), Rung::FutureOnly);
                }
                terminated = true;
                break;
            }
            assert!(
                !seen.contains(&next),
                "rung {next:?} repeated at step {step} from start {start:?}"
            );
            seen.push(next);
        }
        assert!(terminated, "no end from {start:?}");
    }
}

#[test]
fn bookmark_death_also_reaches_the_terminal_rung() {
    let mut random = Random::new(7);
    for _ in 0..CASES {
        let start = random.rung();
        let record_id = if random.flag() {
            Some(random.next())
        } else {
            None
        };
        let mut resume = resume_state(start, random.flag(), record_id, random.flag());
        let mut terminated = false;
        for _ in 0..10 {
            let rung = resume.bookmark_dead();
            if rung == Rung::FutureOnly {
                assert_eq!(resume.bookmark_dead(), Rung::FutureOnly);
                terminated = true;
                break;
            }
            assert!(
                matches!(rung, Rung::TimeAdvance(_)),
                "a dead bookmark must never walk the poison rungs, but it produced {rung:?}"
            );
        }
        assert!(terminated, "repeated bookmark death never reached future-only");
    }
}

/// Replay one batch through the delivery decision: the records sent and those
/// withheld.
fn replay(resume: &mut ResumeState, batch: &[(Timestamp, u64)]) -> (Vec<u64>, Vec<u64>) {
    let mut sent = Vec::new();
    let mut withheld = Vec::new();
    for (time, record_id) in batch {
        if resume.take_poison_skip() {
            withheld.push(*record_id);
            continue;
        }
        sent.push(*record_id);
        resume.observe_event(*time, *record_id);
    }
    (sent, withheld)
}

#[test]
fn every_event_is_sent_unless_the_poison_one_shot_withholds_it() {
    let mut random = Random::new(8);
    for _ in 0..512 {
        let armed = random.flag();
        let start = random.rung();
        let mut resume = resume_state(start, random.flag(), Some(500), random.flag());
        resume.skip_next_record = armed;
        let batch = random.batch();

        let (sent, withheld) = replay(&mut resume, &batch);

        assert_eq!(sent.len() + withheld.len(), batch.len());
        assert_eq!(withheld.len(), usize::from(armed));
        let expected: Vec<u64> = batch
            .iter()
            .map(|(_, record_id)| *record_id)
            .skip(usize::from(armed))
            .collect();
        assert_eq!(sent, expected, "the rest of the batch is sent in order");
    }
}

#[test]
fn changing_every_event_time_changes_nothing_about_delivery() {
    let mut random = Random::new(9);
    for _ in 0..512 {
        let (start, usable, have_time, armed) =
            (random.rung(), random.flag(), random.flag(), random.flag());
        let first = random.batch();
        let second = random.batch();
        // Same record numbers, different times: only the times differ.
        let restamped: Vec<(Timestamp, u64)> = first
            .iter()
            .enumerate()
            .map(|(index, (_, record_id))| (second[index % second.len()].0, *record_id))
            .collect();

        let mut left = resume_state(start, usable, Some(500), have_time);
        left.skip_next_record = armed;
        let mut right = resume_state(start, usable, Some(500), have_time);
        right.skip_next_record = armed;

        assert_eq!(
            replay(&mut left, &first),
            replay(&mut right, &restamped),
            "the same records under different times must be sent and withheld alike"
        );
    }
}

#[test]
fn backoff_is_bounded_monotonic_and_jittered() {
    let mut random = Random::new(10);
    for _ in 0..CASES {
        let mut backoff = Backoff::new(random.next());
        let steps = 1 + random.below(23) as usize;
        let mut previous_ceiling = 0f64;

        for attempt in 0..steps {
            let delay = backoff.next_delay().as_nanos() as f64 / 1e9;
            let ceiling = (2f64.powi(attempt.min(6) as i32)).min(BACKOFF_CAP_SECS as f64);
            let floor = ceiling * (1.0 - JITTER_FRACTION);

            assert!(delay <= BACKOFF_CAP_SECS as f64);
            assert!(
                delay <= ceiling + f64::EPSILON,
                "delay {delay}s exceeded the scheduled {ceiling}s at attempt {attempt}"
            );
            assert!(
                delay >= floor - f64::EPSILON,
                "delay {delay}s fell below the band floor {floor}s at attempt {attempt}"
            );
            assert!(ceiling >= previous_ceiling);
            previous_ceiling = ceiling;
        }

        backoff.reset();
        let after_reset = backoff.next_delay().as_nanos() as f64 / 1e9;
        assert!(
            after_reset <= 1.0 + f64::EPSILON,
            "after a reset the first delay must be back at the 1s base, was {after_reset}s"
        );
    }
}
