//! Per-channel recovery state: backoff, resume ladder, batch adaptation,
//! poison-record escape and the edges of a failure episode.

use vstd::prelude::*;

use crate::time::{Span, Tick, Timestamp};

verus! {

/// Seconds of the first retry delay.
pub const BACKOFF_BASE_SECS: u64 = 1;

/// Seconds that no retry delay exceeds.
pub const BACKOFF_CAP_SECS: u64 = 60;

/// Consecutive clean batches before an adapted batch size doubles.
pub const CLEAN_BATCHES_TO_RECOVER: u32 = 10;

/// Consecutive rebuilds at one position before the position counts as poisoned.
pub const STUCK_REBUILDS_BEFORE_ESCAPE: u32 = 3;

/// Seconds between two reminders that a channel is still unavailable.
pub const UNAVAILABLE_REMINDER_SECS: u64 = 3600;

// ---------------------------------------------------------------------------
// Backoff
// ---------------------------------------------------------------------------
/// Exponential backoff with jitter that differs from channel to channel, so
/// that channels which fail together do not retry together.
#[derive(Debug, Clone, Copy, PartialEq, Eq, Structural)]
pub struct Backoff {
    /// Failed attempts since the last reset.
    pub attempt: u32,
    /// State of the jitter sequence.
    pub jitter_state: u64,
}

/// The delay before jitter, in seconds: one second, doubling to the cap.
pub open spec fn raw_delay_secs(attempt: nat) -> nat
    decreases attempt,
{
    if attempt == 0 {
        BACKOFF_BASE_SECS as nat
    } else {
        let doubled = 2 * raw_delay_secs((attempt - 1) as nat);
        if doubled <= BACKOFF_CAP_SECS {
            doubled
        } else {
            BACKOFF_CAP_SECS as nat
        }
    }
}

/// One step of the xorshift sequence with the triple 13, 7, 17.
pub open spec fn xorshift(state: u64) -> u64 {
    let a = state ^ (state << 13);
    let b = a ^ (a >> 7);
    b ^ (b << 17)
}

/// `num / den` to the nearest integer, a tie to the even one.
pub open spec fn round_half_even(num: nat, den: nat) -> nat {
    let quotient = num / den;
    let remainder = num % den;
    if 2 * remainder < den || (2 * remainder == den && quotient % 2 == 0) {
        quotient
    } else {
        quotient + 1
    }
}

/// The distance between neighbouring double-precision integers at `p`.
pub open spec fn double_ulp(p: nat) -> nat
    decreases p,
{
    if p < 0x20_0000_0000_0000 {
        1
    } else {
        2 * double_ulp(p / 2)
    }
}

/// The double-precision number nearest to an integer.
pub open spec fn to_double(p: nat) -> nat {
    round_half_even(p, double_ulp(p)) * double_ulp(p)
}

/// What jitter takes off a delay of `raw_secs`, in nanoseconds: a quarter of the
/// delay times `draw / 2^53`, multiplied in double precision and rounded to the
/// nanosecond.
pub open spec fn jitter_reduction_nanos(raw_secs: nat, draw: nat) -> nat {
    round_half_even(to_double(raw_secs * draw) * 1_000_000_000, 0x80_0000_0000_0000)
}

/// The delay that an attempt gives, in nanoseconds, with the jitter state that
/// the step leaves behind.
pub open spec fn backoff_delay_nanos(attempt: u32, jitter_state: u64) -> int {
    let raw = raw_delay_secs(attempt as nat);
    raw * 1_000_000_000 - jitter_reduction_nanos(raw, (jitter_state >> 11) as nat)
}

pub proof fn lemma_ulp_divides(p: nat, m: nat)
    requires
        m == 1 || m == 2 || m == 4 || m == 8 || m == 16 || m == 32 || m == 64,
        p < 0x20_0000_0000_0000 * m,
    ensures
        ({
            let u = double_ulp(p);
            u == 1 || u == 2 || u == 4 || u == 8 || u == 16 || u == 32 || u == 64
        }),
        double_ulp(p) <= m,
    decreases m,
{
    if p >= 0x20_0000_0000_0000 {
        lemma_ulp_divides(p / 2, m / 2);
    }
}

proof fn lemma_round_at_most(num: nat, den: nat, bound: nat)
    requires
        den >= 1,
        num <= bound * den,
    ensures
        round_half_even(num, den) <= bound,
{
    let q = num / den;
    let r = num % den;
    assert(num == q * den + r && 0 <= r < den) by (nonlinear_arith)
        requires
            den >= 1,
            q == num / den,
            r == num % den,
    ;
    if r > 0 {
        assert(q < bound) by (nonlinear_arith)
            requires
                num == q * den + r,
                r > 0,
                num <= bound * den,
                den >= 1,
        ;
    } else {
        assert(q <= bound) by (nonlinear_arith)
            requires
                num == q * den,
                num <= bound * den,
                den >= 1,
        ;
    }
}

/// Jitter only ever subtracts, and never more than a quarter of the delay.
pub proof fn jitter_takes_at_most_a_quarter(raw_secs: nat, draw: nat)
    requires
        raw_secs <= BACKOFF_CAP_SECS,
        draw < 0x20_0000_0000_0000,
    ensures
        4 * jitter_reduction_nanos(raw_secs, draw) <= raw_secs * 1_000_000_000,
{
    let p = raw_secs * draw;
    assert(p <= raw_secs * 0x20_0000_0000_0000) by (nonlinear_arith)
        requires
            p == raw_secs * draw,
            draw < 0x20_0000_0000_0000,
    ;
    lemma_ulp_divides(p, 64);
    let ulp = double_ulp(p);
    let limit = raw_secs * 0x20_0000_0000_0000;
    let ratio = 64nat / ulp;
    let steps = raw_secs * (0x8000_0000_0000 * ratio);
    assert(64 == ulp * ratio) by (nonlinear_arith)
        requires
            ulp == 1 || ulp == 2 || ulp == 4 || ulp == 8 || ulp == 16 || ulp == 32 || ulp == 64,
            ratio == 64nat / ulp,
    ;
    assert(limit == steps * ulp) by (nonlinear_arith)
        requires
            limit == raw_secs * 0x20_0000_0000_0000,
            steps == raw_secs * (0x8000_0000_0000 * ratio),
            64 == ulp * ratio,
    ;
    lemma_round_at_most(p, ulp, steps);
    let rounded = to_double(p);
    assert(rounded <= limit) by (nonlinear_arith)
        requires
            round_half_even(p, ulp) <= steps,
            rounded == round_half_even(p, ulp) * ulp,
            limit == steps * ulp,
    ;
    assert(rounded * 1_000_000_000 <= (raw_secs * 250_000_000) * 0x80_0000_0000_0000)
        by (nonlinear_arith)
        requires
            rounded <= limit,
            limit == raw_secs * 0x20_0000_0000_0000,
    ;
    lemma_round_at_most(
        rounded * 1_000_000_000,
        0x80_0000_0000_0000,
        (raw_secs * 250_000_000) as nat,
    );
}

proof fn lemma_raw_delay(attempt: nat)
    ensures
        1 <= raw_delay_secs(attempt) <= BACKOFF_CAP_SECS,
        attempt >= 6 ==> raw_delay_secs(attempt) == BACKOFF_CAP_SECS,
    decreases attempt,
{
    reveal_with_fuel(raw_delay_secs, 8);
    if attempt > 6 {
        lemma_raw_delay((attempt - 1) as nat);
    }
}

/// Every delay lies between three quarters of the undisturbed delay and the
/// undisturbed delay, which never exceeds the cap.
pub proof fn backoff_delay_is_bounded(attempt: u32, jitter_state: u64)
    ensures
        3 * raw_delay_secs(attempt as nat) * 1_000_000_000 <= 4 * backoff_delay_nanos(
            attempt,
            jitter_state,
        ),
        backoff_delay_nanos(attempt, jitter_state) <= raw_delay_secs(attempt as nat)
            * 1_000_000_000,
        backoff_delay_nanos(attempt, jitter_state) <= BACKOFF_CAP_SECS * 1_000_000_000,
{
    lemma_raw_delay(attempt as nat);
    assert(jitter_state >> 11 < 0x20_0000_0000_0000u64) by (bit_vector);
    jitter_takes_at_most_a_quarter(
        raw_delay_secs(attempt as nat),
        (jitter_state >> 11) as nat,
    );
}

/// The delay before jitter never shrinks from one attempt to the next.
pub proof fn backoff_never_shrinks(attempt: nat)
    ensures
        raw_delay_secs(attempt) <= raw_delay_secs(attempt + 1),
{
    lemma_raw_delay(attempt);
    reveal_with_fuel(raw_delay_secs, 2);
}

/// The jitter sequence never collapses to its fixed point zero.
pub proof fn jitter_never_collapses(state: u64)
    requires
        state != 0,
    ensures
        xorshift(state) != 0,
{
    let a = state ^ (state << 13);
    let b = a ^ (a >> 7);
    assert(state != 0 ==> state ^ (state << 13) != 0) by (bit_vector);
    assert(a != 0 ==> a ^ (a >> 7) != 0) by (bit_vector);
    assert(b != 0 ==> b ^ (b << 17) != 0) by (bit_vector);
}

fn exec_round_half_even(num: u128, den: u128) -> (rounded: u128)
    requires
        den >= 1,
        num < u128::MAX,
        2 * den <= u128::MAX,
    ensures
        rounded == round_half_even(num as nat, den as nat),
{
    let quotient: u128 = num / den;
    let remainder: u128 = num % den;
    assert(quotient <= num) by (nonlinear_arith)
        requires
            quotient == num / den,
            den >= 1,
    ;
    if 2 * remainder < den || (2 * remainder == den && quotient % 2 == 0) {
        quotient
    } else {
        quotient + 1
    }
}

/// The distance between neighbouring double-precision integers at `p`.
fn exec_double_ulp(p: u64) -> (ulp: u64)
    requires
        p < 0x800_0000_0000_0000,
    ensures
        ulp == double_ulp(p as nat),
        1 <= ulp <= 64,
{
    proof {
        lemma_ulp_divides(p as nat, 64);
    }
    let mut rest: u64 = p;
    let mut ulp: u64 = 1;
    while rest >= 0x20_0000_0000_0000
        invariant
            ulp == 1 || ulp == 2 || ulp == 4 || ulp == 8 || ulp == 16 || ulp == 32 || ulp == 64,
            rest < 0x20_0000_0000_0000 * (64int / ulp as int),
            double_ulp(p as nat) == ulp * double_ulp(rest as nat),
        decreases rest,
    {
        rest = rest / 2;
        ulp = ulp * 2;
    }
    ulp
}

/// What jitter takes off a delay, in nanoseconds.
fn exec_jitter_reduction(raw_secs: u64, draw: u64) -> (reduction: u64)
    requires
        raw_secs <= BACKOFF_CAP_SECS,
        draw < 0x20_0000_0000_0000,
    ensures
        reduction == jitter_reduction_nanos(raw_secs as nat, draw as nat),
        4 * reduction <= raw_secs * 1_000_000_000,
{
    assert(raw_secs * draw <= 60 * 0x20_0000_0000_0000) by (nonlinear_arith)
        requires
            raw_secs <= 60,
            draw < 0x20_0000_0000_0000,
    ;
    let product: u64 = raw_secs * draw;
    let ulp: u64 = exec_double_ulp(product);
    let steps: u128 = exec_round_half_even(product as u128, ulp as u128);
    assert(product <= product * ulp) by (nonlinear_arith)
        requires
            ulp >= 1,
    ;
    proof {
        lemma_round_at_most(product as nat, ulp as nat, product as nat);
        jitter_takes_at_most_a_quarter(raw_secs as nat, draw as nat);
    }
    assert(steps * ulp <= 0x800_0000_0000_0000 * 64) by (nonlinear_arith)
        requires
            steps <= 0x800_0000_0000_0000,
            ulp <= 64,
    ;
    let rounded: u128 = steps * ulp as u128;
    let reduction: u128 = exec_round_half_even(rounded * 1_000_000_000, 0x80_0000_0000_0000);
    reduction as u64
}

impl Backoff {
    /// A backoff whose jitter sequence is seeded with `seed`. The state is made
    /// odd: zero is a fixed point of the sequence.
    pub fn new(seed: u64) -> (backoff: Backoff)
        ensures
            backoff.attempt == 0,
            backoff.jitter_state == seed | 1,
            backoff.jitter_state != 0,
    {
        assert(seed | 1 != 0) by (bit_vector);
        Backoff { attempt: 0, jitter_state: seed | 1 }
    }

    /// Number of failed attempts since the last reset.
    pub fn attempt(&self) -> (attempt: u32)
        ensures
            attempt == self.attempt,
    {
        self.attempt
    }

    /// This backoff after one more failed attempt.
    pub open spec fn after_attempt(self) -> Backoff {
        Backoff {
            attempt: if self.attempt < u32::MAX {
                (self.attempt + 1) as u32
            } else {
                u32::MAX
            },
            jitter_state: xorshift(self.jitter_state),
        }
    }

    /// The delay that the next failed attempt gives, in nanoseconds.
    pub open spec fn next_delay_nanos(self) -> int {
        backoff_delay_nanos(self.attempt, xorshift(self.jitter_state))
    }

    /// Advance and return the next delay: one second doubling to the cap, minus
    /// up to a quarter of jitter.
    pub fn next_delay(&mut self) -> (delay: Span)
        ensures
            *final(self) == old(self).after_attempt(),
            delay@ == old(self).next_delay_nanos(),
            3 * raw_delay_secs(old(self).attempt as nat) * 1_000_000_000 <= 4 * delay@,
            delay@ <= raw_delay_secs(old(self).attempt as nat) * 1_000_000_000,
            delay@ <= BACKOFF_CAP_SECS * 1_000_000_000,
    {
        let attempt: u32 = self.attempt;
        let raw_secs: u64 = match attempt {
            0 => 1,
            1 => 2,
            2 => 4,
            3 => 8,
            4 => 16,
            5 => 32,
            _ => 60,
        };
        proof {
            lemma_raw_delay(attempt as nat);
            reveal_with_fuel(raw_delay_secs, 8);
        }
        self.attempt = self.attempt.saturating_add(1);
        let first: u64 = self.jitter_state ^ (self.jitter_state << 13);
        let second: u64 = first ^ (first >> 7);
        let state: u64 = second ^ (second << 17);
        self.jitter_state = state;
        assert(state >> 11 < 0x20_0000_0000_0000u64) by (bit_vector);
        let reduction: u64 = exec_jitter_reduction(raw_secs, state >> 11);
        Span::from_nanos(raw_secs * 1_000_000_000 - reduction)
    }

    /// Forget the failed attempts. The jitter sequence goes on where it is.
    pub fn reset(&mut self)
        ensures
            *final(self) == (Backoff { attempt: 0, ..*old(self) }),
    {
        self.attempt = 0;
    }
}

/// The jitter seed of a channel: the 64-bit FNV-1a hash of its name's bytes.
pub open spec fn fnv1a(bytes: Seq<u8>) -> u64
    decreases bytes.len(),
{
    if bytes.len() == 0 {
        0xcbf2_9ce4_8422_2325
    } else {
        (fnv1a(bytes.drop_last()) ^ (bytes.last() as u64)).wrapping_mul(0x100_0000_01b3)
    }
}

/// Stable jitter seed of a channel, the same in every run.
pub fn jitter_seed(channel: &str) -> (seed: u64)
    ensures
        seed == fnv1a(vstd::utf8::encode_utf8(channel@)),
{
    let bytes = channel.as_bytes();
    let mut hash: u64 = 0xcbf2_9ce4_8422_2325;
    let mut i: usize = 0;
    assert(bytes@.take(0) =~= Seq::<u8>::empty());
    while i < bytes.len()
        invariant
            i <= bytes@.len(),
            hash == fnv1a(bytes@.take(i as int)),
        decreases bytes.len() - i,
    {
        proof {
            let next = bytes@.take(i + 1);
            assert(next.drop_last() =~= bytes@.take(i as int));
            assert(next.last() == bytes@[i as int]);
        }
        hash = (hash ^ bytes[i] as u64).wrapping_mul(0x100_0000_01b3);
        i += 1;
    }
    assert(bytes@.take(i as int) =~= bytes@);
    hash
}

// ---------------------------------------------------------------------------
// The resume ladder
// ---------------------------------------------------------------------------
/// Where a channel resumed from.
#[derive(Debug, Clone, Copy, PartialEq, Eq, Structural)]
pub enum ResumedFrom {
    Bookmark,
    TimeFallback,
    FutureOnly,
}

/// The log value of a resume source.
pub open spec fn resumed_from_name(from: ResumedFrom) -> Seq<char> {
    match from {
        ResumedFrom::Bookmark => "bookmark"@,
        ResumedFrom::TimeFallback => "time_fallback"@,
        ResumedFrom::FutureOnly => "future_only"@,
    }
}

impl ResumedFrom {
    pub fn as_str(self) -> (name: &'static str)
        ensures
            name@ == resumed_from_name(self),
    {
        match self {
            ResumedFrom::Bookmark => "bookmark",
            ResumedFrom::TimeFallback => "time_fallback",
            ResumedFrom::FutureOnly => "future_only",
        }
    }
}

/// Time windows in ascending order of what they discard.
#[derive(Debug, Clone, Copy, PartialEq, Eq, Structural)]
pub enum TimeRung {
    /// The 100 ns tick of the last event. Floored to the millisecond, it reads
    /// that event's own millisecond again.
    BoundaryTick,
    OneSecond,
    TenSeconds,
    OneMinute,
    FiveMinutes,
    ThirtyMinutes,
}

/// The width of a time rung, in nanoseconds.
pub open spec fn advance_nanos(rung: TimeRung) -> int {
    match rung {
        TimeRung::BoundaryTick => 100,
        TimeRung::OneSecond => 1_000_000_000,
        TimeRung::TenSeconds => 10_000_000_000,
        TimeRung::OneMinute => 60_000_000_000,
        TimeRung::FiveMinutes => 300_000_000_000,
        TimeRung::ThirtyMinutes => 1_800_000_000_000,
    }
}

/// The next wider time rung.
pub open spec fn next_time_rung(rung: TimeRung) -> Option<TimeRung> {
    match rung {
        TimeRung::BoundaryTick => Some(TimeRung::OneSecond),
        TimeRung::OneSecond => Some(TimeRung::TenSeconds),
        TimeRung::TenSeconds => Some(TimeRung::OneMinute),
        TimeRung::OneMinute => Some(TimeRung::FiveMinutes),
        TimeRung::FiveMinutes => Some(TimeRung::ThirtyMinutes),
        TimeRung::ThirtyMinutes => None,
    }
}

/// The log value of a time rung.
pub open spec fn time_rung_name(rung: TimeRung) -> Seq<char> {
    match rung {
        TimeRung::BoundaryTick => "boundary_tick"@,
        TimeRung::OneSecond => "+1s"@,
        TimeRung::TenSeconds => "+10s"@,
        TimeRung::OneMinute => "+60s"@,
        TimeRung::FiveMinutes => "+5m"@,
        TimeRung::ThirtyMinutes => "+30m"@,
    }
}

impl TimeRung {
    /// How far this rung moves the resume point.
    pub fn advance_by(self) -> (span: Span)
        ensures
            span@ == advance_nanos(self),
            span@ <= 1_800_000_000_000,
    {
        match self {
            TimeRung::BoundaryTick => Span::from_nanos(100),
            TimeRung::OneSecond => Span::from_secs(1),
            TimeRung::TenSeconds => Span::from_secs(10),
            TimeRung::OneMinute => Span::from_secs(60),
            TimeRung::FiveMinutes => Span::from_secs(300),
            TimeRung::ThirtyMinutes => Span::from_secs(1800),
        }
    }

    /// The next wider rung, if there is one.
    pub fn next(self) -> (next: Option<TimeRung>)
        ensures
            next == next_time_rung(self),
    {
        match self {
            TimeRung::BoundaryTick => Some(TimeRung::OneSecond),
            TimeRung::OneSecond => Some(TimeRung::TenSeconds),
            TimeRung::TenSeconds => Some(TimeRung::OneMinute),
            TimeRung::OneMinute => Some(TimeRung::FiveMinutes),
            TimeRung::FiveMinutes => Some(TimeRung::ThirtyMinutes),
            TimeRung::ThirtyMinutes => None,
        }
    }

    pub fn as_str(self) -> (name: &'static str)
        ensures
            name@ == time_rung_name(self),
    {
        match self {
            TimeRung::BoundaryTick => "boundary_tick",
            TimeRung::OneSecond => "+1s",
            TimeRung::TenSeconds => "+10s",
            TimeRung::OneMinute => "+60s",
            TimeRung::FiveMinutes => "+5m",
            TimeRung::ThirtyMinutes => "+30m",
        }
    }
}

/// One rung of the resume ladder, from the most precise escape to the coarsest.
#[derive(Debug, Clone, Copy, PartialEq, Eq, Structural)]
pub enum Rung {
    /// Strict bookmark resume, the normal state.
    Bookmark,
    /// Batches of one record, so that the next failure names one record.
    IsolateOne,
    /// Skip the isolated record, which loses exactly one event.
    SkipRecord,
    /// Resume from a time, where record identity cannot be used.
    TimeAdvance(TimeRung),
    /// Give the backlog up and read future events only.
    FutureOnly,
}

/// The log value of a rung.
pub open spec fn rung_name(rung: Rung) -> Seq<char> {
    match rung {
        Rung::Bookmark => "bookmark"@,
        Rung::IsolateOne => "isolate_one"@,
        Rung::SkipRecord => "skip_record"@,
        Rung::TimeAdvance(t) => time_rung_name(t),
        Rung::FutureOnly => "future_only"@,
    }
}

/// The resume source that a rung stands for.
pub open spec fn rung_source(rung: Rung) -> ResumedFrom {
    match rung {
        Rung::TimeAdvance(_) => ResumedFrom::TimeFallback,
        Rung::FutureOnly => ResumedFrom::FutureOnly,
        _ => ResumedFrom::Bookmark,
    }
}

/// Whether events are being discarded on purpose on this rung.
pub open spec fn discards_on_purpose(rung: Rung) -> bool {
    rung != Rung::Bookmark && rung != Rung::IsolateOne
}

/// The height of a rung on the ladder.
pub open spec fn rung_height(rung: Rung) -> nat {
    match rung {
        Rung::Bookmark => 0,
        Rung::IsolateOne => 1,
        Rung::SkipRecord => 2,
        Rung::TimeAdvance(TimeRung::BoundaryTick) => 3,
        Rung::TimeAdvance(TimeRung::OneSecond) => 4,
        Rung::TimeAdvance(TimeRung::TenSeconds) => 5,
        Rung::TimeAdvance(TimeRung::OneMinute) => 6,
        Rung::TimeAdvance(TimeRung::FiveMinutes) => 7,
        Rung::TimeAdvance(TimeRung::ThirtyMinutes) => 8,
        Rung::FutureOnly => 9,
    }
}

/// The rung after a time window has failed.
pub open spec fn after_time_rung(rung: TimeRung) -> Rung {
    match next_time_rung(rung) {
        Some(next) => Rung::TimeAdvance(next),
        None => Rung::FutureOnly,
    }
}

impl Rung {
    pub fn as_str(self) -> (name: &'static str)
        ensures
            name@ == rung_name(self),
    {
        match self {
            Rung::Bookmark => "bookmark",
            Rung::IsolateOne => "isolate_one",
            Rung::SkipRecord => "skip_record",
            Rung::TimeAdvance(t) => t.as_str(),
            Rung::FutureOnly => "future_only",
        }
    }

    /// Where a resume on this rung comes from.
    pub fn resumed_from(self) -> (from: ResumedFrom)
        ensures
            from == rung_source(self),
    {
        match self {
            Rung::Bookmark | Rung::IsolateOne | Rung::SkipRecord => ResumedFrom::Bookmark,
            Rung::TimeAdvance(_) => ResumedFrom::TimeFallback,
            Rung::FutureOnly => ResumedFrom::FutureOnly,
        }
    }

    /// Whether events are being discarded on purpose, so that a gap in record
    /// ids has been reported already.
    pub fn is_deliberate_skip(self) -> (deliberate: bool)
        ensures
            deliberate == discards_on_purpose(self),
    {
        match self {
            Rung::Bookmark | Rung::IsolateOne => false,
            _ => true,
        }
    }
}

/// The resume position and the ladder state of one channel.
#[derive(Debug, Clone, Copy, PartialEq, Eq)]
pub struct ResumeState {
    pub rung: Rung,
    /// Time of the last event that was processed.
    pub last_event_time: Option<Timestamp>,
    /// Record id of the last event that was processed.
    pub last_record_id: Option<u64>,
    /// Withhold the first record delivered after this resume. A poison record
    /// has no known id: the read failed before anything could name it. It is the
    /// record just past the resume boundary.
    pub skip_next_record: bool,
    /// Position at the last rebuild.
    pub stuck_position: Option<(Timestamp, u64)>,
    /// Consecutive rebuilds at that position.
    pub stuck_count: u32,
    /// Whether record ids mean anything on this channel.
    pub record_identity_usable: bool,
}

impl ResumeState {
    /// The position, where both of its parts are known.
    pub open spec fn position(self) -> Option<(Timestamp, u64)> {
        match (self.last_event_time, self.last_record_id) {
            (Some(t), Some(r)) => Some((t, r)),
            _ => None,
        }
    }

    /// A channel with no position yet.
    pub open spec fn fresh(record_identity_usable: bool) -> ResumeState {
        ResumeState {
            rung: Rung::Bookmark,
            last_event_time: None,
            last_record_id: None,
            skip_next_record: false,
            stuck_position: None,
            stuck_count: 0,
            record_identity_usable,
        }
    }

    /// This state after an event has been processed.
    pub open spec fn after_event(self, time: Timestamp, record_id: u64) -> ResumeState {
        ResumeState { last_event_time: Some(time), last_record_id: Some(record_id), ..self }
    }

    /// This state after a batch has been read cleanly.
    pub open spec fn after_clean_read(self) -> ResumeState {
        ResumeState {
            rung: Rung::Bookmark,
            skip_next_record: false,
            stuck_position: None,
            stuck_count: 0,
            ..self
        }
    }

    /// This state after record ids have proved meaningless.
    pub open spec fn without_record_identity(self) -> ResumeState {
        ResumeState { record_identity_usable: false, ..self }
    }

    /// This state after a rebuild: the count of consecutive rebuilds at one
    /// position.
    pub open spec fn after_rebuild(self) -> ResumeState {
        if self.position() is Some && self.position() == self.stuck_position {
            ResumeState {
                stuck_count: if self.stuck_count < u32::MAX {
                    (self.stuck_count + 1) as u32
                } else {
                    u32::MAX
                },
                ..self
            }
        } else {
            ResumeState { stuck_position: self.position(), stuck_count: 1, ..self }
        }
    }

    /// Whether the position has not moved for long enough to count as poisoned.
    pub open spec fn is_stuck(self) -> bool {
        self.stuck_count >= STUCK_REBUILDS_BEFORE_ESCAPE
    }

    /// The rung above the current one on the poison ladder.
    pub open spec fn next_rung(self) -> Rung {
        match self.rung {
            Rung::Bookmark => Rung::IsolateOne,
            Rung::IsolateOne => if self.record_identity_usable && self.last_record_id is Some {
                Rung::SkipRecord
            } else {
                Rung::TimeAdvance(TimeRung::BoundaryTick)
            },
            Rung::SkipRecord => Rung::TimeAdvance(TimeRung::BoundaryTick),
            Rung::TimeAdvance(t) => after_time_rung(t),
            Rung::FutureOnly => Rung::FutureOnly,
        }
    }

    /// This state one rung up: the skip is armed exactly on the skip rung.
    pub open spec fn advanced(self) -> ResumeState {
        ResumeState {
            rung: self.next_rung(),
            stuck_count: 0,
            skip_next_record: self.next_rung() == Rung::SkipRecord,
            ..self
        }
    }

    /// The rung to take when the stored position no longer resolves: a time
    /// window, or the future alone where no time is stored.
    pub open spec fn dead_bookmark_rung(self) -> Rung {
        if self.last_event_time is None {
            Rung::FutureOnly
        } else {
            match self.rung {
                Rung::TimeAdvance(t) => after_time_rung(t),
                Rung::FutureOnly => Rung::FutureOnly,
                _ => Rung::TimeAdvance(TimeRung::BoundaryTick),
            }
        }
    }

    /// This state after the stored position stopped resolving.
    pub open spec fn after_dead_bookmark(self) -> ResumeState {
        ResumeState {
            rung: self.dead_bookmark_rung(),
            stuck_count: 0,
            skip_next_record: false,
            ..self
        }
    }

    /// How far the current rung moves the resume point, in nanoseconds. The
    /// boundary tick moves it nowhere: a tick at the end of a millisecond would
    /// carry the floor past the last event.
    pub open spec fn rung_advance(self) -> int {
        match self.rung {
            Rung::TimeAdvance(t) => if t == TimeRung::BoundaryTick {
                0
            } else {
                advance_nanos(t)
            },
            _ => 0,
        }
    }

    /// The time at which a resume by time starts: the last event's time, moved
    /// by the rung's window and floored to the millisecond. Absent without a
    /// stored time, and where the moved time leaves the calendar.
    pub open spec fn floor_parts(self) -> Option<(int, int)> {
        match self.last_event_time {
            None => None,
            Some(base) => {
                let moved = crate::time::shifted(base.secs(), base.nanos(), self.rung_advance());
                if moved.0 > crate::time::MAX_CALENDAR_SECS {
                    None
                } else {
                    Some((moved.0, moved.1 - moved.1 % 1_000_000))
                }
            },
        }
    }

    /// A channel with no position yet.
    pub fn new(record_identity_usable: bool) -> (state: ResumeState)
        ensures
            state == ResumeState::fresh(record_identity_usable),
    {
        ResumeState {
            rung: Rung::Bookmark,
            last_event_time: None,
            last_record_id: None,
            skip_next_record: false,
            stuck_position: None,
            stuck_count: 0,
            record_identity_usable,
        }
    }

    /// Record a processed event. Its time and record id are kept as the position
    /// and decide nothing about delivery.
    pub fn observe_event(&mut self, time: Timestamp, record_id: u64)
        ensures
            *final(self) == old(self).after_event(time, record_id),
    {
        self.last_event_time = Some(time);
        self.last_record_id = Some(record_id);
    }

    /// A batch read cleanly: reset the ladder and the stuck detector.
    pub fn observe_clean_read(&mut self)
        ensures
            *final(self) == old(self).after_clean_read(),
    {
        self.rung = Rung::Bookmark;
        self.skip_next_record = false;
        self.stuck_position = None;
        self.stuck_count = 0;
    }

    /// Record ids on this channel come from many machines and mean nothing.
    pub fn mark_record_identity_unusable(&mut self)
        ensures
            *final(self) == old(self).without_record_identity(),
    {
        self.record_identity_usable = false;
    }

    /// Called once per rebuild. True when the position has not moved for
    /// [`STUCK_REBUILDS_BEFORE_ESCAPE`] consecutive rebuilds.
    pub fn note_rebuild(&mut self) -> (stuck: bool)
        ensures
            *final(self) == old(self).after_rebuild(),
            stuck == final(self).is_stuck(),
    {
        let position: Option<(Timestamp, u64)> = match (self.last_event_time, self.last_record_id) {
            (Some(t), Some(r)) => Some((t, r)),
            _ => None,
        };
        let unmoved = match (position, self.stuck_position) {
            (Some(here), Some(there)) => here.0 == there.0 && here.1 == there.1,
            _ => false,
        };
        if unmoved {
            self.stuck_count = self.stuck_count.saturating_add(1);
        } else {
            self.stuck_position = position;
            self.stuck_count = 1;
        }
        self.stuck_count >= STUCK_REBUILDS_BEFORE_ESCAPE
    }

    /// Advance exactly one rung. The skip is armed by landing on the skip rung
    /// and disarmed by leaving it.
    pub fn advance_rung(&mut self) -> (rung: Rung)
        ensures
            *final(self) == old(self).advanced(),
            rung == final(self).rung,
    {
        self.stuck_count = 0;
        self.rung = match self.rung {
            Rung::Bookmark => Rung::IsolateOne,
            Rung::IsolateOne => {
                if self.record_identity_usable && self.last_record_id.is_some() {
                    Rung::SkipRecord
                } else {
                    Rung::TimeAdvance(TimeRung::BoundaryTick)
                }
            },
            Rung::SkipRecord => Rung::TimeAdvance(TimeRung::BoundaryTick),
            Rung::TimeAdvance(t) => match t.next() {
                Some(next) => Rung::TimeAdvance(next),
                None => Rung::FutureOnly,
            },
            Rung::FutureOnly => Rung::FutureOnly,
        };
        self.skip_next_record = self.rung == Rung::SkipRecord;
        self.rung
    }

    /// The stored position no longer resolves. There is no offending record, so
    /// the poison ladder does not apply: resume by time, or from the future
    /// where no time is stored.
    pub fn bookmark_dead(&mut self) -> (rung: Rung)
        ensures
            *final(self) == old(self).after_dead_bookmark(),
            rung == final(self).rung,
    {
        self.stuck_count = 0;
        self.skip_next_record = false;
        self.rung = if self.last_event_time.is_some() {
            match self.rung {
                Rung::TimeAdvance(t) => match t.next() {
                    Some(next) => Rung::TimeAdvance(next),
                    None => Rung::FutureOnly,
                },
                Rung::FutureOnly => Rung::FutureOnly,
                _ => Rung::TimeAdvance(TimeRung::BoundaryTick),
            }
        } else {
            Rung::FutureOnly
        };
        self.rung
    }

    /// The lower bound of a resume by time, floored to the millisecond so that
    /// it reads too much rather than too little. The boundary tick reads the last
    /// event's own millisecond again.
    pub fn time_floor(&self) -> (floor: Option<Timestamp>)
        ensures
            floor is Some <==> self.floor_parts() is Some,
            floor matches Some(t) ==> self.floor_parts() == Some((t.secs(), t.nanos())),
    {
        let base: Timestamp = match self.last_event_time {
            Some(t) => t,
            None => {
                return None;
            },
        };
        let parts = base.parts();
        let advance: i64 = match self.rung {
            Rung::TimeAdvance(TimeRung::BoundaryTick) => 0,
            Rung::TimeAdvance(t) => {
                let nanos: u128 = t.advance_by().as_nanos();
                nanos as i64
            },
            _ => 0,
        };
        let advanced: Timestamp = match base.checked_add_nanos(advance) {
            Some(t) => t,
            None => {
                return None;
            },
        };
        let moved = advanced.parts();
        let excess: u32 = moved.1 % 1_000_000;
        proof {
            let total = moved.0 * 1_000_000_000 + moved.1 - excess as int;
            if moved.1 < 1_000_000_000 {
                assert(total / 1_000_000_000 == moved.0 && total % 1_000_000_000 == moved.1
                    - excess as int);
            }
        }
        advanced.checked_add_nanos(-(excess as i64))
    }

    /// Consume the one-shot skip, if it is armed. This is the only reason to
    /// withhold an event, and nothing about the event takes part in it.
    pub fn take_poison_skip(&mut self) -> (withhold: bool)
        ensures
            withhold == old(self).skip_next_record,
            *final(self) == (ResumeState { skip_next_record: false, ..*old(self) }),
    {
        if self.skip_next_record {
            self.skip_next_record = false;
            return true;
        }
        false
    }
}

/// This state after the ladder has been climbed `steps` times.
pub open spec fn climbed(state: ResumeState, steps: nat) -> ResumeState
    decreases steps,
{
    if steps == 0 {
        state
    } else {
        climbed(state, (steps - 1) as nat).advanced()
    }
}

/// This state after the stored position has failed to resolve `times` times.
pub open spec fn died(state: ResumeState, times: nat) -> ResumeState
    decreases times,
{
    if times == 0 {
        state
    } else {
        died(state, (times - 1) as nat).after_dead_bookmark()
    }
}

/// Climbing goes strictly up until the top rung, and stays there: the ladder
/// never cycles, and from any rung nine steps reach the top.
pub proof fn ladder_terminates(state: ResumeState, steps: nat)
    ensures
        state.rung != Rung::FutureOnly ==> rung_height(state.advanced().rung) > rung_height(
            state.rung,
        ),
        state.rung == Rung::FutureOnly ==> state.advanced().rung == Rung::FutureOnly,
        rung_height(climbed(state, steps).rung) >= if steps < 9 {
            steps
        } else {
            9
        },
        steps >= 9 ==> climbed(state, steps).rung == Rung::FutureOnly,
    decreases steps,
{
    if steps > 0 {
        ladder_terminates(state, (steps - 1) as nat);
    }
}

/// A position that keeps failing to resolve only ever resumes by time or from
/// the future, with no skip armed, and reaches the future within seven failures.
pub proof fn dead_bookmarks_widen_to_the_future(state: ResumeState, times: nat)
    requires
        times >= 1,
    ensures
        rung_height(died(state, times).rung) >= if times < 7 {
            times + 2
        } else {
            9
        },
        times >= 7 ==> died(state, times).rung == Rung::FutureOnly,
        state.last_event_time is None ==> died(state, times).rung == Rung::FutureOnly,
        rung_source(died(state, times).rung) != ResumedFrom::Bookmark,
        !died(state, times).skip_next_record,
        died(state, times).last_event_time == state.last_event_time,
    decreases times,
{
    reveal_with_fuel(died, 2);
    if times > 1 {
        dead_bookmarks_widen_to_the_future(state, (times - 1) as nat);
    }
}

/// Whether a pending skip belongs to the skip rung.
pub open spec fn skip_only_on_skip_rung(state: ResumeState) -> bool {
    state.skip_next_record ==> state.rung == Rung::SkipRecord
}

/// A skip is pending only on the skip rung, whatever happens to the channel, and
/// never where record ids mean nothing.
pub proof fn skip_belongs_to_the_skip_rung(
    state: ResumeState,
    time: Timestamp,
    record_id: u64,
    usable: bool,
)
    requires
        skip_only_on_skip_rung(state),
    ensures
        skip_only_on_skip_rung(ResumeState::fresh(usable)),
        skip_only_on_skip_rung(state.after_event(time, record_id)),
        skip_only_on_skip_rung(state.after_clean_read()),
        skip_only_on_skip_rung(state.without_record_identity()),
        skip_only_on_skip_rung(state.after_rebuild()),
        skip_only_on_skip_rung(state.advanced()),
        skip_only_on_skip_rung(state.after_dead_bookmark()),
        !state.record_identity_usable ==> !state.advanced().skip_next_record,
        state.advanced().skip_next_record == (state.advanced().rung == Rung::SkipRecord),
{
}

/// Which of the events delivered after a resume are withheld, in order.
pub open spec fn withheld(state: ResumeState, events: Seq<(Timestamp, u64)>) -> Seq<bool>
    decreases events.len(),
{
    if events.len() == 0 {
        Seq::empty()
    } else {
        let taken = ResumeState { skip_next_record: false, ..state };
        seq![state.skip_next_record] + withheld(
            taken.after_event(events[0].0, events[0].1),
            events.skip(1),
        )
    }
}

/// Whatever times and record ids the events carry, one pending skip withholds
/// the first of them and no other; without one, every event is sent.
pub proof fn only_the_poison_record_is_withheld(state: ResumeState, events: Seq<(Timestamp, u64)>)
    ensures
        withheld(state, events).len() == events.len(),
        forall|i: int|
            0 <= i < events.len() ==> #[trigger] withheld(state, events)[i] == (i == 0
                && state.skip_next_record),
    decreases events.len(),
{
    if events.len() > 0 {
        let taken = ResumeState { skip_next_record: false, ..state };
        let rest = taken.after_event(events[0].0, events[0].1);
        only_the_poison_record_is_withheld(rest, events.skip(1));
        assert forall|i: int| 0 <= i < events.len() implies #[trigger] withheld(state, events)[i]
            == (i == 0 && state.skip_next_record) by {
            if i > 0 {
                assert(withheld(state, events)[i] == withheld(rest, events.skip(1))[i - 1]);
            }
        }
    }
}

/// A position that moves between rebuilds is never taken for a poisoned one.
pub proof fn moving_position_is_never_stuck(state: ResumeState)
    requires
        state.position() is None || state.position() != state.stuck_position,
    ensures
        !state.after_rebuild().is_stuck(),
{
}

/// This state after `times` rebuilds between which nothing was read.
pub open spec fn rebuilt(state: ResumeState, times: nat) -> ResumeState
    decreases times,
{
    if times == 0 {
        state
    } else {
        rebuilt(state, (times - 1) as nat).after_rebuild()
    }
}

/// A position that does not move trips the detector on the third rebuild, not
/// before, and on every later one.
pub proof fn fixed_position_is_stuck_on_the_third_rebuild(state: ResumeState, times: nat)
    requires
        state.position() is Some,
        state.position() != state.stuck_position,
        times >= 1,
    ensures
        rebuilt(state, times).is_stuck() <==> times >= STUCK_REBUILDS_BEFORE_ESCAPE,
{
    lemma_rebuilt(state, times);
}

proof fn lemma_rebuilt(state: ResumeState, times: nat)
    requires
        state.position() is Some,
        state.position() != state.stuck_position,
        times >= 1,
    ensures
        rebuilt(state, times).position() == state.position(),
        rebuilt(state, times).stuck_position == state.position(),
        rebuilt(state, times).stuck_count == if times < u32::MAX {
            times as int
        } else {
            u32::MAX as int
        },
    decreases times,
{
    reveal_with_fuel(rebuilt, 2);
    if times > 1 {
        lemma_rebuilt(state, (times - 1) as nat);
    }
}

/// What happens to a resume state.
pub enum ResumeEvent {
    /// An event was taken in.
    Event(Timestamp, u64),
    /// A batch was read cleanly.
    CleanRead,
    /// The subscription was rebuilt.
    Rebuild,
    /// The ladder advanced.
    Advance,
    /// The bookmark turned out dead.
    DeadBookmark,
    /// Record ids turned out meaningless.
    IdentityLost,
    /// A pending skip was spent.
    SkipTaken,
}

impl ResumeState {
    /// This state after one thing that happens to it.
    pub open spec fn after_resume_event(self, event: ResumeEvent) -> ResumeState {
        match event {
            ResumeEvent::Event(time, record_id) => self.after_event(time, record_id),
            ResumeEvent::CleanRead => self.after_clean_read(),
            ResumeEvent::Rebuild => self.after_rebuild(),
            ResumeEvent::Advance => self.advanced(),
            ResumeEvent::DeadBookmark => self.after_dead_bookmark(),
            ResumeEvent::IdentityLost => self.without_record_identity(),
            ResumeEvent::SkipTaken => ResumeState { skip_next_record: false, ..self },
        }
    }
}

/// This state after a history.
#[verifier::opaque]
pub open spec fn resumed(state: ResumeState, history: Seq<ResumeEvent>) -> ResumeState
    decreases history.len(),
{
    if history.len() == 0 {
        state
    } else {
        resumed(state, history.drop_last()).after_resume_event(history.last())
    }
}

/// Whether an event starts the count of rebuilds anew: a clean read, or a step of
/// the ladder.
pub open spec fn restarts_count(event: ResumeEvent) -> bool {
    event is CleanRead || event is Advance || event is DeadBookmark
}

/// Whether from event `from` on the count is never started anew and every rebuild
/// finds the position `place`.
pub open spec fn stays_at(
    state: ResumeState,
    history: Seq<ResumeEvent>,
    from: int,
    place: (Timestamp, u64),
) -> bool {
    &&& 0 <= from <= history.len()
    &&& forall|i: int| from <= i < history.len() ==> #[trigger] is_steady(state, history, i, place)
}

/// Whether an event does not start the count anew and, where it is a rebuild,
/// finds the position `place`.
pub open spec fn is_steady(
    state: ResumeState,
    history: Seq<ResumeEvent>,
    i: int,
    place: (Timestamp, u64),
) -> bool {
    &&& !restarts_count(history[i])
    &&& history[i] is Rebuild ==> resumed(state, history.take(i)).position() == Some(place)
}

/// The number of rebuilds from event `from` on.
pub open spec fn rebuilds(history: Seq<ResumeEvent>, from: int) -> nat
    decreases history.len(),
{
    if history.len() == 0 || history.len() <= from {
        0
    } else {
        rebuilds(history.drop_last(), from) + if history.last() is Rebuild {
            1nat
        } else {
            0
        }
    }
}

/// Whether the last rebuilds, at least `count` of them, all found one position.
pub open spec fn stood_still(state: ResumeState, history: Seq<ResumeEvent>, count: nat) -> bool {
    exists|from: int, place: (Timestamp, u64)| #[trigger]
        stays_at(state, history, from, place) && rebuilds(history, from) >= count
}

/// After any history the detector says stuck exactly where the latest rebuilds,
/// three or more in a row, all found one and the same position, with no clean read
/// and no step of the ladder since the first of them. Nothing else that happened
/// in between takes part.
pub proof fn stuck_means_three_rebuilds_at_one_position(
    state: ResumeState,
    history: Seq<ResumeEvent>,
)
    requires
        state.stuck_count == 0,
    ensures
        resumed(state, history).is_stuck() <==> stood_still(
            state,
            history,
            STUCK_REBUILDS_BEFORE_ESCAPE as nat,
        ),
{
    lemma_stuck_count(state, history);
    let end = resumed(state, history);
    let least = STUCK_REBUILDS_BEFORE_ESCAPE as nat;
    if end.is_stuck() {
        let from = lemma_stuck_run(state, history);
        assert(stays_at(state, history, from, end.stuck_position->0));
    }
    if stood_still(state, history, least) {
        let (from, place) = choose|from: int, place: (Timestamp, u64)| #[trigger]
            stays_at(state, history, from, place) && rebuilds(history, from) >= least;
        lemma_run_counts(state, history, from, place);
    }
}

/// Without a position there is nothing to be stuck at.
proof fn lemma_stuck_count(state: ResumeState, history: Seq<ResumeEvent>)
    requires
        state.stuck_count == 0,
    ensures
        resumed(state, history).stuck_position is None ==> resumed(state, history).stuck_count <= 1,
    decreases history.len(),
{
    reveal(resumed);
    if history.len() > 0 {
        lemma_stuck_count(state, history.drop_last());
    }
}

/// What holds of all but the last event.
proof fn lemma_stays_before(
    state: ResumeState,
    history: Seq<ResumeEvent>,
    from: int,
    place: (Timestamp, u64),
)
    requires
        stays_at(state, history, from, place),
        from < history.len(),
    ensures
        stays_at(state, history.drop_last(), from, place),
        !restarts_count(history.last()),
        history.last() is Rebuild ==> resumed(state, history.drop_last()).position() == Some(place),
{
    let rest = history.drop_last();
    let last = history.len() - 1;
    assert(is_steady(state, history, last, place));
    assert(history.take(last) =~= rest);
    assert forall|i: int| from <= i < rest.len() implies #[trigger] is_steady(
        state,
        rest,
        i,
        place,
    ) by {
        assert(is_steady(state, history, i, place));
        assert(rest.take(i) =~= history.take(i));
    }
}

/// What holds with one more event.
proof fn lemma_stays_after(
    state: ResumeState,
    history: Seq<ResumeEvent>,
    from: int,
    place: (Timestamp, u64),
)
    requires
        history.len() > 0,
        stays_at(state, history.drop_last(), from, place),
        !restarts_count(history.last()),
        history.last() is Rebuild ==> resumed(state, history.drop_last()).position() == Some(place),
    ensures
        stays_at(state, history, from, place),
{
    let rest = history.drop_last();
    let last = history.len() - 1;
    assert(history.take(last) =~= rest);
    assert forall|i: int| from <= i < history.len() implies #[trigger] is_steady(
        state,
        history,
        i,
        place,
    ) by {
        if i < last {
            assert(is_steady(state, rest, i, place));
            assert(rest.take(i) =~= history.take(i));
        }
    }
}

/// A count stands for as many rebuilds at the position that it is kept for.
proof fn lemma_stuck_run(state: ResumeState, history: Seq<ResumeEvent>) -> (from: int)
    requires
        state.stuck_count == 0,
    ensures
        ({
            let end = resumed(state, history);
            end.stuck_count > 0 && end.stuck_position is Some ==> stays_at(
                state,
                history,
                from,
                end.stuck_position->0,
            ) && rebuilds(history, from) >= end.stuck_count
        }),
    decreases history.len(),
{
    reveal(resumed);
    if history.len() == 0 {
        0
    } else {
        let rest = history.drop_last();
        let last = history.len() - 1;
        let before = resumed(state, rest);
        let end = resumed(state, history);
        let from = lemma_stuck_run(state, rest);
        if end.stuck_count > 0 && end.stuck_position is Some {
            let place = end.stuck_position->0;
            if history.last() is Rebuild && !(before.position() == before.stuck_position
                && before.stuck_count > 0) {
                assert(stays_at(state, rest, last, place));
                lemma_stays_after(state, history, last, place);
                reveal_with_fuel(rebuilds, 2);
                last
            } else {
                lemma_stays_after(state, history, from, place);
                from
            }
        } else {
            from
        }
    }
}

/// Rebuilds at one position are counted, and the count is kept for it.
proof fn lemma_run_counts(
    state: ResumeState,
    history: Seq<ResumeEvent>,
    from: int,
    place: (Timestamp, u64),
)
    requires
        stays_at(state, history, from, place),
        rebuilds(history, from) > 0,
    ensures
        resumed(state, history).stuck_position == Some(place),
        resumed(state, history).stuck_count >= u32::MAX || resumed(state, history).stuck_count
            >= rebuilds(history, from),
    decreases history.len(),
{
    reveal(resumed);
    let rest = history.drop_last();
    lemma_stays_before(state, history, from, place);
    if rebuilds(rest, from) > 0 {
        lemma_run_counts(state, rest, from, place);
    }
}

/// Nanoseconds since 1970 of a time outside a leap second.
pub open spec fn since_epoch(parts: (int, int)) -> int {
    parts.0 * 1_000_000_000 + parts.1
}

proof fn lemma_floor_to_millis(last: int, advance: int)
    requires
        advance >= 0,
    ensures
        ({
            let moved = last + advance;
            let sub = moved % 1_000_000_000;
            let floor = (moved / 1_000_000_000) * 1_000_000_000 + (sub - sub % 1_000_000);
            &&& floor <= moved < floor + 1_000_000
            &&& floor >= last - last % 1_000_000
            &&& (sub - sub % 1_000_000) % 1_000_000 == 0
            &&& advance == 0 ==> floor == last - last % 1_000_000
        }),
{
    let moved = last + advance;
    let sub = moved % 1_000_000_000;
    vstd::arithmetic::div_mod::lemma_mod_mod(moved, 1_000_000, 1_000);
    vstd::arithmetic::div_mod::lemma_fundamental_div_mod(moved, 1_000_000_000);
    vstd::arithmetic::div_mod::lemma_fundamental_div_mod(moved, 1_000_000);
    vstd::arithmetic::div_mod::lemma_fundamental_div_mod(last, 1_000_000);
    vstd::arithmetic::div_mod::lemma_div_is_ordered(last, moved, 1_000_000);
}

/// A resume by time reads too much rather than too little: it starts within the
/// millisecond before the moved time, and never before the millisecond of the
/// last event itself. The boundary tick, like every rung that moves nothing, is
/// never later than the last event and so skips no record.
pub proof fn time_floor_over_delivers(state: ResumeState, base: Timestamp)
    requires
        state.last_event_time == Some(base),
        0 <= base.nanos() < 1_000_000_000,
        state.floor_parts() is Some,
    ensures
        ({
            let last = since_epoch((base.secs(), base.nanos()));
            let floor = since_epoch(state.floor_parts()->0);
            &&& floor <= last + state.rung_advance() < floor + 1_000_000
            &&& floor >= last - last % 1_000_000
            &&& (state.floor_parts()->0).1 % 1_000_000 == 0
            &&& state.rung == Rung::TimeAdvance(TimeRung::BoundaryTick) || !(state.rung is
                TimeAdvance) ==> floor == last - last % 1_000_000 && floor <= last
        }),
{
    let last = since_epoch((base.secs(), base.nanos()));
    let advance = state.rung_advance();
    lemma_floor_to_millis(last, advance);
    if state.rung == Rung::TimeAdvance(TimeRung::BoundaryTick) || !(state.rung is TimeAdvance) {
        assert(advance == 0);
        assert(since_epoch(state.floor_parts()->0) == last - last % 1_000_000);
    }
}

/// The boundary tick starts at the last event's own millisecond, in a leap second
/// too. So it can repeat events and never skips one.
pub proof fn boundary_tick_never_skips(state: ResumeState, base: Timestamp)
    requires
        state.last_event_time == Some(base),
        state.rung == Rung::TimeAdvance(TimeRung::BoundaryTick),
        crate::time::is_calendar_time(base.secs(), base.nanos()),
    ensures
        state.floor_parts() == Some((base.secs(), base.nanos() - base.nanos() % 1_000_000)),
        base.nanos() - base.nanos() % 1_000_000 <= base.nanos(),
{
}

// ---------------------------------------------------------------------------
// Batch adaptation
// ---------------------------------------------------------------------------
/// Adaptive batch size. A reduction is temporary and recovers on its own.
#[derive(Debug, Clone, Copy, PartialEq, Eq, Structural)]
pub struct BatchAdaptation {
    pub configured: usize,
    pub current: usize,
    pub clean_batches: u32,
}

impl BatchAdaptation {
    /// The adaptation at its configured size.
    pub open spec fn at_size(configured: usize) -> BatchAdaptation {
        BatchAdaptation { configured, current: configured, clean_batches: 0 }
    }

    /// Half the size, down to one.
    pub open spec fn halved(self) -> BatchAdaptation {
        BatchAdaptation {
            current: if self.current > 1 {
                self.current / 2
            } else {
                1
            },
            clean_batches: 0,
            ..self
        }
    }

    /// One record per batch.
    pub open spec fn isolated(self) -> BatchAdaptation {
        BatchAdaptation { current: 1, clean_batches: 0, ..self }
    }

    /// The size after a clean batch: doubled, up to the configured size, at every
    /// tenth in a row.
    pub open spec fn after_clean_batch(self) -> BatchAdaptation {
        if self.current >= self.configured {
            BatchAdaptation { clean_batches: 0, ..self }
        } else if self.clean_batches + 1 < CLEAN_BATCHES_TO_RECOVER {
            BatchAdaptation { clean_batches: (self.clean_batches + 1) as u32, ..self }
        } else {
            BatchAdaptation {
                current: if 2 * self.current <= self.configured {
                    (2 * self.current) as usize
                } else {
                    self.configured
                },
                clean_batches: 0,
                ..self
            }
        }
    }

    pub fn new(configured: usize) -> (batch: BatchAdaptation)
        ensures
            batch == BatchAdaptation::at_size(configured),
    {
        BatchAdaptation { configured, current: configured, clean_batches: 0 }
    }

    /// The batch size to ask for.
    pub fn current(&self) -> (size: usize)
        ensures
            size == self.current,
    {
        self.current
    }

    /// Halve after an oversized read, to a floor of one. Returns the new size.
    pub fn halve(&mut self) -> (size: usize)
        ensures
            *final(self) == old(self).halved(),
            size == final(self).current,
    {
        self.clean_batches = 0;
        self.current = if self.current > 1 {
            self.current / 2
        } else {
            1
        };
        self.current
    }

    /// Force to one, so that a failure is attributable to exactly one record.
    pub fn isolate(&mut self)
        ensures
            *final(self) == old(self).isolated(),
    {
        self.clean_batches = 0;
        self.current = 1;
    }

    /// A batch read cleanly. After enough of them, step back up.
    pub fn observe_clean_batch(&mut self)
        ensures
            *final(self) == old(self).after_clean_batch(),
    {
        if self.current >= self.configured {
            self.clean_batches = 0;
            return;
        }
        if self.clean_batches < CLEAN_BATCHES_TO_RECOVER - 1 {
            self.clean_batches += 1;
        } else {
            self.clean_batches = 0;
            self.current = if self.current <= self.configured / 2 {
                self.current * 2
            } else {
                self.configured
            };
        }
    }

    /// Return to the configured size in one step.
    pub fn restore(&mut self)
        ensures
            *final(self) == BatchAdaptation::at_size(old(self).configured),
    {
        self.current = self.configured;
        self.clean_batches = 0;
    }
}

/// Whether a batch size lies between one record and the configured size.
pub open spec fn batch_in_range(batch: BatchAdaptation) -> bool {
    1 <= batch.current <= batch.configured
}

/// The adaptation after a run of clean batches.
pub open spec fn clean_run(batch: BatchAdaptation, batches: nat) -> BatchAdaptation
    decreases batches,
{
    if batches == 0 {
        batch
    } else {
        clean_run(batch, (batches - 1) as nat).after_clean_batch()
    }
}

/// The batch size never leaves the range from one record to the configured size.
pub proof fn batch_stays_in_range(batch: BatchAdaptation)
    requires
        batch_in_range(batch),
    ensures
        batch_in_range(BatchAdaptation::at_size(batch.configured)),
        batch_in_range(batch.halved()),
        batch_in_range(batch.isolated()),
        batch_in_range(batch.after_clean_batch()),
        batch.after_clean_batch().current >= batch.current,
{
}

proof fn lemma_clean_runs_add(batch: BatchAdaptation, first: nat, second: nat)
    ensures
        clean_run(batch, first + second) == clean_run(clean_run(batch, first), second),
    decreases second,
{
    if second > 0 {
        lemma_clean_runs_add(batch, first, (second - 1) as nat);
        assert((first + second - 1) as nat == first + (second - 1) as nat);
    }
}

proof fn lemma_full_batch_stays(batch: BatchAdaptation, batches: nat)
    requires
        batch.current == batch.configured,
    ensures
        clean_run(batch, batches).current == batch.configured,
        clean_run(batch, batches).configured == batch.configured,
    decreases batches,
{
    if batches > 0 {
        lemma_full_batch_stays(batch, (batches - 1) as nat);
    }
}

/// A reduced batch size doubles after ten clean batches in a row, and enough
/// clean batches bring it back to the configured size, which it never exceeds.
pub proof fn clean_batches_restore_the_size(batch: BatchAdaptation, batches: nat)
    requires
        batch_in_range(batch),
        batch.clean_batches == 0,
    ensures
        batch.current < batch.configured ==> clean_run(batch, 10).current == if 2 * batch.current
            <= batch.configured {
            2 * batch.current
        } else {
            batch.configured as int
        },
        batches >= 10 * (batch.configured - batch.current) ==> clean_run(batch, batches).current
            == batch.configured,
    decreases batch.configured - batch.current,
{
    reveal_with_fuel(clean_run, 11);
    if batch.current == batch.configured {
        lemma_full_batch_stays(batch, batches);
    } else if batches >= 10 * (batch.configured - batch.current) {
        let next = clean_run(batch, 10);
        clean_batches_restore_the_size(next, (batches - 10) as nat);
        lemma_clean_runs_add(batch, 10, (batches - 10) as nat);
        assert(10 + (batches - 10) as nat == batches);
    }
}

// ---------------------------------------------------------------------------
// Failure episodes
// ---------------------------------------------------------------------------
/// The edges of one channel's failure episode: the onset once, repeats quiet, a
/// reminder every hour, the recovery once.
#[derive(Debug, Clone, Copy, PartialEq, Eq, Structural)]
pub struct EpisodeState {
    pub onset_logged: bool,
    pub last_reminder: Option<Tick>,
}

/// What to say about a failure.
#[derive(Debug, Clone, Copy, PartialEq, Eq, Structural)]
pub enum FailureEdge {
    /// First failure of an episode.
    Onset,
    /// The hourly reminder.
    OngoingReminder,
    /// A repeat inside an episode.
    Repeat,
}

impl Default for EpisodeState {
    fn default() -> (episode: EpisodeState)
        ensures
            episode == EpisodeState::calm(),
    {
        EpisodeState { onset_logged: false, last_reminder: None }
    }
}

impl EpisodeState {
    /// No episode in progress.
    pub open spec fn calm() -> EpisodeState {
        EpisodeState { onset_logged: false, last_reminder: None }
    }

    /// The edge that a failure at `now` makes.
    pub open spec fn failure_edge(self, now: Tick) -> FailureEdge {
        if !self.onset_logged {
            FailureEdge::Onset
        } else if self.last_reminder is Some && now.nanos - self.last_reminder->0.nanos
            >= UNAVAILABLE_REMINDER_SECS * 1_000_000_000 {
            FailureEdge::OngoingReminder
        } else {
            FailureEdge::Repeat
        }
    }

    /// This state after a failure at `now`.
    pub open spec fn after_failure(self, now: Tick) -> EpisodeState {
        if self.failure_edge(now) == FailureEdge::Repeat {
            self
        } else {
            EpisodeState { onset_logged: true, last_reminder: Some(now) }
        }
    }

    /// Classify a failure at `now`.
    pub fn observe_failure(&mut self, now: Tick) -> (edge: FailureEdge)
        ensures
            edge == old(self).failure_edge(now),
            *final(self) == old(self).after_failure(now),
    {
        if !self.onset_logged {
            self.onset_logged = true;
            self.last_reminder = Some(now);
            return FailureEdge::Onset;
        }
        match self.last_reminder {
            Some(last) => {
                let quiet: u128 = now.since(last).as_nanos();
                if quiet >= Span::from_secs(UNAVAILABLE_REMINDER_SECS).as_nanos() {
                    self.last_reminder = Some(now);
                    FailureEdge::OngoingReminder
                } else {
                    FailureEdge::Repeat
                }
            },
            None => FailureEdge::Repeat,
        }
    }

    /// True exactly once per episode, when the channel comes back.
    pub fn observe_recovery(&mut self) -> (recovered: bool)
        ensures
            recovered == old(self).onset_logged,
            *final(self) == EpisodeState::calm(),
    {
        let was_failing = self.onset_logged;
        self.onset_logged = false;
        self.last_reminder = None;
        was_failing
    }
}

/// The state after failures at the given times.
pub open spec fn failed_at(state: EpisodeState, times: Seq<Tick>) -> EpisodeState
    decreases times.len(),
{
    if times.len() == 0 {
        state
    } else {
        failed_at(state, times.drop_last()).after_failure(times.last())
    }
}

/// An episode has one onset, at its first failure, however many failures follow;
/// the recovery that ends it is announced, and a second recovery is not.
pub proof fn one_onset_and_one_recovery_per_episode(times: Seq<Tick>, now: Tick)
    ensures
        failed_at(EpisodeState::calm(), times).failure_edge(now) == FailureEdge::Onset
            <==> times.len() == 0,
        failed_at(EpisodeState::calm(), times).onset_logged <==> times.len() > 0,
        !EpisodeState::calm().onset_logged,
    decreases times.len(),
{
    if times.len() > 0 {
        one_onset_and_one_recovery_per_episode(times.drop_last(), times.last());
    }
}

// ---------------------------------------------------------------------------
// Record-id gaps
// ---------------------------------------------------------------------------
/// What a pair of consecutive record ids says about lost events.
#[derive(Debug, Clone, Copy, PartialEq, Eq, Structural)]
pub enum GapVerdict {
    /// Contiguous, or the first event.
    Continuous,
    /// An unexplained gap.
    Gap { missing: u64 },
    /// A gap that the ladder made and has reported.
    DeliberateSkip { missing: u64 },
    /// Record ids say nothing on this channel.
    Suppressed,
}

/// Reasons why record ids say nothing on a channel.
#[derive(Debug, Clone, Copy, PartialEq, Eq, Structural)]
pub struct GapDetection {
    /// The query filters events, so ids skip by construction.
    pub query_filters: bool,
    /// Events are forwarded from many machines, whose ids interleave.
    pub rendered_delivery: bool,
}

/// The verdict on a record id that follows `previous`.
pub open spec fn gap_verdict(
    previous: Option<u64>,
    current: u64,
    detection: GapDetection,
    deliberate: bool,
) -> GapVerdict {
    if detection.query_filters || detection.rendered_delivery {
        GapVerdict::Suppressed
    } else if previous is None || current <= previous->0 + 1 {
        GapVerdict::Continuous
    } else {
        let missing = (current - previous->0 - 1) as u64;
        if deliberate {
            GapVerdict::DeliberateSkip { missing }
        } else {
            GapVerdict::Gap { missing }
        }
    }
}

/// Evaluate one event's record id against the previous one.
pub fn evaluate_gap(
    previous: Option<u64>,
    current: u64,
    detection: GapDetection,
    deliberate_skip_in_play: bool,
) -> (verdict: GapVerdict)
    ensures
        verdict == gap_verdict(previous, current, detection, deliberate_skip_in_play),
{
    if detection.query_filters || detection.rendered_delivery {
        return GapVerdict::Suppressed;
    }
    let previous: u64 = match previous {
        Some(id) => id,
        None => {
            return GapVerdict::Continuous;
        },
    };
    if current <= previous || current - previous == 1 {
        return GapVerdict::Continuous;
    }
    let missing: u64 = current - previous - 1;
    if deliberate_skip_in_play {
        GapVerdict::DeliberateSkip { missing }
    } else {
        GapVerdict::Gap { missing }
    }
}

/// A gap counts exactly the ids strictly between the two records, and is never
/// reported where ids ascend by one.
pub proof fn gaps_count_the_ids_between(
    previous: u64,
    current: u64,
    detection: GapDetection,
    deliberate: bool,
)
    ensures
        gap_verdict(Some(previous), current, detection, deliberate) matches GapVerdict::Gap {
            missing,
        } ==> missing > 0 && previous + missing + 1 == current && !deliberate,
        gap_verdict(Some(previous), current, detection, deliberate) matches
            GapVerdict::DeliberateSkip { missing } ==> missing > 0 && previous + missing + 1
            == current && deliberate,
        current == previous + 1 ==> !(gap_verdict(Some(previous), current, detection, deliberate)
            is Gap),
{
}

} // verus!
