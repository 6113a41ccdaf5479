//! How a failing channel is recovered: the ladder, its time windows, the poison
//! detector, backoff, batch sizes, episodes and gaps.

use vstd::prelude::*;

use crate::recovery::{
    Backoff, BatchAdaptation, EpisodeState, FailureEdge, GapDetection, GapVerdict, ResumeState,
    ResumedFrom, Rung, TimeRung,
};
use crate::time::{Tick, Timestamp};

verus! {

/// The rungs from the most precise escape to the coarsest.
pub open spec fn rungs() -> Seq<Rung> {
    seq![
        Rung::Bookmark,
        Rung::IsolateOne,
        Rung::SkipRecord,
        Rung::TimeAdvance(TimeRung::BoundaryTick),
        Rung::TimeAdvance(TimeRung::OneSecond),
        Rung::TimeAdvance(TimeRung::TenSeconds),
        Rung::TimeAdvance(TimeRung::OneMinute),
        Rung::TimeAdvance(TimeRung::FiveMinutes),
        Rung::TimeAdvance(TimeRung::ThirtyMinutes),
        Rung::FutureOnly,
    ]
}

/// Every rung stands on the ladder once.
pub proof fn every_rung_has_its_place(rung: Rung) -> (i: int)
    ensures
        0 <= i < 10,
        rungs()[i] == rung,
        forall|j: int| 0 <= j < 10 && rungs()[j] == rung ==> i == j,
{
    match rung {
        Rung::Bookmark => 0,
        Rung::IsolateOne => 1,
        Rung::SkipRecord => 2,
        Rung::TimeAdvance(TimeRung::BoundaryTick) => 3,
        Rung::TimeAdvance(TimeRung::OneSecond) => 4,
        Rung::TimeAdvance(TimeRung::TenSeconds) => 5,
        Rung::TimeAdvance(TimeRung::OneMinute) => 6,
        Rung::TimeAdvance(TimeRung::FiveMinutes) => 7,
        Rung::TimeAdvance(TimeRung::ThirtyMinutes) => 8,
        Rung::FutureOnly => 9,
    }
}

/// Climbing goes exactly one rung up. The one rung that is ever passed over is
/// the skip of a single record, and exactly where record ids mean nothing or none
/// is known. So the backlog is given up only after the widest window has failed.
pub proof fn climbing_takes_one_rung_at_a_time(state: ResumeState, i: int)
    requires
        0 <= i < 10,
        rungs()[i] == state.rung,
    ensures
        ({
            let next = state.advanced().rung;
            let skippable = state.record_identity_usable && state.last_record_id is Some;
            &&& i < 9 && !(i == 1 && !skippable) ==> next == rungs()[i + 1]
            &&& i == 1 && !skippable ==> next == rungs()[3]
            &&& i == 9 ==> next == rungs()[9]
            &&& next == Rung::FutureOnly <==> i >= 8
            &&& state.advanced().skip_next_record <==> i == 1 && skippable
        }),
{
    let place = every_rung_has_its_place(state.rung);
}

/// Whenever the ladder is climbed, the rung goes up by exactly one place, but for
/// the skip of a record that cannot be named; the rung that is reached is returned,
/// the count of rebuilds starts over, and the position stays.
pub proof fn advancing_climbs_one_rung(state: &mut ResumeState, reached: Rung, i: int)
    requires
        call_ensures(ResumeState::advance_rung, (state,), reached),
        0 <= i < 9,
        rungs()[i] == old(state).rung,
    ensures
        ({
            let skippable = old(state).record_identity_usable && old(state).last_record_id is Some;
            &&& reached == final(state).rung
            &&& i != 1 || skippable ==> reached == rungs()[i + 1]
            &&& i == 1 && !skippable ==> reached == rungs()[3]
            &&& reached == Rung::FutureOnly ==> old(state).rung == Rung::TimeAdvance(
                TimeRung::ThirtyMinutes,
            )
            &&& final(state).stuck_count == 0
            &&& final(state).skip_next_record <==> i == 1 && skippable
            &&& same_position(*final(state), *old(state))
        }),
{
    climbing_takes_one_rung_at_a_time(*old(state), i);
}

/// A dead bookmark enters the time windows at the narrowest, which loses nothing,
/// and then widens them one at a time; without a stored time only the future is
/// left. It never comes back below the time windows.
pub proof fn dead_bookmarks_widen_one_window_at_a_time(state: ResumeState, i: int)
    requires
        0 <= i < 10,
        rungs()[i] == state.rung,
    ensures
        ({
            let next = state.after_dead_bookmark().rung;
            &&& state.last_event_time is None ==> next == Rung::FutureOnly
            &&& state.last_event_time is Some && i < 3 ==> next == rungs()[3]
            &&& state.last_event_time is Some && 3 <= i < 9 ==> next == rungs()[i + 1]
            &&& i == 9 ==> next == Rung::FutureOnly
            &&& !state.after_dead_bookmark().skip_next_record
        }),
{
    let place = every_rung_has_its_place(state.rung);
}

/// The windows: one second, ten of those, six of those, five of those, six of
/// those; and the tick of the clock that events are stamped with.
pub proof fn windows_grow_from_a_tick_to_half_an_hour()
    ensures
        crate::recovery::advance_nanos(TimeRung::BoundaryTick) * 10_000_000
            == crate::recovery::advance_nanos(TimeRung::OneSecond),
        crate::recovery::advance_nanos(TimeRung::OneSecond) == 1_000_000_000,
        crate::recovery::advance_nanos(TimeRung::TenSeconds) == 10
            * crate::recovery::advance_nanos(TimeRung::OneSecond),
        crate::recovery::advance_nanos(TimeRung::OneMinute) == 6
            * crate::recovery::advance_nanos(TimeRung::TenSeconds),
        crate::recovery::advance_nanos(TimeRung::FiveMinutes) == 5
            * crate::recovery::advance_nanos(TimeRung::OneMinute),
        crate::recovery::advance_nanos(TimeRung::ThirtyMinutes) == 6
            * crate::recovery::advance_nanos(TimeRung::FiveMinutes),
{
}

/// The next window is the narrowest of all that are wider, and there is one
/// unless this is the widest.
pub proof fn the_next_window_is_the_narrowest_wider_one(rung: TimeRung, other: TimeRung)
    ensures
        match crate::recovery::next_time_rung(rung) {
            Some(next) => {
                &&& crate::recovery::advance_nanos(rung) < crate::recovery::advance_nanos(next)
                &&& crate::recovery::advance_nanos(rung) < crate::recovery::advance_nanos(other)
                    ==> crate::recovery::advance_nanos(next) <= crate::recovery::advance_nanos(
                    other,
                )
            },
            None => crate::recovery::advance_nanos(other) <= crate::recovery::advance_nanos(rung),
        },
{
}

/// How many seconds past the last event a resume starts, by rung.
pub open spec fn seconds_given_up(rung: Rung) -> int {
    if rung == Rung::TimeAdvance(TimeRung::OneSecond) {
        1
    } else if rung == Rung::TimeAdvance(TimeRung::TenSeconds) {
        10
    } else if rung == Rung::TimeAdvance(TimeRung::OneMinute) {
        60
    } else if rung == Rung::TimeAdvance(TimeRung::FiveMinutes) {
        300
    } else if rung == Rung::TimeAdvance(TimeRung::ThirtyMinutes) {
        1800
    } else {
        0
    }
}

/// A resume by time starts in the same millisecond as the last event does, that
/// many whole seconds later; there is such a start whenever the last event's time
/// is known and the calendar does not end first.
pub proof fn the_floor_is_whole_seconds_after_the_last_event(state: ResumeState, base: Timestamp)
    requires
        state.last_event_time == Some(base),
        0 <= base.nanos() < 1_000_000_000,
        base.secs() + 1800 <= crate::time::MAX_CALENDAR_SECS,
    ensures
        state.floor_parts() == Some(
            (
                base.secs() + seconds_given_up(state.rung),
                base.nanos() - base.nanos() % 1_000_000,
            ),
        ),
{
    let place = every_rung_has_its_place(state.rung);
    let w = seconds_given_up(state.rung);
    let total = base.secs() * 1_000_000_000 + base.nanos() + w * 1_000_000_000;
    assert(state.rung_advance() == w * 1_000_000_000);
    assert(total / 1_000_000_000 == base.secs() + w && total % 1_000_000_000 == base.nanos());
}

/// Without the time of a last event there is no time to resume from, nor where the
/// window reaches past the end of the calendar.
pub proof fn no_event_no_floor(state: ResumeState)
    ensures
        state.last_event_time is None ==> state.floor_parts() is None,
        state.last_event_time matches Some(base) ==> 0 <= base.nanos() < 1_000_000_000 ==> (
        state.floor_parts() is Some <==> base.secs() + seconds_given_up(state.rung)
            <= 8_210_266_876_799),
{
    let place = every_rung_has_its_place(state.rung);
    if let Some(base) = state.last_event_time {
        let w = seconds_given_up(state.rung);
        let total = base.secs() * 1_000_000_000 + base.nanos() + w * 1_000_000_000;
        assert(state.rung_advance() == w * 1_000_000_000);
        if 0 <= base.nanos() < 1_000_000_000 {
            assert(total / 1_000_000_000 == base.secs() + w);
        }
    }
}

/// Moving on the ladder, rebuilding and reading cleanly leave the position and
/// what is known of record ids alone; an event moves the position to itself and
/// leaves all else; and only a clean read brings the bottom rung back.
pub proof fn only_events_move_the_position(state: ResumeState, time: Timestamp, record_id: u64)
    ensures
        same_position(state.advanced(), state),
        same_position(state.after_dead_bookmark(), state),
        same_position(state.after_clean_read(), state),
        same_position(state.after_rebuild(), state),
        state.after_clean_read().rung == Rung::Bookmark,
        !state.after_clean_read().skip_next_record,
        state.after_rebuild().rung == state.rung,
        state.after_rebuild().skip_next_record == state.skip_next_record,
        state.after_event(time, record_id).last_event_time == Some(time),
        state.after_event(time, record_id).last_record_id == Some(record_id),
        state.after_event(time, record_id).rung == state.rung,
        state.after_event(time, record_id).skip_next_record == state.skip_next_record,
        state.after_event(time, record_id).record_identity_usable == state.record_identity_usable,
        state.after_event(time, record_id).stuck_count == state.stuck_count,
        state.after_event(time, record_id).stuck_position == state.stuck_position,
        state.without_record_identity().last_event_time == state.last_event_time,
        state.without_record_identity().last_record_id == state.last_record_id,
        state.without_record_identity().rung == state.rung,
        !state.without_record_identity().record_identity_usable,
        state.advanced().rung != Rung::Bookmark,
        state.after_dead_bookmark().rung != Rung::Bookmark,
{
}

pub open spec fn same_position(a: ResumeState, b: ResumeState) -> bool {
    &&& a.last_event_time == b.last_event_time
    &&& a.last_record_id == b.last_record_id
    &&& a.record_identity_usable == b.record_identity_usable
}

/// A new channel starts at the bottom of the ladder, with no position, no skip and
/// no rebuild behind it.
pub proof fn channels_start_at_the_bottom(usable: bool)
    ensures
        ({
            let state = ResumeState::fresh(usable);
            &&& state.rung == Rung::Bookmark
            &&& state.last_event_time is None
            &&& state.last_record_id is None
            &&& !state.skip_next_record
            &&& state.stuck_count == 0
            &&& state.stuck_position is None
            &&& state.record_identity_usable == usable
        }),
{
}

/// A resume comes from the bookmark on the three lowest rungs, from a time on the
/// windows, and from the future on the top; events are discarded on purpose from
/// the third rung on.
pub proof fn sources_follow_the_ladder(i: int)
    requires
        0 <= i < 10,
    ensures
        crate::recovery::rung_source(rungs()[i]) == ResumedFrom::Bookmark <==> i <= 2,
        crate::recovery::rung_source(rungs()[i]) == ResumedFrom::TimeFallback <==> 3 <= i <= 8,
        crate::recovery::rung_source(rungs()[i]) == ResumedFrom::FutureOnly <==> i == 9,
        crate::recovery::discards_on_purpose(rungs()[i]) <==> i >= 2,
{
}

/// After any history the channel counts as stuck exactly where the latest three
/// rebuilds or more found one position, with no clean read and no step of the
/// ladder since the first of them.
pub proof fn three_rebuilds_at_one_position_are_stuck(
    state: ResumeState,
    history: Seq<crate::recovery::ResumeEvent>,
)
    requires
        state.stuck_count == 0,
    ensures
        crate::recovery::resumed(state, history).is_stuck() <==> crate::recovery::stood_still(
            state,
            history,
            3,
        ),
{
    crate::recovery::stuck_means_three_rebuilds_at_one_position(state, history);
}

/// A rebuild counts on while both the time and the record id of the last event are
/// known and both are those of the rebuild before; else it counts as the first.
pub proof fn rebuilds_count_while_nothing_moves(state: ResumeState)
    requires
        state.stuck_count < u32::MAX,
    ensures
        ({
            let next = state.after_rebuild();
            let known = state.last_event_time is Some && state.last_record_id is Some;
            let here = (state.last_event_time->0, state.last_record_id->0);
            let unmoved = known && state.stuck_position == Some(here);
            &&& unmoved ==> next.stuck_count == state.stuck_count + 1
            &&& !unmoved ==> next.stuck_count == 1
            &&& known ==> next.stuck_position == Some(here)
            &&& !known ==> next.stuck_position is None
            &&& next.is_stuck() <==> next.stuck_count >= 3
        }),
{
}

/// What is noted of a rebuild is told: stuck from the third on.
pub proof fn noting_a_rebuild_tells(state: &mut ResumeState, stuck: bool)
    requires
        call_ensures(ResumeState::note_rebuild, (state,), stuck),
    ensures
        stuck <==> final(state).stuck_count >= 3,
        *final(state) == old(state).after_rebuild(),
{
}

/// A pending skip is taken once.
pub proof fn skips_are_taken_once(state: &mut ResumeState, withhold: bool)
    requires
        call_ensures(ResumeState::take_poison_skip, (state,), withhold),
    ensures
        withhold <==> old(state).skip_next_record,
        !final(state).skip_next_record,
        final(state).rung == old(state).rung,
        same_position(*final(state), *old(state)),
{
}

/// A dead bookmark moves the ladder as told, and returns where it stands.
pub proof fn dead_bookmarks_move_the_ladder(state: &mut ResumeState, reached: Rung, i: int)
    requires
        call_ensures(ResumeState::bookmark_dead, (state,), reached),
        0 <= i < 10,
        rungs()[i] == old(state).rung,
    ensures
        reached == final(state).rung,
        old(state).last_event_time is None ==> reached == rungs()[9],
        old(state).last_event_time is Some && i < 3 ==> reached == rungs()[3],
        old(state).last_event_time is Some && 3 <= i < 9 ==> reached == rungs()[i + 1],
        final(state).stuck_count == 0,
        !final(state).skip_next_record,
        same_position(*final(state), *old(state)),
{
    dead_bookmarks_widen_one_window_at_a_time(*old(state), i);
}

/// The floor that a resume is given is the one that is told.
pub proof fn floors_are_given(state: ResumeState, base: Timestamp, floor: Option<Timestamp>)
    requires
        call_ensures(ResumeState::time_floor, (&state,), floor),
        state.last_event_time == Some(base),
        0 <= base.nanos() < 1_000_000_000,
        base.secs() + 1800 <= crate::time::MAX_CALENDAR_SECS,
    ensures
        floor matches Some(t) && t.secs() == base.secs() + seconds_given_up(state.rung)
            && t.nanos() == base.nanos() - base.nanos() % 1_000_000,
{
    the_floor_is_whole_seconds_after_the_last_event(state, base);
}

// ---------------------------------------------------------------------------
// Backoff
// ---------------------------------------------------------------------------
/// The undisturbed delay is a power of two of seconds while that is under a
/// minute, and a minute from then on.
pub proof fn delays_are_powers_of_two_up_to_a_minute(attempt: nat)
    ensures
        crate::recovery::raw_delay_secs(attempt) == if attempt < 6 {
            vstd::arithmetic::power2::pow2(attempt) as int
        } else {
            60
        },
    decreases attempt,
{
    vstd::arithmetic::power2::lemma2_to64();
    reveal_with_fuel(crate::recovery::raw_delay_secs, 8);
    if attempt > 6 {
        delays_are_powers_of_two_up_to_a_minute((attempt - 1) as nat);
    }
}

proof fn lemma_nearest(num: nat, den: nat)
    requires
        den >= 1,
    ensures
        ({
            let r = crate::recovery::round_half_even(num, den);
            2 * (r * den - num) <= den && 2 * (num - r * den) <= den
        }),
{
    let q = num / den;
    let m = num % den;
    assert(num == q * den + m && 0 <= m < den) by (nonlinear_arith)
        requires
            den >= 1,
            q == num / den,
            m == num % den,
    ;
    assert((q + 1) * den == q * den + den) by (nonlinear_arith);
}

/// Jitter takes off a quarter of the delay times the draw, as a fraction of
/// 2^53, to within one nanosecond.
pub proof fn jitter_is_the_drawn_share_of_a_quarter(raw_secs: nat, draw: nat)
    requires
        raw_secs <= 60,
        draw < 0x20_0000_0000_0000,
    ensures
        ({
            let reduction = crate::recovery::jitter_reduction_nanos(raw_secs, draw);
            let exact = raw_secs * draw * 1_000_000_000;
            &&& reduction * 0x80_0000_0000_0000 - exact < 0x80_0000_0000_0000
            &&& exact - reduction * 0x80_0000_0000_0000 < 0x80_0000_0000_0000
        }),
{
    let p = raw_secs * draw;
    assert(p < 0x20_0000_0000_0000 * 64) by (nonlinear_arith)
        requires
            p == raw_secs * draw,
            raw_secs <= 60,
            draw < 0x20_0000_0000_0000,
    ;
    crate::recovery::lemma_ulp_divides(p, 64);
    let ulp = crate::recovery::double_ulp(p);
    lemma_nearest(p, ulp);
    let d = crate::recovery::to_double(p);
    lemma_nearest(d * 1_000_000_000, 0x80_0000_0000_0000);
}

/// The draw is the top 53 bits of the jitter state.
pub proof fn delays_draw_from_the_top_bits(backoff: Backoff)
    ensures
        ({
            let raw = crate::recovery::raw_delay_secs(backoff.attempt as nat);
            let draw = backoff.after_attempt().jitter_state / 2048;
            backoff.next_delay_nanos() == raw * 1_000_000_000
                - crate::recovery::jitter_reduction_nanos(raw, draw as nat)
        }),
{
    let state = backoff.after_attempt().jitter_state;
    assert(state >> 11 == state / 2048) by (bit_vector);
}

/// A failed attempt is counted, and the jitter moves on: to another state for
/// another state, so that channels which differ keep differing.
pub proof fn attempts_are_counted(backoff: Backoff, other: Backoff)
    ensures
        backoff.attempt < u32::MAX ==> backoff.after_attempt().attempt == backoff.attempt + 1,
        backoff.attempt == u32::MAX ==> backoff.after_attempt().attempt == u32::MAX,
        backoff.jitter_state != other.jitter_state ==> backoff.after_attempt().jitter_state
            != other.after_attempt().jitter_state,
        backoff.jitter_state != 0 ==> backoff.after_attempt().jitter_state != 0,
{
    if backoff.jitter_state != 0 {
        crate::recovery::jitter_never_collapses(backoff.jitter_state);
    }
    let x = backoff.jitter_state;
    let y = other.jitter_state;
    let xa = x ^ (x << 13);
    let ya = y ^ (y << 13);
    let xb = xa ^ (xa >> 7);
    let yb = ya ^ (ya >> 7);
    assert(x != y ==> x ^ (x << 13) != y ^ (y << 13)) by (bit_vector);
    assert(xa != ya ==> xa ^ (xa >> 7) != ya ^ (ya >> 7)) by (bit_vector);
    assert(xb != yb ==> xb ^ (xb << 17) != yb ^ (yb << 17)) by (bit_vector);
}

/// A seed starts from 14695981039346656037, and each byte of the name is mixed in
/// and multiplied by 1099511628211, modulo 2^64. A jitter state moves on by three
/// shifts, of thirteen, seven and seventeen bits.
pub proof fn seeds_and_states_are_mixed(name: Seq<u8>, byte: u8, backoff: Backoff)
    ensures
        crate::recovery::fnv1a(Seq::empty()) == 14695981039346656037u64,
        crate::recovery::fnv1a(name.push(byte)) == ((crate::recovery::fnv1a(name) ^ (byte as u64))
            * 1099511628211) % 0x1_0000_0000_0000_0000,
        ({
            let x = backoff.jitter_state;
            let y = x ^ (x << 13);
            let z = y ^ (y >> 7);
            backoff.after_attempt().jitter_state == z ^ (z << 17)
        }),
{
    assert(name.push(byte).drop_last() =~= name);
}

/// Channels whose names end differently draw from different seeds.
pub proof fn seeds_differ_with_the_last_byte(name: Seq<u8>, a: u8, b: u8)
    requires
        a != b,
    ensures
        crate::recovery::fnv1a(name.push(a)) != crate::recovery::fnv1a(name.push(b)),
{
    assert(name.push(a).drop_last() =~= name);
    assert(name.push(b).drop_last() =~= name);
    let h = crate::recovery::fnv1a(name);
    let x = h ^ (a as u64);
    let y = h ^ (b as u64);
    assert(x != y) by (bit_vector)
        requires
            x == h ^ (a as u64),
            y == h ^ (b as u64),
            a != b,
    ;
    lemma_prime_is_invertible(x);
    lemma_prime_is_invertible(y);
}

proof fn lemma_prime_is_invertible(x: u64)
    ensures
        x.wrapping_mul(0x100_0000_01b3).wrapping_mul(0xce96_5057_aff6_957b) == x,
{
    let m = 0x1_0000_0000_0000_0000int;
    let p = 0x100_0000_01b3int;
    let q = 0xce96_5057_aff6_957bint;
    let once = x.wrapping_mul(0x100_0000_01b3);
    assert(once == (x * p) % m);
    assert(once.wrapping_mul(0xce96_5057_aff6_957b) == (once * q) % m);
    vstd::arithmetic::div_mod::lemma_mul_mod_noop_left(x * p, q, m);
    assert(x * p * q == x + m * (x * 887285111055)) by (nonlinear_arith)
        requires
            m == 0x1_0000_0000_0000_0000,
            p == 0x100_0000_01b3,
            q == 0xce96_5057_aff6_957b,
    ;
    vstd::arithmetic::div_mod::lemma_mod_multiples_vanish(x * 887285111055, x as int, m);
    vstd::arithmetic::div_mod::lemma_small_mod(x as nat, m as nat);
}

/// The delay that is given lies between three quarters of the undisturbed one and
/// the whole, and the attempt is counted; a reset starts the count over and leaves
/// the jitter.
pub proof fn delays_are_given(
    backoff: &mut Backoff,
    delay: crate::time::Span,
    calm: &mut Backoff,
)
    requires
        call_ensures(Backoff::next_delay, (backoff,), delay),
        call_ensures(Backoff::reset, (calm,), ()),
        old(backoff).attempt < u32::MAX,
    ensures
        ({
            let secs = if old(backoff).attempt < 6 {
                vstd::arithmetic::power2::pow2(old(backoff).attempt as nat) as int
            } else {
                60
            };
            &&& secs * 750_000_000 <= delay@ <= secs * 1_000_000_000
        }),
        final(backoff).attempt == old(backoff).attempt + 1,
        final(calm).attempt == 0,
        final(calm).jitter_state == old(calm).jitter_state,
{
    delays_are_powers_of_two_up_to_a_minute(old(backoff).attempt as nat);
}

// ---------------------------------------------------------------------------
// Batch sizes
// ---------------------------------------------------------------------------
/// An oversized read costs half the batch, rounded down, but never the last
/// record; isolation leaves exactly one record; and the count of clean batches
/// starts over either way. The configured size is never touched.
pub proof fn batches_shrink_by_half(batch: BatchAdaptation)
    requires
        1 <= batch.current <= batch.configured,
    ensures
        batch.current > 1 ==> batch.halved().current * 2 == batch.current
            || batch.halved().current * 2 + 1 == batch.current,
        batch.current == 1 ==> batch.halved().current == 1,
        batch.isolated().current == 1,
        batch.halved().clean_batches == 0,
        batch.isolated().clean_batches == 0,
        batch.halved().configured == batch.configured,
        batch.isolated().configured == batch.configured,
        batch.after_clean_batch().configured == batch.configured,
        BatchAdaptation::at_size(batch.configured).current == batch.configured,
        BatchAdaptation::at_size(batch.configured).configured == batch.configured,
{
}

/// A reduced batch keeps its size for nine clean batches and doubles with the
/// tenth, up to the configured size.
pub proof fn the_tenth_clean_batch_doubles(batch: BatchAdaptation, clean: nat)
    requires
        1 <= batch.current < batch.configured,
        batch.clean_batches == 0,
        clean <= 10,
    ensures
        clean < 10 ==> crate::recovery::clean_run(batch, clean).current == batch.current,
        clean == 10 ==> crate::recovery::clean_run(batch, clean).current == if 2 * batch.current
            <= batch.configured {
            2 * batch.current
        } else {
            batch.configured as int
        },
{
    reveal_with_fuel(crate::recovery::clean_run, 11);
}

/// A batch is adapted as told: halved, set to one record, or set back.
pub proof fn batches_are_adapted(
    a: &mut BatchAdaptation,
    size: usize,
    b: &mut BatchAdaptation,
    c: &mut BatchAdaptation,
)
    requires
        call_ensures(BatchAdaptation::halve, (a,), size),
        call_ensures(BatchAdaptation::isolate, (b,), ()),
        call_ensures(BatchAdaptation::restore, (c,), ()),
        1 <= old(a).current <= old(a).configured,
        1 <= old(c).configured,
    ensures
        size == final(a).current,
        old(a).current > 1 ==> size == old(a).current / 2,
        old(a).current == 1 ==> size == 1,
        final(b).current == 1,
        final(b).configured == old(b).configured,
        final(c).current == old(c).configured,
        final(c).configured == old(c).configured,
{
}

// ---------------------------------------------------------------------------
// Episodes
// ---------------------------------------------------------------------------
/// What failures say that come within the hour after one that was spoken of:
/// nothing more. The first at or after the hour is a reminder, and the hour then
/// starts over.
pub proof fn failures_are_spoken_of_once_an_hour(
    state: EpisodeState,
    spoken: Tick,
    quiet: Seq<Tick>,
    now: Tick,
)
    requires
        state.failure_edge(spoken) != FailureEdge::Repeat,
        forall|i: int|
            0 <= i < quiet.len() ==> (#[trigger] quiet[i]).nanos - spoken.nanos
                < 3_600_000_000_000,
    ensures
        ({
            let after = crate::recovery::failed_at(state.after_failure(spoken), quiet);
            &&& after == state.after_failure(spoken)
            &&& after.failure_edge(now) == if now.nanos - spoken.nanos >= 3_600_000_000_000 {
                FailureEdge::OngoingReminder
            } else {
                FailureEdge::Repeat
            }
        }),
    decreases quiet.len(),
{
    if quiet.len() > 0 {
        let rest = quiet.drop_last();
        assert forall|i: int| 0 <= i < rest.len() implies (#[trigger] rest[i]).nanos - spoken.nanos
            < 3_600_000_000_000 by {
            assert(rest[i] == quiet[i]);
        }
        assert(quiet[quiet.len() - 1].nanos - spoken.nanos < 3_600_000_000_000);
        failures_are_spoken_of_once_an_hour(state, spoken, rest, quiet.last());
    }
}

/// The first failure of an episode is its onset, and no other is; a recovery ends
/// the episode and tells whether there was one.
pub proof fn episodes_begin_and_end(
    failing: &mut EpisodeState,
    now: Tick,
    edge: FailureEdge,
    recovering: &mut EpisodeState,
    recovered: bool,
)
    requires
        call_ensures(EpisodeState::observe_failure, (failing, now), edge),
        call_ensures(EpisodeState::observe_recovery, (recovering,), recovered),
    ensures
        edge == FailureEdge::Onset <==> !old(failing).onset_logged,
        final(failing).onset_logged,
        recovered <==> old(recovering).onset_logged,
        !final(recovering).onset_logged,
        final(recovering).last_reminder is None,
{
}

// ---------------------------------------------------------------------------
// Gaps
// ---------------------------------------------------------------------------
/// Where record ids mean something, a step of more than one is always a gap, of
/// as many records as lie strictly between, however large; it is a deliberate one
/// exactly where a deliberate skip is in play. A step of one, an id that is no
/// larger, and a first event are no gap. Where ids mean nothing, nothing is said.
pub proof fn every_jump_is_a_gap(
    previous: Option<u64>,
    current: u64,
    detection: GapDetection,
    deliberate: bool,
)
    ensures
        ({
            let verdict = crate::recovery::gap_verdict(previous, current, detection, deliberate);
            let told = !detection.query_filters && !detection.rendered_delivery;
            &&& verdict == GapVerdict::Suppressed <==> !told
            &&& told && previous is Some && current - previous->0 > 1 ==> {
                let missing = (current - previous->0 - 1) as u64;
                verdict == if deliberate {
                    GapVerdict::DeliberateSkip { missing }
                } else {
                    GapVerdict::Gap { missing }
                }
            }
            &&& told && (previous is None || current - previous->0 <= 1) ==> verdict
                == GapVerdict::Continuous
        }),
{
}

/// Evaluating a step says so: more than one record on, it is never called
/// continuous or suppressed, and the records strictly between are all counted.
pub proof fn evaluating_a_jump_counts_what_is_missing(
    previous: u64,
    current: u64,
    detection: GapDetection,
    deliberate: bool,
    verdict: GapVerdict,
)
    requires
        call_ensures(
            crate::recovery::evaluate_gap,
            (Some(previous), current, detection, deliberate),
            verdict,
        ),
        !detection.query_filters,
        !detection.rendered_delivery,
        previous + 1 < current,
    ensures
        deliberate ==> (verdict matches GapVerdict::DeliberateSkip { missing } && missing == current
            - previous - 1),
        !deliberate ==> (verdict matches GapVerdict::Gap { missing } && missing == current
            - previous - 1),
{
    every_jump_is_a_gap(Some(previous), current, detection, deliberate);
}

/// Gaps add up: what two steps miss, and the record between them, one step misses.
pub proof fn gaps_add_up(a: u64, b: u64, c: u64)
    requires
        a < b < c,
    ensures
        missed(a, c) == missed(a, b) + missed(b, c) + 1,
{
}

/// The records that a step from one id to another is said to miss.
pub open spec fn missed(previous: u64, current: u64) -> int {
    let plain = GapDetection { query_filters: false, rendered_delivery: false };
    match crate::recovery::gap_verdict(Some(previous), current, plain, false) {
        GapVerdict::Gap { missing } => missing as int,
        _ => 0,
    }
}

} // verus!
