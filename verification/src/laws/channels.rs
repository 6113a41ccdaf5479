//! What becomes of one channel, call by call.

use vstd::prelude::*;

use crate::channel::{
    AdvanceReason, Cause, ChannelView, Effect, EventFacts, Notice, RebuildKind, Severity,
};
use crate::recovery::{FailureEdge, Rung};
use crate::time::{Deadline, Tick, Timestamp};
use crate::win32_errors::{QueryOrigin, SkipReason, SubscribeOutcome};

verus! {

/// Whether two states of a channel differ in nothing that outlives a subscription:
/// its name, queries, bookmark, what it is configured with and what was counted.
pub open spec fn same_identity(a: ChannelView, b: ChannelView) -> bool {
    &&& a.channel == b.channel
    &&& a.factory == b.factory
    &&& a.bookmark_handle == b.bookmark_handle
    &&& a.query_filters == b.query_filters
    &&& a.state.batch.configured == b.state.batch.configured
    &&& a.state.name_table_misses == b.state.name_table_misses
    &&& a.state.last_event_at == b.state.last_event_at
    &&& a.state.last_record_id_seen == b.state.last_record_id_seen
    &&& a.state.last_drained_at == b.state.last_drained_at
    &&& a.state.rendered_delivery_seen == b.state.rendered_delivery_seen
}

/// A new subscription takes the place of the old one, which is closed now; the
/// channel is not skipped, counts no failed attempt and has no episode any more.
/// Where it was in one, its recovery is told, with where it resumes from; else that
/// it was opened.
pub proof fn new_subscriptions_take_over(
    channel: ChannelView,
    at: usize,
    handle: i64,
    origin: QueryOrigin,
    cause: Cause,
)
    ensures
        ({
            let (next, effects) = channel.resubscribed(at, handle, origin, cause);
            let was_in_episode = channel.state.episode.onset_logged;
            let told = effects.last();
            &&& next.state.subscription_handle == Some(handle)
            &&& next.state.active_query_origin == origin
            &&& next.state.skipped_this_generation is None
            &&& next.state.backoff.attempt == 0
            &&& next.state.backoff.jitter_state == channel.state.backoff.jitter_state
            &&& !next.state.episode.onset_logged
            &&& next.state.resume == channel.state.resume
            &&& next.state.batch == channel.state.batch
            &&& next.state.next_refresh == channel.state.next_refresh
            &&& next.state.bookmark_positioned == channel.state.bookmark_positioned
            &&& next.gaps == channel.gaps
            &&& same_identity(next, channel)
            &&& was_in_episode ==> told == Effect::Notify(
                at,
                Notice::Recovered {
                    cause,
                    resumed_from: crate::recovery::rung_source(channel.state.resume.rung),
                },
            )
            &&& !was_in_episode ==> told == Effect::Notify(
                at,
                Notice::Created { cause, rung: channel.state.resume.rung },
            )
            &&& channel.state.subscription_handle matches Some(old_handle) ==> effects.len() == 2
                && effects[0] == Effect::CloseSubscription(old_handle)
            &&& channel.state.subscription_handle is None ==> effects.len() == 1
        }),
{
    reveal(ChannelView::resubscribed);
}

/// A rebuild plans by the state of the channel, and clears the pending retry alone.
pub proof fn rebuilds_plan_by_the_state(channel: ChannelView)
    ensures
        channel.rebuild_attempt() == channel.factory.first_attempt(
            channel.state.bookmark_positioned,
            channel.bookmark_handle,
            channel.state.resume,
        ),
        channel.rebuilding().state.retry_at is None,
        channel.rebuilding().state.subscription_handle == channel.state.subscription_handle,
        channel.rebuilding().state.resume == channel.state.resume,
        channel.rebuilding().state.backoff == channel.state.backoff,
        channel.rebuilding().state.next_refresh == channel.state.next_refresh,
        same_identity(channel.rebuilding(), channel),
{
}

/// A retry is armed for the current delay from now on; the attempt is counted and
/// the episode notes the failure, which is told by its place there.
pub proof fn retries_wait_out_the_delay(
    channel: ChannelView,
    at: usize,
    code: u32,
    cause: Cause,
    now: Tick,
)
    requires
        now.nanos + channel.state.backoff.next_delay_nanos() <= u128::MAX,
        channel.state.backoff.next_delay_nanos() >= 0,
    ensures
        ({
            let (next, effects) = channel.scheduled(at, code, cause, now);
            let edge = channel.state.episode.failure_edge(now);
            &&& next.state.retry_at is Some
            &&& next.state.retry_at->0.nanos == now.nanos
                + channel.state.backoff.next_delay_nanos()
            &&& next.state.backoff == channel.state.backoff.after_attempt()
            &&& next.state.episode == channel.state.episode.after_failure(now)
            &&& next.state.subscription_handle == channel.state.subscription_handle
            &&& next.state.resume == channel.state.resume
            &&& next.state.skipped_this_generation == channel.state.skipped_this_generation
            &&& next.gaps == channel.gaps
            &&& same_identity(next, channel)
            &&& effects.len() == 1
            &&& edge == FailureEdge::Onset ==> effects[0] == Effect::Notify(
                at,
                Notice::QueryFailed { cause, code },
            )
            &&& edge == FailureEdge::OngoingReminder ==> effects[0] == Effect::Notify(
                at,
                Notice::StillUnavailable { code },
            )
            &&& edge == FailureEdge::Repeat ==> effects[0] == Effect::Notify(
                at,
                Notice::RetryFailed { code },
            )
        }),
{
}

/// A skipped channel loses its subscription and keeps the reason, and its position.
pub proof fn skipped_channels_keep_their_position(
    channel: ChannelView,
    at: usize,
    reason: SkipReason,
    code: u32,
)
    ensures
        ({
            let (next, effects) = channel.skipped(at, reason, code);
            &&& next.state.subscription_handle is None
            &&& next.state.skipped_this_generation == Some(reason)
            &&& next.state.resume == channel.state.resume
            &&& next.state.backoff == channel.state.backoff
            &&& next.state.bookmark_positioned == channel.state.bookmark_positioned
            &&& next.state.next_refresh == channel.state.next_refresh
            &&& next.state.retry_at == channel.state.retry_at
            &&& next.gaps == channel.gaps
            &&& same_identity(next, channel)
            &&& effects.last() == Effect::Notify(at, Notice::Skipped { reason, code })
            &&& channel.state.subscription_handle matches Some(handle) ==> effects.len() == 2
                && effects[0] == Effect::CloseSubscription(handle)
            &&& channel.state.subscription_handle is None ==> effects.len() == 1
        }),
{
}

/// Where reading starts again after a step of the ladder: now, where only the
/// future is left; at the floor, on a window; and at no time that is known, below.
pub proof fn steps_resume_at(channel: ChannelView, rung: Rung, utc: Timestamp)
    ensures
        rung == Rung::FutureOnly ==> channel.resume_point(rung, utc) == Some(
            (utc.secs(), utc.nanos()),
        ),
        rung is TimeAdvance ==> channel.resume_point(rung, utc)
            == channel.state.resume.floor_parts(),
        rung == Rung::Bookmark || rung == Rung::IsolateOne || rung == Rung::SkipRecord
            ==> channel.resume_point(rung, utc) is None,
{
}

/// A step of the ladder is recorded as one gap where it moved and loses something,
/// else as none; nothing else of the channel changes.
pub proof fn steps_are_recorded(channel: ChannelView, previous: Rung, utc: Timestamp)
    ensures
        ({
            let next = channel.stepped(previous, utc);
            let rung = channel.state.resume.rung;
            let gap = crate::status::rung_gap(
                rung,
                channel.state.resume.last_event_time,
                channel.resume_point(rung, utc),
                utc,
            );
            &&& next.state == channel.state
            &&& next.channel == channel.channel && next.factory == channel.factory
            &&& previous == rung || gap is None ==> next.gaps == channel.gaps
            &&& previous != rung && gap is Some ==> next.gaps == crate::status::with_gap(
                channel.gaps,
                gap->0,
            )
        }),
{
}

/// A dead bookmark moves the ladder and marks no position any more; the batch
/// stays as it is.
pub proof fn dead_bookmarks_mark_nothing(channel: ChannelView, utc: Timestamp)
    ensures
        ({
            let next = channel.bookmark_died(utc);
            &&& next.state.resume == channel.state.resume.after_dead_bookmark()
            &&& !next.state.bookmark_positioned
            &&& next.state.batch == channel.state.batch
            &&& next.state.subscription_handle == channel.state.subscription_handle
            &&& same_identity(next, channel)
        }),
{
}

/// Climbing moves the ladder up; on the rung that isolates the batch is one record,
/// and on every other one it stays.
pub proof fn climbing_isolates(channel: ChannelView, utc: Timestamp)
    ensures
        ({
            let next = channel.climbed(utc);
            &&& next.state.resume == channel.state.resume.advanced()
            &&& next.state.resume.rung == Rung::IsolateOne ==> next.state.batch.current == 1
            &&& next.state.resume.rung != Rung::IsolateOne ==> next.state.batch
                == channel.state.batch
            &&& next.state.bookmark_positioned == channel.state.bookmark_positioned
            &&& next.state.subscription_handle == channel.state.subscription_handle
            &&& same_identity(next, channel)
        }),
{
}

/// A replacement that fails leaves the subscription that it was to replace, and the
/// position: only its next attempt is put off, by the current delay.
pub proof fn failed_replacements_cost_nothing(
    channel: ChannelView,
    at: usize,
    code: u32,
    origin: QueryOrigin,
    cause: Cause,
    now: Tick,
    utc: Timestamp,
)
    requires
        channel.state.subscription_handle is Some,
        now.nanos + channel.state.backoff.next_delay_nanos() <= u128::MAX,
        channel.state.backoff.next_delay_nanos() >= 0,
    ensures
        ({
            let (next, effects) = channel.rebuild_failed(
                at,
                code,
                origin,
                RebuildKind::Proactive,
                cause,
                now,
                utc,
            );
            &&& next.state.subscription_handle == channel.state.subscription_handle
            &&& next.state.resume == channel.state.resume
            &&& next.state.episode == channel.state.episode
            &&& next.state.retry_at == channel.state.retry_at
            &&& next.state.skipped_this_generation == channel.state.skipped_this_generation
            &&& next.state.backoff == channel.state.backoff.after_attempt()
            &&& next.state.next_refresh.nanos == now.nanos
                + channel.state.backoff.next_delay_nanos()
            &&& next.gaps == channel.gaps
            &&& same_identity(next, channel)
            &&& effects == seq![
                Effect::Notify(at, Notice::ProactiveRebuildFailed { cause, code }),
            ]
        }),
{
    reveal(ChannelView::rebuild_failed);
}

/// Any other failed subscribe closes what is open. What the code means decides the
/// rest: the channel is skipped; or the ladder moves, because the position is gone
/// or the composed query was refused, and a retry is armed; or only a retry is.
pub proof fn failed_subscribes_go_by_the_code(
    channel: ChannelView,
    at: usize,
    code: u32,
    origin: QueryOrigin,
    kind: RebuildKind,
    cause: Cause,
    now: Tick,
    utc: Timestamp,
)
    requires
        kind == RebuildKind::FromDead || channel.state.subscription_handle is None,
    ensures
        ({
            let (next, effects) = channel.rebuild_failed(at, code, origin, kind, cause, now, utc);
            let outcome = crate::win32_errors::subscribe_outcome(code, origin);
            &&& next.state.subscription_handle is None
            &&& same_identity(next, channel)
            &&& channel.state.subscription_handle matches Some(handle) ==> effects[0]
                == Effect::CloseSubscription(handle)
            &&& outcome matches SubscribeOutcome::SkipChannel(reason) ==> {
                &&& next.state.skipped_this_generation == Some(reason)
                &&& next.state.resume == channel.state.resume
                &&& next.state.retry_at == channel.state.retry_at
            }
            &&& outcome is BookmarkDead ==> {
                &&& next.state.resume == channel.state.resume.after_dead_bookmark()
                &&& !next.state.bookmark_positioned
                &&& next.state.retry_at is Some
                &&& effects.contains(
                    Effect::Notify(
                        at,
                        Notice::RungAdvanced {
                            rung: next.state.resume.rung,
                            reason: AdvanceReason::BookmarkDead,
                            code,
                        },
                    ),
                )
            }
            &&& outcome is GeneratedQueryInvalid ==> {
                &&& next.state.resume == channel.state.resume.advanced()
                &&& next.state.bookmark_positioned == channel.state.bookmark_positioned
                &&& next.state.retry_at is Some
                &&& effects.contains(
                    Effect::Notify(
                        at,
                        Notice::RungAdvanced {
                            rung: next.state.resume.rung,
                            reason: AdvanceReason::GeneratedQueryInvalid,
                            code,
                        },
                    ),
                )
            }
            &&& outcome is Retry ==> {
                &&& next.state.resume == channel.state.resume
                &&& next.state.bookmark_positioned == channel.state.bookmark_positioned
                &&& next.state.retry_at is Some
                &&& next.gaps == channel.gaps
            }
        }),
{
    reveal(ChannelView::rebuild_failed);
    let (next, effects) = channel.rebuild_failed(at, code, origin, kind, cause, now, utc);
    let n = channel.state.close_effects().len() as int;
    match crate::win32_errors::subscribe_outcome(code, origin) {
        SubscribeOutcome::BookmarkDead => {
            let advance = Notice::RungAdvanced {
                rung: next.state.resume.rung,
                reason: AdvanceReason::BookmarkDead,
                code,
            };
            assert(effects[n] == Effect::Notify(at, advance));
        },
        SubscribeOutcome::GeneratedQueryInvalid => {
            let advance = Notice::RungAdvanced {
                rung: next.state.resume.rung,
                reason: AdvanceReason::GeneratedQueryInvalid,
                code,
            };
            assert(effects[n] == Effect::Notify(at, advance));
        },
        _ => {},
    }
}

/// A read that fails for good tears the subscription down and arms a retry. The
/// rebuild is noted; where the position has not moved for too long the ladder is
/// climbed and that is told first; else the rung stays.
pub proof fn torn_down_channels_retry(
    channel: ChannelView,
    at: usize,
    code: u32,
    now: Tick,
    utc: Timestamp,
)
    ensures
        ({
            let (next, effects) = channel.torn_down(at, code, now, utc);
            let noted = channel.state.resume.after_rebuild();
            &&& next.state.subscription_handle is None
            &&& next.state.retry_at is Some
            &&& next.state.bookmark_positioned == channel.state.bookmark_positioned
            &&& next.state.backoff == channel.state.backoff.after_attempt()
            &&& next.state.skipped_this_generation == channel.state.skipped_this_generation
            &&& same_identity(next, channel)
            &&& noted.is_stuck() ==> {
                &&& next.state.resume == noted.advanced()
                &&& effects[0] == Effect::Notify(
                    at,
                    Notice::PoisonEscape {
                        rung: next.state.resume.rung,
                        skips_next_record: next.state.resume.skip_next_record,
                        code,
                    },
                )
            }
            &&& !noted.is_stuck() ==> {
                &&& next.state.resume == noted
                &&& next.gaps == channel.gaps
                &&& next.state.batch == channel.state.batch
            }
        }),
{
    reveal(ChannelView::torn_down);
}

/// A read that was too large halves the batch and says so; an empty read notes its
/// time; neither changes anything else.
pub proof fn reads_adapt_and_note(channel: ChannelView, at: usize, code: u32, utc: Timestamp)
    ensures
        ({
            let (next, effects) = channel.reduced(at, code);
            &&& next.state.batch == channel.state.batch.halved()
            &&& next.state.subscription_handle == channel.state.subscription_handle
            &&& next.state.resume == channel.state.resume
            &&& next.gaps == channel.gaps
            &&& same_identity(next, channel)
            &&& effects == seq![
                Effect::Notify(
                    at,
                    Notice::BatchReduced { size: next.state.batch.current, code },
                ),
            ]
        }),
        channel.drained(utc).state.last_drained_at == Some(utc),
        channel.drained(utc).state.resume == channel.state.resume,
        channel.drained(utc).state.subscription_handle == channel.state.subscription_handle,
        channel.drained(utc).state.last_event_at == channel.state.last_event_at,
        channel.drained(utc).gaps == channel.gaps,
{
}

/// A batch read to its end brings the ladder back to the bottom and the count of
/// failed attempts to none. After an escape the batch is its configured size at
/// once; else it grows by its own rule.
pub proof fn clean_reads_restore_the_channel(channel: ChannelView)
    requires
        channel.state.batch.configured >= 1,
    ensures
        ({
            let next = channel.read_cleanly();
            &&& next.state.resume.rung == Rung::Bookmark
            &&& next.state.backoff.attempt == 0
            &&& next.state.backoff.jitter_state == channel.state.backoff.jitter_state
            &&& channel.state.resume.rung != Rung::Bookmark ==> next.state.batch.current
                == channel.state.batch.configured
            &&& channel.state.resume.rung == Rung::Bookmark ==> next.state.batch
                == channel.state.batch.after_clean_batch()
            &&& next.state.subscription_handle == channel.state.subscription_handle
            &&& next.state.resume.last_record_id == channel.state.resume.last_record_id
            &&& next.state.resume.last_event_time == channel.state.resume.last_event_time
            &&& next.gaps == channel.gaps
            &&& same_identity(next, channel)
        }),
{
}

/// Once an event arrived as rendered text, record ids mean nothing on the channel,
/// for gaps and for skips alike, and that stays so.
pub proof fn forwarded_channels_have_no_ids(channel: ChannelView, current: u64)
    ensures
        ({
            let next = channel.forwarded();
            &&& next.state.rendered_delivery_seen
            &&& !next.state.resume.record_identity_usable
            &&& next.gap_effects(0, current).len() == 0
            &&& next.state.subscription_handle == channel.state.subscription_handle
            &&& next.state.resume.rung == channel.state.resume.rung
            &&& next.state.resume.last_record_id == channel.state.resume.last_record_id
            &&& next.gaps == channel.gaps
        }),
        channel.query_filters ==> channel.gap_effects(0, current).len() == 0,
{
}

/// A jump in the record ids of a channel is told, with all that is missing; as
/// expected where the ladder discards on purpose.
pub proof fn jumps_are_told(channel: ChannelView, at: usize, previous: u64, current: u64)
    requires
        !channel.query_filters,
        !channel.state.rendered_delivery_seen,
        channel.state.last_record_id_seen == Some(previous),
    ensures
        ({
            let told = channel.gap_effects(at, current);
            let rung = channel.state.resume.rung;
            let on_purpose = rung != Rung::Bookmark && rung != Rung::IsolateOne;
            &&& current - previous <= 1 ==> told.len() == 0
            &&& current - previous > 1 && !on_purpose ==> told == seq![
                Effect::Notify(
                    at,
                    Notice::RecordIdGap {
                        missing: (current - previous - 1) as u64,
                        record_id: current,
                    },
                ),
            ]
            &&& current - previous > 1 && on_purpose ==> told == seq![
                Effect::Notify(
                    at,
                    Notice::RecordIdGapExpected {
                        missing: (current - previous - 1) as u64,
                        rung,
                    },
                ),
            ]
        }),
{
}

/// The first event of a channel makes no gap.
pub proof fn first_events_make_no_gap(channel: ChannelView, at: usize, current: u64)
    requires
        channel.state.last_record_id_seen is None,
    ensures
        channel.gap_effects(at, current).len() == 0,
{
}

/// Names that were missed add up, as far as the counter goes.
pub proof fn misses_add_up(channel: ChannelView, a: u32, b: u32)
    ensures
        channel.state.name_table_misses + a <= u64::MAX ==> channel.names_missed(
            a,
        ).state.name_table_misses == channel.state.name_table_misses + a,
        channel.state.name_table_misses + a > u64::MAX ==> channel.names_missed(
            a,
        ).state.name_table_misses == u64::MAX,
        channel.state.name_table_misses + a + b <= u64::MAX ==> channel.names_missed(
            a,
        ).names_missed(b).state.name_table_misses == channel.state.name_table_misses + a + b,
        channel.names_missed(a).state.resume == channel.state.resume,
        channel.names_missed(a).state.subscription_handle == channel.state.subscription_handle,
{
}

/// An event that is taken in moves the position to itself and is the last seen. A
/// withheld one moves the position too and is the last record seen, but it spends
/// the skip and is no event that was delivered.
pub proof fn events_move_the_position(channel: ChannelView, time: Timestamp, id: u64)
    ensures
        ({
            let next = channel.took_in(time, id);
            &&& next.state.resume.last_event_time == Some(time)
            &&& next.state.resume.last_record_id == Some(id)
            &&& next.state.last_record_id_seen == Some(id)
            &&& next.state.last_event_at == Some(time)
            &&& next.state.resume.skip_next_record == channel.state.resume.skip_next_record
            &&& next.state.subscription_handle == channel.state.subscription_handle
            &&& next.state.batch == channel.state.batch
            &&& next.gaps == channel.gaps
        }),
        ({
            let next = channel.passed_poison(time, id);
            &&& next.state.resume.last_event_time == Some(time)
            &&& next.state.resume.last_record_id == Some(id)
            &&& next.state.last_record_id_seen == Some(id)
            &&& next.state.last_event_at == channel.state.last_event_at
            &&& !next.state.resume.skip_next_record
            &&& next.state.resume.rung == channel.state.resume.rung
            &&& next.state.subscription_handle == channel.state.subscription_handle
            &&& next.gaps == channel.gaps
        }),
{
}

/// Taking an event withholds it exactly where a skip is pending, and tells of the
/// jump to it exactly where it is not withheld.
pub proof fn taking_an_event(
    channel: &mut crate::channel::ChannelSubscription,
    at: usize,
    facts: EventFacts,
    effects: &mut Vec<Effect>,
    withheld: bool,
)
    requires
        call_ensures(
            crate::channel::ChannelSubscription::take_event,
            (channel, at, facts, effects),
            withheld,
        ),
    ensures
        withheld <==> old(channel).state.resume.skip_next_record,
        final(channel).state.resume.last_record_id == Some(facts.record_id),
        final(channel).state.resume.last_event_time == Some(facts.time),
        final(channel).state.last_record_id_seen == Some(facts.record_id),
        withheld ==> final(effects)@ == old(effects)@,
        !withheld ==> final(effects)@ == old(effects)@ + old(channel)@.gap_effects(
            at,
            facts.record_id,
        ),
{
    assert(final(channel)@.state == final(channel).state);
    assert(old(channel)@.state == old(channel).state);
}

/// A refresh sets the next one and gives a skipped channel another chance; an
/// updated bookmark marks a position, and one that could not be updated marks what
/// it did; closing leaves all but the subscription.
pub proof fn small_steps_change_little(channel: ChannelView, next_refresh: Deadline, ok: bool)
    ensures
        channel.refreshed(next_refresh).state.next_refresh == next_refresh,
        channel.refreshed(next_refresh).state.skipped_this_generation is None,
        channel.refreshed(next_refresh).state.subscription_handle
            == channel.state.subscription_handle,
        channel.refreshed(next_refresh).state.resume == channel.state.resume,
        channel.refreshed(next_refresh).state.retry_at == channel.state.retry_at,
        channel.bookmarked(true).state.bookmark_positioned,
        channel.bookmarked(false).state.bookmark_positioned == channel.state.bookmark_positioned,
        channel.bookmarked(ok).state.resume == channel.state.resume,
        channel.bookmarked(ok).state.subscription_handle == channel.state.subscription_handle,
        channel.closed().state.subscription_handle is None,
        channel.closed().state.resume == channel.state.resume,
        channel.closed().state.skipped_this_generation == channel.state.skipped_this_generation,
        channel.closed().gaps == channel.gaps,
        same_identity(channel.closed(), channel),
{
}

/// What is told as an error: the first failure, a skipped channel, a bookmark that
/// cannot be moved and the backlog given up. Openings, replacements that failed and
/// all that repeats a failure are told softly; the rest is a warning.
pub proof fn notices_have_their_loudness(notice: Notice)
    ensures
        crate::channel::severity_of(notice) == Severity::Error <==> notice is QueryFailed
            || notice is Skipped || notice is BookmarkFailed || (
        notice matches Notice::RungAdvanced { rung, .. } && rung == Rung::FutureOnly),
        crate::channel::severity_of(notice) == Severity::Debug <==> notice is Created
            || notice is ProactiveRebuildFailed || notice is StillUnavailable
            || notice is RetryFailed,
{
}

/// The names under which causes are told are all different.
pub proof fn causes_have_their_names(a: Cause, b: Cause)
    ensures
        crate::channel::cause_name(Cause::Startup) == "startup"@,
        crate::channel::cause_name(Cause::PeriodicRefresh) == "periodic_refresh"@,
        crate::channel::cause_name(Cause::Retry) == "retry"@,
        crate::channel::cause_name(Cause::BatchReduction) == "batch_reduction"@,
        crate::channel::cause_name(Cause::EvtNext) == "evt_next"@,
        crate::channel::cause_name(a) == crate::channel::cause_name(b) ==> a == b,
{
    reveal_strlit("startup");
    reveal_strlit("periodic_refresh");
    reveal_strlit("retry");
    reveal_strlit("batch_reduction");
    reveal_strlit("evt_next");
    assert("startup"@.len() == 7 && "periodic_refresh"@.len() == 16 && "retry"@.len() == 5
        && "batch_reduction"@.len() == 15 && "evt_next"@.len() == 8);
}

/// A position is written under the channel's name with the given bookmark, the
/// record id and the time at full resolution.
pub proof fn positions_are_written_whole(
    position: crate::checkpoint::ChannelPosition,
    channel: crate::channel::ChannelSubscription,
    xml: String,
)
    requires
        call_ensures(
            crate::channel::ChannelSubscription::position,
            (&channel, Some(xml)),
            Some(position),
        ),
    ensures
        position.channel@ == channel.channel@,
        position.bookmark_xml@ == xml@,
        position.last_record_id == channel.state.resume.last_record_id,
        channel.state.resume.last_event_time is None <==> position.last_event_time is None,
        channel.state.resume.last_event_time matches Some(t) ==> (position.last_event_time matches
            Some(text) && text@ == crate::time::rfc3339_zulu(t.secs(), t.nanos(), true)),
{
}

/// The status of a channel says each thing that is known of it.
pub proof fn statuses_say_what_is_known(
    channel: crate::channel::ChannelSubscription,
    stats: Option<crate::status::ChannelRecordStats>,
    status: crate::status::ChannelStatus,
)
    requires
        call_ensures(crate::channel::ChannelSubscription::status, (&channel, stats), status),
    ensures
        status.subscribed <==> channel.state.subscription_handle is Some,
        status.skipped_reason is Some <==> channel.state.skipped_this_generation is Some,
        channel.state.skipped_this_generation matches Some(reason) ==> (status.skipped_reason->0)@
            == crate::win32_errors::skip_reason_slug(reason),
        status.rung@ == crate::recovery::rung_name(channel.state.resume.rung),
        status.last_event_at is Some <==> channel.state.last_event_at is Some,
        channel.state.last_event_at matches Some(t) ==> (status.last_event_at->0)@
            == crate::time::rfc3339_zulu(t.secs(), t.nanos(), false),
        status.last_drained_at is Some <==> channel.state.last_drained_at is Some,
        channel.state.last_drained_at matches Some(t) ==> (status.last_drained_at->0)@
            == crate::time::rfc3339_zulu(t.secs(), t.nanos(), false),
        status.last_record_id == channel.state.resume.last_record_id,
        status.query_filters == channel.query_filters,
        status.bookmark_positioned == channel.state.bookmark_positioned,
        status.retry_attempt == channel.state.backoff.attempt,
        status.name_table_misses == channel.state.name_table_misses,
        status.gaps@.len() == channel.gaps@.len(),
        forall|i: int|
            0 <= i < channel.gaps@.len() ==> (#[trigger] status.gaps@[i])@ == channel.gaps@[i]@,
{
    let shown = crate::status::gap_views(status.gaps@);
    let held = crate::status::gap_views(channel.gaps@);
    assert(shown == held);
    assert(shown.len() == status.gaps@.len() && held.len() == channel.gaps@.len());
    assert forall|i: int| 0 <= i < channel.gaps@.len() implies (#[trigger] status.gaps@[i])@
        == channel.gaps@[i]@ by {
        assert(shown[i] == held[i]);
    }
}

/// A channel starts from its checkpoint: at the bottom of the ladder, at the stored
/// time and record id where both are there and the time can be read, and with a
/// bookmark that marks a position where it was restored.
pub proof fn channels_start_from_their_checkpoint(
    checkpoint: crate::checkpoint::ChannelCheckpoint,
    restored: bool,
    handle: i64,
    seed: crate::channel::ChannelSeed,
)
    requires
        call_ensures(
            crate::channel::ChannelSeed::from_checkpoint,
            (Some(&checkpoint), restored, handle),
            seed,
        ),
    ensures
        seed.bookmark_handle == handle,
        seed.bookmark_positioned == restored,
        seed.resume.rung == Rung::Bookmark,
        seed.resume.stuck_count == 0,
        !seed.resume.skip_next_record,
        seed.resume.record_identity_usable,
        ({
            let time = match checkpoint.last_event_time {
                Some(text) => crate::time::parsed_rfc3339(text@),
                None => None,
            };
            let stored = time is Some && checkpoint.last_record_id is Some;
            &&& stored ==> seed.resume.last_record_id == checkpoint.last_record_id
            &&& stored ==> (seed.resume.last_event_time matches Some(t) && time == Some(
                (t.secs(), t.nanos()),
            ))
            &&& !stored ==> seed.resume.last_record_id is None
            &&& !stored ==> seed.resume.last_event_time is None
        }),
{
}

/// Without a checkpoint a channel starts with no position, and its bookmark marks
/// none.
pub proof fn channels_start_without_a_checkpoint(
    restored: bool,
    handle: i64,
    seed: crate::channel::ChannelSeed,
)
    requires
        call_ensures(
            crate::channel::ChannelSeed::from_checkpoint,
            (None, restored, handle),
            seed,
        ),
    ensures
        seed.bookmark_handle == handle,
        !seed.bookmark_positioned,
        seed.resume.last_event_time is None,
        seed.resume.last_record_id is None,
        seed.resume.rung == Rung::Bookmark,
{
}

/// The time of the last event is told, or that there was never one.
pub proof fn last_events_are_told(channel: crate::channel::ChannelSubscription, text: String)
    requires
        call_ensures(
            crate::channel::ChannelSubscription::last_event_at_rfc3339,
            (&channel,),
            text,
        ),
    ensures
        channel.state.last_event_at is None ==> text@ == "never"@,
        channel.state.last_event_at matches Some(t) ==> text@ == crate::time::rfc3339(
            t.secs(),
            t.nanos(),
        ),
{
}

} // verus!
