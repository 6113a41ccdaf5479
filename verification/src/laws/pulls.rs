//! What a pull does with channels and with the events that it reads.

use vstd::prelude::*;

use crate::channel::{Cause, ChannelSeed, Effect, EventFacts, RebuildKind};
use crate::config::WindowsEventLogConfig;
use crate::delivery::EventOutcome;
use crate::subscription::{
    BookmarkUse, EventLogSubscription, Phase, PullView, RequestView, Step, WaitResult,
};
use crate::time::{Tick, Timestamp};

verus! {

// ---------------------------------------------------------------------------
// Settings
// ---------------------------------------------------------------------------
/// Whether two states have the same settings: the lists of ids, the batch size,
/// the refresh interval, the place in the rotation and the bounds of the pull.
pub open spec fn same_settings(a: PullView, b: PullView) -> bool {
    &&& a.only_event_ids == b.only_event_ids
    &&& a.ignore_event_ids == b.ignore_event_ids
    &&& a.batch_size == b.batch_size
    &&& a.refresh_nanos == b.refresh_nanos
    &&& a.round_robin_index == b.round_robin_index
    &&& a.progress.starting == b.progress.starting
    &&& a.progress.max_events == b.progress.max_events
    &&& a.progress.per_channel_budget == b.progress.per_channel_budget
    &&& a.progress.start == b.progress.start
    &&& a.progress.update_records_for_empty_channels
        == b.progress.update_records_for_empty_channels
}

/// Whether a step of a walk over the channels asks for a subscription, a read or
/// the end, and leaves the settings and the batch alone.
pub open spec fn goes_round(step: Step, view: PullView) -> bool {
    &&& same_settings(step.next, view)
    &&& step.next.handles == view.handles
    &&& step.next.progress.delivered == view.progress.delivered
    &&& step.request is Subscribe || step.request is ReadBatch || step.request is Done
    &&& step.request is Subscribe <==> step.next.progress.phase is Subscribing
    &&& step.request is ReadBatch <==> step.next.progress.phase is Reading
    &&& step.request is Done <==> step.next.progress.phase == Phase::Idle
}

proof fn lemma_finish_goes_round(view: PullView, now: Tick)
    requires
        !view.past_end() ==> goes_round(view.moved_on().visit(now), view),
    ensures
        goes_round(view.finish(now), view),
{
    reveal(PullView::visit);
    reveal(PullView::gate);
    reveal(PullView::drain);
    reveal(PullView::finish);
    reveal(PullView::gate);
    reveal(PullView::drain);
    reveal(PullView::finish);
}

proof fn lemma_drain_goes_round(view: PullView, now: Tick)
    requires
        goes_round(view.finish(now), view),
    ensures
        goes_round(view.drain(now), view),
{
    reveal(PullView::visit);
    reveal(PullView::gate);
    reveal(PullView::drain);
    reveal(PullView::finish);
    reveal(PullView::gate);
    reveal(PullView::drain);
    reveal(PullView::finish);
}

proof fn lemma_gate_goes_round(view: PullView, now: Tick)
    requires
        goes_round(view.drain(now), view),
        !view.past_end() ==> goes_round(view.moved_on().visit(now), view),
    ensures
        goes_round(view.gate(now), view),
{
    reveal(PullView::visit);
    reveal(PullView::gate);
    reveal(PullView::drain);
    reveal(PullView::finish);
    reveal(PullView::gate);
    reveal(PullView::drain);
    reveal(PullView::finish);
}

/// Going from channel to channel asks for a subscription, a read or the end, and
/// changes no setting.
pub proof fn walks_keep_the_settings(view: PullView, now: Tick)
    ensures
        goes_round(view.visit(now), view),
        goes_round(view.gate(now), view),
        goes_round(view.drain(now), view),
        goes_round(view.finish(now), view),
    decreases view.count() - view.progress.visited,
{
    reveal(PullView::visit);
    reveal(PullView::gate);
    reveal(PullView::drain);
    reveal(PullView::finish);
    if !view.past_end() {
        walks_keep_the_settings(view.moved_on(), now);
    }
    lemma_finish_goes_round(view, now);
    lemma_drain_goes_round(view, now);
    lemma_gate_goes_round(view, now);
    if !view.past_end() && !view.progress.starting && view.next_limit() > 0 {
        let entered = view.entered(now);
        walks_keep_the_settings(entered.moved_on(), now);
        lemma_finish_goes_round(entered, now);
        lemma_drain_goes_round(entered, now);
        lemma_gate_goes_round(entered, now);
    }
}

/// No answer ever changes a setting: the lists that a pull goes by are those that
/// it began with.
pub proof fn answers_keep_the_settings(
    view: PullView,
    handle: i64,
    code: u32,
    handles: Seq<i64>,
    event_id: u32,
    rendered_delivery: bool,
    table_misses: u32,
    event: Option<EventFacts>,
    ok: bool,
    now: Tick,
    utc: Timestamp,
)
    ensures
        same_settings(view.on_subscribed(handle, now).next, view),
        same_settings(view.on_subscribe_failed(code, now, utc).next, view),
        same_settings(view.on_read(handles, now, utc).next, view),
        same_settings(view.on_read_failed(code, handles, now, utc).next, view),
        same_settings(view.on_rendered(event_id, now).next, view),
        same_settings(
            view.on_resolved(rendered_delivery, table_misses, event, now).next,
            view,
        ),
        same_settings(view.on_bookmarked(ok, now).next, view),
        same_settings(view.next_event(now).next, view),
{
    lemma_subscribing_keeps_the_settings(view, handle, code, now, utc);
    lemma_reading_keeps_the_settings(view, code, handles, now, utc);
    lemma_next_event_keeps_the_settings(view, now);
    let channel = if rendered_delivery && !view.current().state.rendered_delivery_seen {
        view.current().forwarded()
    } else {
        view.current()
    };
    lemma_next_event_keeps_the_settings(view.with_current(channel), now);
    let marked = view.with_current(view.current().bookmarked(ok));
    lemma_next_event_keeps_the_settings(marked, now);
    lemma_next_event_keeps_the_settings(marked.counted(), now);
    walks_keep_the_settings(
        marked.with_progress(
            crate::subscription::Progress {
                bookmark_failed: true,
                phase: Phase::Idle,
                ..view.progress
            },
        ),
        now,
    );
}

proof fn lemma_after_rebuild_keeps_the_settings(view: PullView, cause: Cause, ok: bool, now: Tick)
    ensures
        same_settings(view.after_rebuild(cause, ok, now).next, view),
{
    walks_keep_the_settings(view, now);
    walks_keep_the_settings(view.drained(), now);
    walks_keep_the_settings(view.moved_on(), now);
}

proof fn lemma_subscribing_keeps_the_settings(
    view: PullView,
    handle: i64,
    code: u32,
    now: Tick,
    utc: Timestamp,
)
    ensures
        same_settings(view.on_subscribed(handle, now).next, view),
        same_settings(view.on_subscribe_failed(code, now, utc).next, view),
{
    let pending = view.pending();
    let swapped = view.current().resubscribed(view.at(), handle, pending.origin, pending.cause);
    lemma_after_rebuild_keeps_the_settings(view.with_current(swapped.0), pending.cause, true, now);
    let failed = view.current().rebuild_failed(
        view.at(),
        code,
        pending.origin,
        pending.kind,
        pending.cause,
        now,
        utc,
    );
    lemma_after_rebuild_keeps_the_settings(view.with_current(failed.0), pending.cause, false, now);
}

proof fn lemma_reading_keeps_the_settings(
    view: PullView,
    code: u32,
    handles: Seq<i64>,
    now: Tick,
    utc: Timestamp,
)
    ensures
        same_settings(view.on_read(handles, now, utc).next, view),
        same_settings(view.on_read_failed(code, handles, now, utc).next, view),
{
    let channel = view.current();
    walks_keep_the_settings(view.with_current(channel.drained(utc)).drained(), now);
    walks_keep_the_settings(view.with_current(channel).drained(), now);
    match crate::win32_errors::drain_outcome(
        code,
        crate::subscription::handle_count(handles),
        channel.state.active_query_origin,
    ) {
        crate::win32_errors::DrainOutcome::SkipChannel(reason) => {
            let skipped = channel.skipped(view.at(), reason, code);
            walks_keep_the_settings(view.with_current(skipped.0).drained(), now);
        },
        crate::win32_errors::DrainOutcome::Rebuild => {
            let down = channel.torn_down(view.at(), code, now, utc);
            walks_keep_the_settings(view.with_current(down.0).drained(), now);
        },
        _ => {},
    }
}

proof fn lemma_next_event_keeps_the_settings(view: PullView, now: Tick)
    ensures
        same_settings(view.next_event(now).next, view),
        view.next_event(now).request !is Resolve,
        view.next_event(now).request !is UpdateBookmark,
{
    walks_keep_the_settings(
        view.with_current(view.current().read_cleanly()).in_phase(Phase::Idle),
        now,
    );
}

// ---------------------------------------------------------------------------
// Filters
// ---------------------------------------------------------------------------
/// Whether a state goes by the lists of a configuration.
pub open spec fn goes_by(view: PullView, config: WindowsEventLogConfig) -> bool {
    &&& view.ignore_event_ids == config.ignore_event_ids@
    &&& match config.only_event_ids {
        Some(ids) => view.only_event_ids == Some(ids@),
        None => view.only_event_ids is None,
    }
}

/// A subscription goes by the lists of the configuration that it was made for, and
/// a pull and the startup go by those of the subscription.
pub proof fn subscriptions_go_by_their_configuration(
    config: WindowsEventLogConfig,
    seeds: Seq<ChannelSeed>,
    now: Tick,
    view: PullView,
    max_events: usize,
    update_records: bool,
)
    ensures
        goes_by(crate::subscription::initial_view(config, seeds, now), config),
        goes_by(view, config) ==> goes_by(view.begun(max_events, update_records), config),
        goes_by(view, config) ==> goes_by(view.started(), config),
{
}

/// An event whose id stands anywhere in the list of ids to ignore is never sent:
/// its names are not resolved, no bookmark is moved for it, and it is closed.
pub proof fn ignored_ids_are_never_sent(
    view: PullView,
    config: WindowsEventLogConfig,
    i: int,
    rendered_delivery: bool,
    table_misses: u32,
    event: Option<EventFacts>,
    now: Tick,
)
    requires
        goes_by(view, config),
        view.wf(),
        view.progress.phase == Phase::Rendering,
        0 <= i < config.ignore_event_ids@.len(),
    ensures
        ({
            let event_id = config.ignore_event_ids@[i];
            let outcome = EventOutcome::Rendered {
                event_id,
                rendered_delivery,
                table_misses,
                event,
            };
            &&& view.on_rendered(event_id, now).request !is Resolve
            &&& view.on_rendered(event_id, now).request !is UpdateBookmark
            &&& crate::delivery::sends(view.on_rendered(event_id, now).effects) == 0
            &&& crate::delivery::sends(crate::delivery::handled(view, outcome, now).1) == 0
        }),
{
    let event_id = config.ignore_event_ids@[i];
    lemma_dropped(view, event_id, rendered_delivery, table_misses, event, now);
}

/// Where there is a list of ids to keep, an event whose id stands nowhere in it is
/// never sent.
pub proof fn ids_outside_the_keep_list_are_never_sent(
    view: PullView,
    config: WindowsEventLogConfig,
    event_id: u32,
    rendered_delivery: bool,
    table_misses: u32,
    event: Option<EventFacts>,
    now: Tick,
)
    requires
        goes_by(view, config),
        view.wf(),
        view.progress.phase == Phase::Rendering,
        config.only_event_ids is Some,
        forall|j: int|
            0 <= j < config.only_event_ids->0@.len() ==> #[trigger] config.only_event_ids->0@[j]
                != event_id,
    ensures
        ({
            let outcome = EventOutcome::Rendered {
                event_id,
                rendered_delivery,
                table_misses,
                event,
            };
            &&& view.on_rendered(event_id, now).request !is Resolve
            &&& view.on_rendered(event_id, now).request !is UpdateBookmark
            &&& crate::delivery::sends(view.on_rendered(event_id, now).effects) == 0
            &&& crate::delivery::sends(crate::delivery::handled(view, outcome, now).1) == 0
        }),
{
    lemma_dropped(view, event_id, rendered_delivery, table_misses, event, now);
}

proof fn lemma_dropped(
    view: PullView,
    event_id: u32,
    rendered_delivery: bool,
    table_misses: u32,
    event: Option<EventFacts>,
    now: Tick,
)
    requires
        view.wf(),
        view.progress.phase == Phase::Rendering,
        view.filters_out(event_id),
    ensures
        ({
            let outcome = EventOutcome::Rendered {
                event_id,
                rendered_delivery,
                table_misses,
                event,
            };
            &&& view.on_rendered(event_id, now).request !is Resolve
            &&& view.on_rendered(event_id, now).request !is UpdateBookmark
            &&& crate::delivery::sends(view.on_rendered(event_id, now).effects) == 0
            &&& crate::delivery::sends(crate::delivery::handled(view, outcome, now).1) == 0
        }),
{
    let outcome = EventOutcome::Rendered { event_id, rendered_delivery, table_misses, event };
    lemma_next_event_keeps_the_settings(view, now);
    crate::delivery::lemma_handled(view, outcome, now);
}

/// Every other event is let through: one whose id is at no place of the list of ids
/// to ignore and, where there is a list of ids to keep, at some place of that. Its
/// names are resolved and, once it is built and unless a skip is pending, it is
/// sent.
pub proof fn every_other_event_is_sent(
    view: PullView,
    config: WindowsEventLogConfig,
    event_id: u32,
    kept_at: int,
    rendered_delivery: bool,
    table_misses: u32,
    facts: EventFacts,
    now: Tick,
)
    requires
        goes_by(view, config),
        view.wf(),
        view.progress.phase == Phase::Rendering,
        forall|i: int|
            0 <= i < config.ignore_event_ids@.len() ==> #[trigger] config.ignore_event_ids@[i]
                != event_id,
        config.only_event_ids is Some ==> 0 <= kept_at < config.only_event_ids->0@.len()
            && config.only_event_ids->0@[kept_at] == event_id,
    ensures
        ({
            let outcome = EventOutcome::Rendered {
                event_id,
                rendered_delivery,
                table_misses,
                event: Some(facts),
            };
            &&& view.on_rendered(event_id, now).request == RequestView::Resolve {
                handle: view.handles[view.progress.index as int],
            }
            &&& view.on_rendered(event_id, now).next.progress.phase == Phase::Resolving
            &&& view.on_rendered(event_id, now).effects.len() == 0
            &&& !view.current().state.resume.skip_next_record ==> crate::delivery::sends(
                crate::delivery::handled(view, outcome, now).1,
            ) == 1
        }),
{
    let outcome = EventOutcome::Rendered {
        event_id,
        rendered_delivery,
        table_misses,
        event: Some(facts),
    };
    crate::delivery::lemma_handled(view, outcome, now);
}

/// A new subscription filters an event out exactly where its id is at some place of
/// the configured list to ignore, or a list to keep is configured and has it at no
/// place.
pub proof fn new_subscriptions_filter_as_configured(
    config: WindowsEventLogConfig,
    seeds: Vec<ChannelSeed>,
    now: Tick,
    subscription: EventLogSubscription,
    event_id: u32,
    filtered: bool,
)
    requires
        call_ensures(EventLogSubscription::new, (&config, &seeds, now), Ok(subscription)),
        call_ensures(EventLogSubscription::is_filtered_out, (&subscription, event_id), filtered),
    ensures
        filtered <==> (exists|i: int|
            0 <= i < config.ignore_event_ids@.len() && #[trigger] config.ignore_event_ids@[i]
                == event_id) || (config.only_event_ids is Some && forall|j: int|
            0 <= j < config.only_event_ids->0@.len() ==> #[trigger] config.only_event_ids->0@[j]
                != event_id),
{
    let ignored = subscription.ignore_event_ids@;
    assert(ignored == config.ignore_event_ids@);
    if exists|i: int| 0 <= i < ignored.len() && ignored[i] == event_id {
        let i = choose|i: int| 0 <= i < ignored.len() && ignored[i] == event_id;
        assert(filtered);
    }
    if config.only_event_ids is Some {
        assert(subscription.only_event_ids->0@ == config.only_event_ids->0@);
    }
}

/// A rendered event with an id to ignore is dropped at once: its names are not
/// asked for and nothing is sent.
pub proof fn rendering_an_ignored_id_drops_the_event(
    subscription: &mut EventLogSubscription,
    event_id: u32,
    now: Tick,
    effects: &mut Vec<Effect>,
    request: crate::subscription::Request,
    i: int,
)
    requires
        call_ensures(
            EventLogSubscription::rendered,
            (subscription, event_id, now, effects),
            request,
        ),
        old(subscription)@.wf(),
        old(subscription).progress.phase == Phase::Rendering,
        0 <= i < old(subscription).ignore_event_ids@.len(),
        old(subscription).ignore_event_ids@[i] == event_id,
    ensures
        request !is Resolve,
        request !is UpdateBookmark,
        final(subscription).progress.delivered == old(subscription).progress.delivered,
        crate::delivery::sends(final(effects)@) == crate::delivery::sends(old(effects)@),
{
    let view = old(subscription)@;
    lemma_dropped(view, event_id, false, 0, None, now);
    crate::delivery::handling_an_event_is_balanced(view, event_id, false, 0, None, false, now);
    crate::delivery::lemma_sends_add(old(effects)@, view.on_rendered(event_id, now).effects);
}

// ---------------------------------------------------------------------------
// The round of the channels
// ---------------------------------------------------------------------------
/// A pull goes to every channel once: each channel has exactly one turn.
pub proof fn every_channel_has_one_turn(view: PullView, channel: int) -> (turn: usize)
    requires
        view.between_channels(),
        0 <= channel < view.count(),
    ensures
        turn < view.count(),
        on_turn(view, turn).at() == channel,
        forall|other: usize|
            other < view.count() && #[trigger] on_turn(view, other).at() == channel ==> other
                == turn,
{
    let n = view.count();
    let start = view.progress.start as int;
    let turn = if channel >= start {
        (channel - start) as usize
    } else {
        (channel - start + n) as usize
    };
    lemma_turn(view, turn);
    assert forall|other: usize|
        other < view.count() && #[trigger] on_turn(view, other).at() == channel implies other
        == turn by {
        lemma_turn(view, other);
    }
    turn
}

/// The state on a turn of the round.
pub open spec fn on_turn(view: PullView, turn: usize) -> PullView {
    view.with_progress(crate::subscription::Progress { visited: turn, ..view.progress })
}

proof fn lemma_turn(view: PullView, turn: usize)
    requires
        view.between_channels(),
        turn < view.count(),
    ensures
        on_turn(view, turn).at() == if view.progress.start + turn < view.count() {
            view.progress.start + turn
        } else {
            view.progress.start + turn - view.count()
        },
{
    let n = view.count();
    let sum = view.progress.start + turn;
    if sum < n {
        vstd::arithmetic::div_mod::lemma_small_mod(sum as nat, n as nat);
    } else {
        vstd::arithmetic::div_mod::lemma_mod_sub_multiples_vanish(sum, n);
        vstd::arithmetic::div_mod::lemma_small_mod((sum - n) as nat, n as nat);
    }
}

/// A pull begins with nothing delivered and no channel visited, with the channel
/// after the one that the pull before began with. A channel's share is as much as
/// fits, going round, into what is asked for, but at least eight.
pub proof fn pulls_begin_afresh(view: PullView, max_events: usize, update_records: bool)
    requires
        1 <= view.count() <= usize::MAX,
    ensures
        ({
            let begun = view.begun(max_events, update_records);
            let share = begun.progress.per_channel_budget;
            &&& begun.progress.phase == Phase::Idle
            &&& !begun.progress.starting
            &&& begun.progress.visited == 0
            &&& begun.progress.delivered == 0
            &&& begun.progress.max_events == max_events
            &&& begun.progress.update_records_for_empty_channels == update_records
            &&& begun.handles.len() == 0
            &&& begun.channels == view.channels
            &&& share >= 8
            &&& share > 8 ==> share * view.count() <= max_events
            &&& max_events < (share + 1) * view.count()
            &&& view.round_robin_index < usize::MAX ==> begun.round_robin_index
                == view.round_robin_index + 1
            &&& view.round_robin_index == usize::MAX ==> begun.round_robin_index == 0
            &&& begun.progress.start == view.round_robin_index as int % view.count()
        }),
{
    let n = view.count();
    let q = max_events as int / n;
    assert(0 <= q <= max_events && q * n <= max_events < (q + 1) * n) by (nonlinear_arith)
        requires
            n >= 1,
            max_events >= 0,
            q == max_events as int / n,
    ;
    let share = view.begun(max_events, update_records).progress.per_channel_budget;
    let r = view.round_robin_index as int;
    assert(0 <= r % n < n) by (nonlinear_arith)
        requires
            n >= 1,
    ;
    assert((share + 1) * n >= (q + 1) * n) by (nonlinear_arith)
        requires
            share >= q,
            n >= 1,
    ;
}

/// The startup goes through the channels from the first, and only subscribes.
pub proof fn startups_go_through_the_channels(view: PullView, now: Tick)
    requires
        view.between_channels(),
        view.progress.starting,
    ensures
        view.started().progress.start == 0,
        view.started().progress.visited == 0,
        view.started().progress.starting,
        view.progress.visited < view.count() ==> (view.visit(now).request matches
            RequestView::Subscribe { channel, .. } && channel == view.at()),
        view.progress.visited == view.count() ==> view.visit(now).request is Done,
        view.visit(now).effects.len() == 0,
{
    reveal(PullView::visit);
    reveal(PullView::gate);
    reveal(PullView::drain);
    reveal(PullView::finish);
}

/// What a channel may deliver on its turn: the largest number that is within both
/// its share and what is left of the pull.
pub proof fn limits_are_the_largest_that_fit(view: PullView, now: Tick, other: int)
    requires
        view.between_channels(),
        !view.progress.starting,
    ensures
        ({
            let limit = view.entered(now).progress.channel_limit;
            let left = view.progress.max_events - view.progress.delivered;
            &&& limit <= view.progress.per_channel_budget
            &&& limit <= left
            &&& other <= view.progress.per_channel_budget && other <= left ==> other <= limit
            &&& view.entered(now).progress.channel_count == 0
            &&& !view.entered(now).progress.channel_drained
            &&& !view.entered(now).progress.bookmark_failed
            &&& view.entered(now).progress.now == now
        }),
{
}

/// What a channel is asked for: the largest number that is within both what it may
/// still deliver and its batch size.
pub proof fn reads_are_the_largest_that_fit(view: PullView, now: Tick, other: int)
    requires
        view.on_channel(),
        !view.progress.starting,
        view.progress.channel_count < view.progress.channel_limit,
        view.current().state.subscription_handle is Some,
        view.current().state.batch.current >= 1,
    ensures
        view.drain(now).request matches RequestView::ReadBatch { channel, handle, size } && {
            let left = view.progress.channel_limit - view.progress.channel_count;
            &&& channel == view.at()
            &&& handle == view.current().state.subscription_handle->0
            &&& 1 <= size <= left
            &&& size <= view.current().state.batch.current
            &&& other <= left && other <= view.current().state.batch.current ==> other <= size
            &&& view.drain(now).next.progress.phase == Phase::Reading(size)
        },
        view.drain(now).effects.len() == 0,
{
    reveal(PullView::drain);
}

/// What is done for the channel whose turn it is, first of all resetting its
/// signal: where its refresh is due it is rebuilt, as a replacement where it has a
/// subscription; else it is read where it has a subscription and is not skipped;
/// else it is left where it is skipped or its retry lies ahead; else it is
/// subscribed again.
pub proof fn channels_get_what_they_need(view: PullView, now: Tick)
    requires
        view.wf(),
        !view.progress.starting,
        view.progress.visited < view.count(),
        view.progress.per_channel_budget > 0,
        view.progress.delivered < view.progress.max_events,
    ensures
        ({
            let state = view.current().state;
            let step = view.visit(now);
            let due = now.nanos >= state.next_refresh.nanos;
            let open = state.subscription_handle is Some;
            let skipped = state.skipped_this_generation is Some;
            let waits = state.retry_at is Some && now.nanos < state.retry_at->0.nanos;
            let pending = step.next.progress.phase->Subscribing_0;
            &&& step.effects.len() > 0
            &&& step.effects[0] == Effect::ResetSignal(view.at())
            &&& due ==> {
                &&& step.request matches RequestView::Subscribe { channel, .. } && channel
                    == view.at()
                &&& pending.cause == Cause::PeriodicRefresh
                &&& pending.kind == if open {
                    RebuildKind::Proactive
                } else {
                    RebuildKind::FromDead
                }
            }
            &&& !due && open && !skipped ==> {
                &&& step.request matches RequestView::ReadBatch { channel, handle, .. } && channel
                    == view.at() && Some(handle) == state.subscription_handle
                &&& step.next.channels == view.channels
            }
            &&& !due && !(open && !skipped) && (skipped || waits) ==> step
                == view.entered(now).moved_on().visit(now).after(
                seq![Effect::ResetSignal(view.at())],
            )
            &&& !due && !open && !skipped && !waits ==> {
                &&& step.request matches RequestView::Subscribe { channel, .. } && channel
                    == view.at()
                &&& pending.cause == Cause::Retry
                &&& pending.kind == RebuildKind::FromDead
            }
        }),
{
    reveal(PullView::visit);
    reveal(PullView::gate);
    reveal(PullView::drain);
    reveal(PullView::finish);
    let entered = view.entered(now);
    let n = view.count();
    let sum = view.progress.start + view.progress.visited;
    assert(0 <= sum % n < n) by (nonlinear_arith)
        requires
            n >= 1,
    ;
    assert(entered.at() == view.at());
    assert(entered.current() == view.current());
    assert(entered.with_current(entered.refreshing()).at() == view.at());
    if now.nanos < view.current().state.next_refresh.nanos {
        let gated = entered.gate(now);
        assert(view.visit(now) == gated.after(seq![Effect::ResetSignal(view.at())]));
        if view.current().state.live() {
            assert(gated == entered.drain(now));
        }
    }
}

/// A pull ends where every channel has had its turn or all that was asked for is
/// delivered.
pub proof fn pulls_end(view: PullView, now: Tick)
    requires
        view.wf(),
        !view.progress.starting,
        view.progress.visited == view.count() || view.progress.delivered
            == view.progress.max_events,
    ensures
        view.visit(now).request is Done,
        view.visit(now).effects.len() == 0,
        view.visit(now).next.progress.phase == Phase::Idle,
        view.visit(now).next.channels == view.channels,
{
    reveal(PullView::visit);
    reveal(PullView::gate);
    reveal(PullView::drain);
    reveal(PullView::finish);
}

/// A channel is left for the next one. Where it was read to its end, and its
/// bookmark was moved for every event, its record count is refreshed, in a
/// speculative pull only if it delivered something; else its signal is set again.
pub proof fn leaving_a_channel(view: PullView, now: Tick)
    requires
        view.on_channel(),
    ensures
        ({
            let step = view.finish(now);
            let rest = view.moved_on().visit(now);
            let done = view.progress.channel_drained && !view.progress.bookmark_failed;
            let counts = view.progress.update_records_for_empty_channels
                || view.progress.channel_count > 0;
            &&& view.moved_on().progress.visited == view.progress.visited + 1
            &&& step.next == rest.next
            &&& step.request == rest.request
            &&& done && counts ==> step.effects == seq![Effect::UpdateRecords(view.at())]
                + rest.effects
            &&& done && !counts ==> step.effects == rest.effects
            &&& !done ==> step.effects == seq![Effect::SetSignal(view.at())] + rest.effects
        }),
{
    reveal(PullView::visit);
    reveal(PullView::gate);
    reveal(PullView::drain);
    reveal(PullView::finish);
    if view.progress.channel_drained && !view.progress.bookmark_failed {
        assert(view.finish(now).effects =~= view.leave_effects() + view.moved_on().visit(
            now,
        ).effects);
        let rest = view.moved_on().visit(now).effects;
        assert(Seq::<Effect>::empty() + rest =~= rest);
    }
}

/// Going on after a rebuild: a refreshed channel is looked at again, a reduced one
/// is left as read to its end, a retried one is read where that went well, and in
/// every other case the next channel has its turn.
pub proof fn going_on_after_a_rebuild(view: PullView, cause: Cause, ok: bool, now: Tick)
    ensures
        cause == Cause::PeriodicRefresh ==> view.after_rebuild(cause, ok, now) == view.gate(now),
        cause == Cause::BatchReduction ==> view.after_rebuild(cause, ok, now)
            == view.drained().finish(now),
        cause == Cause::Retry && ok ==> view.after_rebuild(cause, ok, now) == view.drain(now),
        (cause == Cause::Retry && !ok) || cause == Cause::Startup || cause == Cause::EvtNext
            ==> view.after_rebuild(cause, ok, now) == view.moved_on().visit(now),
        view.drained().progress.channel_drained,
{
}

// ---------------------------------------------------------------------------
// Events
// ---------------------------------------------------------------------------
/// The events of a read are rendered one after another, from the first to the
/// last; and each is closed before the next is taken.
pub proof fn batches_are_gone_through(
    view: PullView,
    handles: Seq<i64>,
    now: Tick,
    utc: Timestamp,
)
    ensures
        handles.len() > 0 ==> {
            let step = view.on_read(handles, now, utc);
            &&& step.next.handles == handles
            &&& step.next.progress.index == 0
            &&& step.next.progress.phase == Phase::Rendering
            &&& step.request == RequestView::Render { handle: handles[0] }
            &&& step.effects.len() == 0
            &&& step.next.channels == view.channels
        },
        view.progress.index + 1 < view.handles.len() <= usize::MAX ==> {
            let step = view.next_event(now);
            let handle = view.handles[view.progress.index as int];
            &&& step.next.progress.index == view.progress.index + 1
            &&& step.next.progress.phase == Phase::Rendering
            &&& step.next.handles == view.handles
            &&& step.request == RequestView::Render {
                handle: view.handles[view.progress.index + 1],
            }
            &&& step.effects == if handle != 0 {
                seq![Effect::CloseEvent(handle)]
            } else {
                Seq::empty()
            }
            &&& step.next.channels == view.channels
        },
{
}

/// An event that cannot be rendered costs itself alone: the bookmark is moved past
/// it, and the next one is taken whether that worked or not.
pub proof fn unrendered_events_are_passed(view: PullView, ok: bool, now: Tick)
    requires
        view.wf(),
        view.progress.phase == Phase::Rendering,
        view.progress.index + 1 < view.handles.len(),
    ensures
        ({
            let asked = view.update_bookmark(BookmarkUse::RenderFailed);
            let step = asked.next.on_bookmarked(ok, now);
            &&& asked.request == RequestView::UpdateBookmark {
                channel: view.at(),
                handle: view.handles[view.progress.index as int],
            }
            &&& step.request == RequestView::Render {
                handle: view.handles[view.progress.index + 1],
            }
            &&& step.next.progress.delivered == view.progress.delivered
            &&& step.next.current().state.bookmark_positioned == (
            view.current().state.bookmark_positioned || ok)
        }),
{
}

/// An event whose position cannot be recorded is not sent, and the drain of its
/// channel ends with it: the channel's signal is set again at once.
pub proof fn unrecorded_events_end_the_drain(view: PullView, now: Tick)
    requires
        view.wf(),
        view.progress.phase == Phase::Bookmarking(BookmarkUse::Deliver),
    ensures
        ({
            let step = view.on_bookmarked(false, now);
            &&& crate::delivery::sends(step.effects) == 0
            &&& step.effects.contains(Effect::SetSignal(view.at()))
            &&& step.next.progress.delivered == view.progress.delivered
            &&& step.request !is Render
        }),
{
    crate::delivery::a_moved_bookmark_sends_the_event(view, false, now);
    crate::delivery::handling_an_event_is_balanced(view, 0, false, 0, None, false, now);
    let marked = view.with_current(view.current().bookmarked(false));
    let failed = marked.with_progress(
        crate::subscription::Progress {
            bookmark_failed: true,
            phase: Phase::Idle,
            ..view.progress
        },
    );
    walks_keep_the_settings(failed, now);
    reveal(PullView::visit);
    reveal(PullView::gate);
    reveal(PullView::drain);
    reveal(PullView::finish);
    let first = seq![
        Effect::Notify(view.at(), crate::channel::Notice::BookmarkFailed),
    ] + crate::subscription::close_events(view.handles.skip(view.progress.index as int));
    let effects = view.on_bookmarked(false, now).effects;
    assert(effects =~= first + failed.finish(now).effects);
    assert(failed.finish(now).effects[0] == Effect::SetSignal(view.at()));
    assert(effects[first.len() as int] == Effect::SetSignal(view.at()));
}

/// Closing goes handle by handle, and leaves out null handles alone.
pub proof fn every_handle_is_closed(a: Seq<i64>, b: Seq<i64>, handle: i64)
    ensures
        crate::subscription::close_events(a + b) == crate::subscription::close_events(a)
            + crate::subscription::close_events(b),
        handle != 0 ==> crate::subscription::close_events(seq![handle]) == seq![
            Effect::CloseEvent(handle),
        ],
        crate::subscription::close_events(seq![0i64]).len() == 0,
    decreases b.len(),
{
    reveal_with_fuel(crate::subscription::close_events, 2);
    assert(seq![handle].drop_last() =~= Seq::<i64>::empty());
    assert(seq![0i64].drop_last() =~= Seq::<i64>::empty());
    if handle != 0 {
        assert(crate::subscription::close_events(seq![handle]) =~= seq![
            Effect::CloseEvent(handle),
        ]);
    }
    if b.len() == 0 {
        assert(a + b =~= a);
    } else {
        let rest = b.drop_last();
        every_handle_is_closed(a, rest, handle);
        assert((a + b).drop_last() =~= a + rest);
    }
    assert(crate::subscription::close_events(a + b) =~= crate::subscription::close_events(a)
        + crate::subscription::close_events(b));
}

/// A rejected composed query is told of and followed by the configured query, to the
/// same channel and from the same start; that second attempt has no third.
pub proof fn rejected_queries_are_tried_plain(
    view: PullView,
    code: u32,
    now: Tick,
    utc: Timestamp,
)
    requires
        view.progress.phase is Subscribing,
        view.progress.phase->Subscribing_0.falls_back,
    ensures
        ({
            let step = view.on_subscribe_failed(code, now, utc);
            let pending = view.progress.phase->Subscribing_0;
            let again = step.next.progress.phase->Subscribing_0;
            &&& step.request == RequestView::Subscribe {
                channel: view.at(),
                query: view.current().factory.base_query,
                use_bookmark: pending.use_bookmark,
                flags: pending.flags,
            }
            &&& step.effects == seq![
                Effect::Notify(view.at(), crate::channel::Notice::QueryRejected { code }),
            ]
            &&& step.next.progress.phase is Subscribing
            &&& !again.falls_back
            &&& again.origin == view.current().factory.base_origin
            &&& again.kind == pending.kind
            &&& again.cause == pending.cause
            &&& again.use_bookmark == pending.use_bookmark
            &&& again.flags == pending.flags
            &&& step.next.channels == view.channels
        }),
{
}

/// A subscribe that is asked for is the channel's own first attempt, and what it
/// will be judged by is kept.
pub proof fn subscribes_are_the_first_attempt(view: PullView, kind: RebuildKind, cause: Cause)
    ensures
        ({
            let step = view.subscribe(kind, cause);
            let attempt = view.current().rebuild_attempt();
            let pending = step.next.progress.phase->Subscribing_0;
            &&& step.request == RequestView::Subscribe {
                channel: view.at(),
                query: attempt.query,
                use_bookmark: attempt.use_bookmark,
                flags: attempt.flags,
            }
            &&& step.next.progress.phase is Subscribing
            &&& pending.kind == kind
            &&& pending.cause == cause
            &&& pending.origin == attempt.origin
            &&& pending.falls_back == attempt.falls_back
            &&& pending.use_bookmark == attempt.use_bookmark
            &&& pending.flags == attempt.flags
            &&& step.effects.len() == 0
            &&& step.next.channels == view.channels.update(
                view.at() as int,
                view.current().rebuilding(),
            )
        }),
{
}

/// A subscribe that worked swaps the new subscription in, under the origin of its
/// query, and goes on; one that failed for good, with no second attempt left, is the
/// failure of a rebuild of that kind, and goes on too.
pub proof fn subscribes_end(
    view: PullView,
    handle: i64,
    code: u32,
    now: Tick,
    utc: Timestamp,
)
    requires
        view.progress.phase is Subscribing,
    ensures
        ({
            let pending = view.progress.phase->Subscribing_0;
            let (up, told) = view.current().resubscribed(
                view.at(),
                handle,
                pending.origin,
                pending.cause,
            );
            let rest = view.with_current(up).after_rebuild(pending.cause, true, now);
            let step = view.on_subscribed(handle, now);
            &&& step.next == rest.next
            &&& step.request == rest.request
            &&& step.effects == told + rest.effects
        }),
        !view.progress.phase->Subscribing_0.falls_back ==> ({
            let pending = view.progress.phase->Subscribing_0;
            let (down, told) = view.current().rebuild_failed(
                view.at(),
                code,
                pending.origin,
                pending.kind,
                pending.cause,
                now,
                utc,
            );
            let rest = view.with_current(down).after_rebuild(pending.cause, false, now);
            let step = view.on_subscribe_failed(code, now, utc);
            &&& step.next == rest.next
            &&& step.request == rest.request
            &&& step.effects == told + rest.effects
        }),
{
}

/// A read that brings nothing notes its time on the channel and leaves the channel
/// as read to its end.
pub proof fn empty_reads_leave_the_channel(view: PullView, now: Tick, utc: Timestamp)
    ensures
        view.on_read(Seq::empty(), now, utc) == left_as(view, view.current().drained(utc), now),
        left_as(view, view.current().drained(utc), now) == view.with_current(
            view.current().drained(utc),
        ).drained().finish(now),
{
}

/// Resolving an event counts the names that were missed, notes the first that
/// arrived as rendered text, and moves the position where the event was built; one
/// that was not is passed.
pub proof fn resolved_events_are_taken(
    view: PullView,
    rendered_delivery: bool,
    misses: u32,
    facts: EventFacts,
    now: Tick,
)
    requires
        view.wf(),
        view.progress.phase == Phase::Resolving,
        view.current().state.name_table_misses + misses <= u64::MAX,
    ensures
        ({
            let step = view.on_resolved(rendered_delivery, misses, Some(facts), now);
            let state = step.next.channels[view.at() as int].state;
            &&& state.resume.last_record_id == Some(facts.record_id)
            &&& state.resume.last_event_time == Some(facts.time)
            &&& state.last_record_id_seen == Some(facts.record_id)
            &&& state.name_table_misses == view.current().state.name_table_misses + misses
            &&& state.rendered_delivery_seen == (view.current().state.rendered_delivery_seen
                || rendered_delivery)
            &&& step.request == RequestView::UpdateBookmark {
                channel: view.at(),
                handle: view.handles[view.progress.index as int],
            }
            &&& step.next.progress.phase == Phase::Bookmarking(
                if view.current().state.resume.skip_next_record {
                    BookmarkUse::Poison { record_id: facts.record_id }
                } else {
                    BookmarkUse::Deliver
                },
            )
            &&& view.current().state.resume.skip_next_record ==> step.effects.len() == 0
        }),
        !rendered_delivery ==> view.on_resolved(rendered_delivery, misses, None, now)
            == view.with_current(view.current()).next_event(now),
{
    lemma_turn_in_range(view);
}

proof fn lemma_turn_in_range(view: PullView)
    requires
        view.on_channel(),
    ensures
        0 <= view.at() < view.channels.len(),
{
    let n = view.count();
    let sum = view.progress.start + view.progress.visited;
    assert(0 <= sum % n < n) by (nonlinear_arith)
        requires
            n >= 1,
    ;
}

/// A bookmark that was moved for an event sends it and counts it, for the pull and
/// for the channel; one that was moved past a withheld record tells of it and sends
/// nothing.
pub proof fn moved_bookmarks_send(view: PullView, record_id: u64, now: Tick)
    requires
        view.wf(),
        view.progress.index + 1 < view.handles.len(),
    ensures
        view.progress.phase == Phase::Bookmarking(BookmarkUse::Deliver) ==> ({
            let step = view.on_bookmarked(true, now);
            &&& step.effects.len() > 0
            &&& step.effects[0] == Effect::Send
            &&& step.next.progress.delivered == view.progress.delivered + 1
            &&& step.next.progress.channel_count == view.progress.channel_count + 1
            &&& step.next.channels[view.at() as int].state.bookmark_positioned
        }),
        view.progress.phase == Phase::Bookmarking(BookmarkUse::Poison { record_id }) ==> ({
            let step = view.on_bookmarked(true, now);
            &&& step.effects.len() > 0
            &&& step.effects[0] == Effect::Notify(
                view.at(),
                crate::channel::Notice::PoisonRecordSkipped {
                    record_id,
                    rung: view.current().state.resume.rung,
                },
            )
            &&& step.next.progress.delivered == view.progress.delivered
            &&& step.next.progress.channel_count == view.progress.channel_count
        }),
{
    if view.progress.phase is Bookmarking {
        lemma_turn_in_range(view);
    }
}

/// What a read that failed leads to, by its code, the number of records that came
/// with it and whose query was read with.
pub proof fn failed_reads_lead_on(
    view: PullView,
    code: u32,
    handles: Seq<i64>,
    now: Tick,
    utc: Timestamp,
)
    requires
        view.on_channel(),
        handles.len() <= u32::MAX,
    ensures
        ({
            let step = view.on_read_failed(code, handles, now, utc);
            let channel = view.current();
            let outcome = crate::win32_errors::drain_outcome(
                code,
                handles.len() as u32,
                channel.state.active_query_origin,
            );
            &&& outcome is ReduceBatch ==> {
                &&& step.request matches RequestView::Subscribe { channel, .. } && channel
                    == view.at()
                &&& step.next.progress.phase->Subscribing_0.kind == RebuildKind::Proactive
                &&& step.next.progress.phase->Subscribing_0.cause == Cause::BatchReduction
                &&& step.next.current().state.batch == channel.state.batch.halved()
                &&& step.next.current().state.subscription_handle
                    == channel.state.subscription_handle
            }
            &&& !(outcome is ReduceBatch) ==> exists|left: crate::channel::ChannelView|
                {
                    &&& #[trigger] left_as(view, left, now).next == step.next
                    &&& left_as(view, left, now).request == step.request
                    &&& outcome is Drained ==> left == channel || (handles.len() == 0 && left
                        == channel.drained(utc))
                    &&& outcome matches crate::win32_errors::DrainOutcome::SkipChannel(reason)
                        ==> left == channel.skipped(view.at(), reason, code).0
                    &&& outcome is Rebuild ==> left == channel.torn_down(
                        view.at(),
                        code,
                        now,
                        utc,
                    ).0
                }
        }),
{
    let channel = view.current();
    let outcome = crate::win32_errors::drain_outcome(
        code,
        handles.len() as u32,
        channel.state.active_query_origin,
    );
    let left = match outcome {
        crate::win32_errors::DrainOutcome::SkipChannel(reason) => channel.skipped(
            view.at(),
            reason,
            code,
        ).0,
        crate::win32_errors::DrainOutcome::Rebuild => channel.torn_down(
            view.at(),
            code,
            now,
            utc,
        ).0,
        _ => if handles.len() == 0 {
            channel.drained(utc)
        } else {
            channel
        },
    };
    if !(outcome is ReduceBatch) {
        assert(left_as(view, left, now).next == view.on_read_failed(
            code,
            handles,
            now,
            utc,
        ).next);
    }
}

/// The current channel left, as read to its end, in a given state.
pub open spec fn left_as(view: PullView, channel: crate::channel::ChannelView, now: Tick) -> Step {
    view.with_current(channel).drained().finish(now)
}

// ---------------------------------------------------------------------------
// Waits and containers
// ---------------------------------------------------------------------------
/// A wait that ends with the first signal is a stop; one that ends with the signal
/// of a channel means events; 258 is a timeout, and so is all else.
pub proof fn waits_end(result: u32, channels: nat)
    ensures
        crate::subscription::wait_outcome(result, channels) == WaitResult::Shutdown <==> result
            == 0,
        crate::subscription::wait_outcome(result, channels) == WaitResult::EventsAvailable <==> 1
            <= result <= channels && result != 258,
{
}

/// A container is kept where it has room for no more than four batches, or for one
/// event where batches are empty, and for no less than the one kept so far.
pub proof fn containers_hold_four_batches(subscription: EventLogSubscription)
    ensures
        subscription.batch_size == 0 ==> subscription.capacity_limit() == 1,
        subscription.batch_size > 0 && subscription.batch_size * 4 <= usize::MAX
            ==> subscription.capacity_limit() == subscription.batch_size * 4,
        subscription.batch_size * 4 > usize::MAX ==> subscription.capacity_limit() == usize::MAX,
{
}

/// The live channels are those that have a subscription and are not skipped; the
/// count of them grows by one with each.
pub proof fn live_channels_are_counted(
    channels: Seq<crate::channel::ChannelView>,
    n: nat,
    m: nat,
)
    requires
        n < m <= channels.len(),
    ensures
        ({
            let live = |i: int|
                channels[i].state.subscription_handle is Some
                    && channels[i].state.skipped_this_generation is None;
            let more = crate::subscription::live_count(channels, m)
                - crate::subscription::live_count(channels, n);
            &&& 0 <= more <= m - n
            &&& more == m - n <==> forall|i: int| n <= i < m ==> #[trigger] live(i)
            &&& more == 0 <==> forall|i: int| n <= i < m ==> !(#[trigger] live(i))
        }),
        crate::subscription::live_count(channels, 0) == 0,
    decreases m,
{
    let live = |i: int|
        channels[i].state.subscription_handle is Some
            && channels[i].state.skipped_this_generation is None;
    let before = (m - 1) as nat;
    let last = m - 1;
    assert(live(last) == channels[last].state.live());
    assert(crate::subscription::live_count(channels, m) == crate::subscription::live_count(
        channels,
        before,
    ) + if live(last) {
        1nat
    } else {
        0
    });
    if n < before {
        live_channels_are_counted(channels, n, before);
        let more = crate::subscription::live_count(channels, before)
            - crate::subscription::live_count(channels, n);
        if forall|i: int| n <= i < m ==> #[trigger] live(i) {
            assert(forall|i: int| n <= i < before ==> #[trigger] live(i));
        }
        if more == before - n && live(last) {
            assert forall|i: int| n <= i < m implies #[trigger] live(i) by {
                if i < last {
                    assert(n <= i < before);
                }
            }
        }
        if more == 0 && !live(last) {
            assert forall|i: int| n <= i < m implies !(#[trigger] live(i)) by {
                if i < last {
                    assert(n <= i < before);
                }
            }
        }
    } else {
        if live(last) {
            assert forall|i: int| n <= i < m implies #[trigger] live(i) by {
                assert(i == last);
            }
        } else {
            assert forall|i: int| n <= i < m implies !(#[trigger] live(i)) by {
                assert(i == last);
            }
        }
    }
}

/// Positions are written for exactly the channels whose bookmark was serialized,
/// in the order of the channels.
pub proof fn every_bookmark_is_written(bookmarks: Seq<Option<String>>, i: int)
    ensures
        crate::subscription::bookmarked_at(bookmarks).contains(i) <==> 0 <= i < bookmarks.len()
            && bookmarks[i] is Some,
        forall|a: int, b: int|
            0 <= a < b < crate::subscription::bookmarked_at(bookmarks).len() ==>
                #[trigger] crate::subscription::bookmarked_at(bookmarks)[a]
                < #[trigger] crate::subscription::bookmarked_at(bookmarks)[b],
        forall|a: int|
            0 <= a < crate::subscription::bookmarked_at(bookmarks).len() ==> 0
                <= #[trigger] crate::subscription::bookmarked_at(bookmarks)[a] < bookmarks.len(),
    decreases bookmarks.len(),
{
    let all = crate::subscription::bookmarked_at(bookmarks);
    if bookmarks.len() > 0 {
        let rest = bookmarks.drop_last();
        let before = crate::subscription::bookmarked_at(rest);
        every_bookmark_is_written(rest, i);
        if bookmarks.last() is Some {
            assert(all =~= before.push(bookmarks.len() - 1));
            if before.contains(i) {
                let k = choose|k: int| 0 <= k < before.len() && before[k] == i;
                assert(all[k] == i);
            }
            if i == bookmarks.len() - 1 {
                assert(all[all.len() - 1] == i);
            }
            if all.contains(i) && i != bookmarks.len() - 1 {
                let k = choose|k: int| 0 <= k < all.len() && all[k] == i;
                assert(before[k] == i);
            }
        }
    }
}

/// Closing all channels closes the subscription of each, in order.
pub proof fn all_subscriptions_are_closed(
    a: Seq<crate::channel::ChannelView>,
    b: Seq<crate::channel::ChannelView>,
    one: crate::channel::ChannelView,
)
    ensures
        crate::subscription::close_all_effects(a + b) == crate::subscription::close_all_effects(a)
            + crate::subscription::close_all_effects(b),
        one.state.subscription_handle matches Some(handle)
            ==> crate::subscription::close_all_effects(seq![one]) == seq![
            Effect::CloseSubscription(handle),
        ],
        one.state.subscription_handle is None ==> crate::subscription::close_all_effects(
            seq![one],
        ).len() == 0,
    decreases b.len(),
{
    reveal_with_fuel(crate::subscription::close_all_effects, 2);
    assert(seq![one].drop_last() =~= Seq::<crate::channel::ChannelView>::empty());
    if one.state.subscription_handle is Some {
        assert(crate::subscription::close_all_effects(seq![one]) =~= seq![
            Effect::CloseSubscription(one.state.subscription_handle->0),
        ]);
    }
    if b.len() == 0 {
        assert(a + b =~= a);
    } else {
        let rest = b.drop_last();
        all_subscriptions_are_closed(a, rest, one);
        assert((a + b).drop_last() =~= a + rest);
    }
    assert(crate::subscription::close_all_effects(a + b) =~= crate::subscription::close_all_effects(
        a,
    ) + crate::subscription::close_all_effects(b));
}

/// A subscription starts with one channel for each that is configured, in order,
/// each under its name, with the batch size and its first refresh a full interval
/// away; ids say nothing where the query selects.
pub proof fn every_channel_is_set_up(
    config: WindowsEventLogConfig,
    seeds: Seq<ChannelSeed>,
    now: Tick,
    i: int,
)
    requires
        0 <= i < config.channels@.len(),
        now.nanos + config.subscription_refresh_secs * 1_000_000_000 <= u128::MAX,
    ensures
        ({
            let view = crate::subscription::initial_view(config, seeds, now);
            let channel = view.channels[i];
            &&& view.channels.len() == config.channels@.len()
            &&& channel.channel == config.channels@[i]@
            &&& channel.factory.channel == config.channels@[i]@
            &&& channel.factory.base_query == crate::query::config_query(config)
            &&& channel.factory.base_origin == crate::win32_errors::QueryOrigin::Operator
                <==> config.event_query is Some
            &&& channel.factory.read_existing_events == config.read_existing_events
            &&& channel.query_filters <==> crate::query::config_query(config) != "*"@
            &&& channel.bookmark_handle == seeds[i].bookmark_handle
            &&& channel.state.bookmark_positioned == seeds[i].bookmark_positioned
            &&& channel.state.resume == seeds[i].resume
            &&& channel.state.subscription_handle is None
            &&& channel.state.skipped_this_generation is None
            &&& channel.state.retry_at is None
            &&& channel.state.next_refresh.nanos == now.nanos + config.subscription_refresh_secs
                * 1_000_000_000
            &&& channel.state.last_event_at == seeds[i].resume.last_event_time
            &&& channel.state.last_record_id_seen is None
            &&& channel.state.last_drained_at is None
            &&& channel.state.name_table_misses == 0
            &&& !channel.state.rendered_delivery_seen
            &&& channel.state.backoff.attempt == 0
            &&& channel.gaps.len() == 0
            &&& channel.state.batch.current == config.batch_size
            &&& channel.state.batch.configured == config.batch_size
            &&& channel.state.batch.clean_batches == 0
            &&& !channel.state.episode.onset_logged
            &&& channel.state.episode.last_reminder is None
            &&& channel.state.active_query_origin == channel.factory.base_origin
            &&& view.progress.phase == Phase::Idle
            &&& view.progress.delivered == 0
            &&& view.batch_size == config.batch_size
            &&& view.refresh_nanos == config.subscription_refresh_secs * 1_000_000_000
            &&& view.round_robin_index == 0
        }),
{
}

// ---------------------------------------------------------------------------
// The calls
// ---------------------------------------------------------------------------
/// A pull begins with nothing delivered and asks for a subscription, a read or
/// nothing; one after a timeout differs in what it does to the record counts alone.
pub proof fn pulls_ask_for_work(
    a: &mut EventLogSubscription,
    b: &mut EventLogSubscription,
    max_events: usize,
    now: Tick,
    first: &mut Vec<Effect>,
    second: &mut Vec<Effect>,
    one: crate::subscription::Request,
    other: crate::subscription::Request,
)
    requires
        call_ensures(EventLogSubscription::pull_events, (a, max_events, now, first), one),
        call_ensures(
            EventLogSubscription::pull_events_speculative,
            (b, max_events, now, second),
            other,
        ),
    ensures
        one is Subscribe || one is ReadBatch || one is Done,
        final(a).progress.delivered == 0,
        final(a).progress.max_events == max_events,
        final(a).progress.update_records_for_empty_channels,
        final(a).ignore_event_ids@ == old(a).ignore_event_ids@,
        other is Subscribe || other is ReadBatch || other is Done,
        final(b).progress.delivered == 0,
        final(b).progress.max_events == max_events,
        !final(b).progress.update_records_for_empty_channels,
{
    walks_keep_the_settings(old(a)@.begun(max_events, true), now);
    walks_keep_the_settings(old(b)@.begun(max_events, false), now);
    assert(final(a)@.progress == final(a).progress);
    assert(final(b)@.progress == final(b).progress);
    assert(final(a)@.ignore_event_ids == final(a).ignore_event_ids@);
    assert(one@ is Subscribe <==> one is Subscribe);
    assert(other@ is Subscribe <==> other is Subscribe);
}

/// A channel is found by its name, the first of that name, wherever it stands.
pub proof fn channels_are_found_by_name(
    subscription: EventLogSubscription,
    name: &str,
    found: Option<usize>,
    i: int,
)
    requires
        call_ensures(EventLogSubscription::find_channel, (&subscription, name), found),
        0 <= i < subscription.channels@.len(),
    ensures
        subscription.channels@[i].channel@ == name@ ==> found is Some && found->0 <= i,
        found matches Some(at) ==> at < subscription.channels@.len()
            && subscription.channels@[at as int].channel@ == name@,
{
    let views = subscription@.channels;
    assert(views[i] == subscription.channels@[i]@);
    assert(views[i].channel == subscription.channels@[i].channel@);
    if subscription.channels@[i].channel@ == name@ {
        assert(crate::subscription::names_a_channel(views, name@));
    }
}

/// The positions that are written are those of the channels with a bookmark, each
/// under its own name with its own bookmark, in the order of the channels.
pub proof fn every_marked_channel_is_written(
    subscription: EventLogSubscription,
    bookmarks: Vec<Option<String>>,
    positions: Vec<crate::checkpoint::ChannelPosition>,
    i: int,
)
    requires
        call_ensures(
            EventLogSubscription::flush_bookmarks,
            (&subscription, bookmarks),
            positions,
        ),
        bookmarks@.len() == subscription.channels@.len(),
    ensures
        0 <= i < bookmarks@.len() && bookmarks@[i] is Some ==> exists|k: int|
            0 <= k < positions@.len() && (#[trigger] positions@[k]).channel@
                == subscription.channels@[i].channel@ && positions@[k].bookmark_xml@ == (
            bookmarks@[i]->0)@ && positions@[k].last_record_id
                == subscription.channels@[i].state.resume.last_record_id,
        0 <= i < positions@.len() ==> exists|k: int|
            0 <= k < bookmarks@.len() && (#[trigger] bookmarks@[k]) is Some
                && positions@[i].channel@ == subscription.channels@[k].channel@
                && positions@[i].bookmark_xml@ == (bookmarks@[k]->0)@,
{
    let at = crate::subscription::bookmarked_at(bookmarks@);
    let views = subscription@.channels;
    every_bookmark_is_written(bookmarks@, i);
    if 0 <= i < bookmarks@.len() && bookmarks@[i] is Some {
        let k = choose|k: int| 0 <= k < at.len() && at[k] == i;
        assert(crate::channel::is_position(positions@[k], views[at[k]], (bookmarks@[at[k]]->0)@));
        assert(views[i] == subscription.channels@[i]@);
        assert(positions@[k].channel@ == subscription.channels@[i].channel@);
    }
    if 0 <= i < positions@.len() {
        let k = at[i];
        assert(0 <= k < bookmarks@.len() && bookmarks@[k] is Some);
        assert(crate::channel::is_position(positions@[i], views[k], (bookmarks@[k]->0)@));
        assert(views[k] == subscription.channels@[k]@);
    }
}

/// The health of a subscription: how many channels it has, and how many of them are
/// live, all exactly where each is.
pub proof fn health_counts_live_channels(
    subscription: EventLogSubscription,
    summary: (usize, usize),
)
    requires
        call_ensures(EventLogSubscription::channel_health_summary, (&subscription,), summary),
        subscription.channels@.len() > 0,
    ensures
        summary.0 == subscription.channels@.len(),
        summary.1 == summary.0 <==> forall|i: int|
            0 <= i < subscription.channels@.len() ==> is_up(#[trigger] subscription.channels@[i]),
        summary.1 == 0 <==> forall|i: int|
            0 <= i < subscription.channels@.len() ==> !is_up(#[trigger] subscription.channels@[i]),
{
    let views = subscription@.channels;
    let n = views.len();
    live_channels_are_counted(views, 0, n);
    let live = |i: int|
        views[i].state.subscription_handle is Some && views[i].state.skipped_this_generation
            is None;
    assert forall|i: int| 0 <= i < n implies live(i) == is_up(
        #[trigger] subscription.channels@[i],
    ) by {
        assert(views[i] == subscription.channels@[i]@);
    }
    if forall|i: int| 0 <= i < n ==> is_up(#[trigger] subscription.channels@[i]) {
        assert forall|i: int| 0 <= i < n implies #[trigger] live(i) by {
            assert(is_up(subscription.channels@[i]));
        }
    }
    if forall|i: int| 0 <= i < n ==> #[trigger] live(i) {
        assert forall|i: int| 0 <= i < n implies is_up(#[trigger] subscription.channels@[i]) by {
            assert(live(i));
        }
    }
    if forall|i: int| 0 <= i < n ==> !is_up(#[trigger] subscription.channels@[i]) {
        assert forall|i: int| 0 <= i < n implies !(#[trigger] live(i)) by {
            assert(!is_up(subscription.channels@[i]));
        }
    }
    if forall|i: int| 0 <= i < n ==> !(#[trigger] live(i)) {
        assert forall|i: int| 0 <= i < n implies !is_up(#[trigger] subscription.channels@[i]) by {
            assert(!live(i));
        }
    }
}

/// Whether a channel has a subscription and is not skipped.
pub open spec fn is_up(channel: crate::channel::ChannelSubscription) -> bool {
    channel.state.subscription_handle is Some && channel.state.skipped_this_generation is None
}

/// A container is kept where it is no larger than four batches and no smaller than
/// the one that is kept.
pub proof fn containers_are_kept(
    subscription: EventLogSubscription,
    offered: usize,
    parked: usize,
    keep: bool,
    result: u32,
    outcome: WaitResult,
)
    requires
        call_ensures(
            EventLogSubscription::recycle_event_buffer,
            (&subscription, offered, parked),
            keep,
        ),
        call_ensures(
            EventLogSubscription::wait_for_events_blocking,
            (&subscription, result),
            outcome,
        ),
        subscription.batch_size > 0,
    ensures
        subscription.batch_size * 4 <= usize::MAX ==> (keep <==> parked <= offered
            <= subscription.batch_size * 4),
        outcome == WaitResult::Shutdown <==> result == 0,
        outcome == WaitResult::EventsAvailable <==> 1 <= result
            <= subscription.channels@.len() && result != 258,
{
}

/// Closing all leaves no subscription open, and every other thing of each channel as
/// it was.
pub proof fn closing_all_closes_each(
    subscription: &mut EventLogSubscription,
    effects: &mut Vec<Effect>,
    i: int,
)
    requires
        call_ensures(EventLogSubscription::close_all, (subscription, effects), ()),
        0 <= i < old(subscription).channels@.len(),
    ensures
        final(subscription).channels@.len() == old(subscription).channels@.len(),
        final(subscription).channels@[i].state.subscription_handle is None,
        final(subscription).channels@[i].state.resume == old(
            subscription,
        ).channels@[i].state.resume,
        final(subscription).channels@[i].channel@ == old(subscription).channels@[i].channel@,
{
    let before = old(subscription)@.channels;
    let after = final(subscription)@.channels;
    assert(after.len() == final(subscription).channels@.len());
    assert(before.len() == old(subscription).channels@.len());
    assert(after[i] == before[i].closed());
    assert(after[i] == final(subscription).channels@[i]@);
    assert(before[i] == old(subscription).channels@[i]@);
}

} // verus!
