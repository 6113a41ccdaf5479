//! What every pull keeps: which events are sent, which handles are closed, and
//! which signals are left set.

use vstd::prelude::*;

use crate::channel::{Effect, EventFacts, Notice};
use crate::subscription::{BookmarkUse, Phase};
use crate::time::{Tick, Timestamp};
use crate::win32_errors::DrainOutcome;

verus! {

/// The number of events that are sent.
pub open spec fn sends(effects: Seq<Effect>) -> nat
    decreases effects.len(),
{
    if effects.len() == 0 {
        0
    } else {
        sends(effects.drop_last()) + if effects.last() == Effect::Send {
            1nat
        } else {
            0
        }
    }
}

/// The event handles that are closed, in order.
pub open spec fn closed_events(effects: Seq<Effect>) -> Seq<i64>
    decreases effects.len(),
{
    if effects.len() == 0 {
        Seq::empty()
    } else {
        let before = closed_events(effects.drop_last());
        match effects.last() {
            Effect::CloseEvent(handle) => before.push(handle),
            _ => before,
        }
    }
}

/// The handles that are not null, in order.
pub open spec fn real_handles(handles: Seq<i64>) -> Seq<i64>
    decreases handles.len(),
{
    if handles.len() == 0 {
        Seq::empty()
    } else {
        let before = real_handles(handles.drop_last());
        if handles.last() != 0 {
            before.push(handles.last())
        } else {
            before
        }
    }
}

/// The event handles that a pull still holds: those of the batch in hand from
/// the current event on.
pub open spec fn open_events(view: crate::subscription::PullView) -> Seq<i64> {
    if view.in_batch() {
        real_handles(view.handles.skip(view.progress.index as int))
    } else {
        Seq::empty()
    }
}

/// Whether an effect neither sends an event nor closes a handle.
pub open spec fn is_quiet(effect: Effect) -> bool {
    !(effect is Send) && !(effect is CloseEvent) && !(effect is CloseSubscription)
}

/// Whether no effect sends an event or closes a handle.
pub open spec fn all_quiet(effects: Seq<Effect>) -> bool {
    forall|i: int| 0 <= i < effects.len() ==> is_quiet(#[trigger] effects[i])
}

pub proof fn lemma_sends_add(a: Seq<Effect>, b: Seq<Effect>)
    ensures
        sends(a + b) == sends(a) + sends(b),
        closed_events(a + b) == closed_events(a) + closed_events(b),
    decreases b.len(),
{
    if b.len() == 0 {
        assert(a + b =~= a);
        assert(closed_events(a) + closed_events(b) =~= closed_events(a));
    } else {
        assert((a + b).drop_last() =~= a + b.drop_last());
        lemma_sends_add(a, b.drop_last());
        assert(closed_events(a + b) =~= closed_events(a) + closed_events(b));
    }
}

pub proof fn lemma_quiet(effects: Seq<Effect>)
    requires
        all_quiet(effects),
    ensures
        sends(effects) == 0,
        closed_events(effects) == Seq::<i64>::empty(),
    decreases effects.len(),
{
    if effects.len() > 0 {
        assert(is_quiet(effects.last()));
        assert forall|i: int| 0 <= i < effects.drop_last().len() implies is_quiet(
            #[trigger] effects.drop_last()[i],
        ) by {
            assert(is_quiet(effects[i]));
        }
        lemma_quiet(effects.drop_last());
    }
}

/// Whether a step that goes from channel to channel sends nothing, closes
/// nothing, and puts no event in hand.
pub open spec fn is_walk(
    step: crate::subscription::Step,
    view: crate::subscription::PullView,
) -> bool {
    &&& all_quiet(step.effects)
    &&& !step.next.in_batch()
    &&& step.next.progress.delivered == view.progress.delivered
}

proof fn lemma_after_is_walk(
    step: crate::subscription::Step,
    view: crate::subscription::PullView,
    first: Seq<Effect>,
)
    requires
        is_walk(step, view),
        all_quiet(first),
    ensures
        is_walk(step.after(first), view),
{
    let effects = step.after(first).effects;
    assert forall|i: int| 0 <= i < effects.len() implies is_quiet(#[trigger] effects[i]) by {
        if i < first.len() {
            assert(effects[i] == first[i]);
        } else {
            assert(effects[i] == step.effects[i - first.len()]);
        }
    }
}

proof fn lemma_finish_is_walk(view: crate::subscription::PullView, now: Tick)
    requires
        !view.past_end() ==> is_walk(view.moved_on().visit(now), view),
    ensures
        is_walk(view.finish(now), view),
{
    reveal(crate::subscription::PullView::visit);
    reveal(crate::subscription::PullView::gate);
    reveal(crate::subscription::PullView::drain);
    reveal(crate::subscription::PullView::finish);
    if !view.past_end() {
        lemma_after_is_walk(view.moved_on().visit(now), view, view.leave_effects());
    }
}

proof fn lemma_drain_is_walk(view: crate::subscription::PullView, now: Tick)
    requires
        is_walk(view.finish(now), view),
    ensures
        is_walk(view.drain(now), view),
{
    reveal(crate::subscription::PullView::visit);
    reveal(crate::subscription::PullView::gate);
    reveal(crate::subscription::PullView::drain);
    reveal(crate::subscription::PullView::finish);
}

proof fn lemma_gate_is_walk(view: crate::subscription::PullView, now: Tick)
    requires
        is_walk(view.drain(now), view),
        !view.past_end() ==> is_walk(view.moved_on().visit(now), view),
    ensures
        is_walk(view.gate(now), view),
{
    reveal(crate::subscription::PullView::visit);
    reveal(crate::subscription::PullView::gate);
    reveal(crate::subscription::PullView::drain);
    reveal(crate::subscription::PullView::finish);
}

/// Going from channel to channel sends nothing, closes nothing, and puts no
/// event in hand.
pub proof fn walks_send_and_close_nothing(view: crate::subscription::PullView, now: Tick)
    ensures
        is_walk(view.visit(now), view),
        is_walk(view.gate(now), view),
        is_walk(view.drain(now), view),
        is_walk(view.finish(now), view),
    decreases view.count() - view.progress.visited,
{
    reveal(crate::subscription::PullView::visit);
    reveal(crate::subscription::PullView::gate);
    reveal(crate::subscription::PullView::drain);
    reveal(crate::subscription::PullView::finish);
    if !view.past_end() {
        walks_send_and_close_nothing(view.moved_on(), now);
    }
    lemma_finish_is_walk(view, now);
    lemma_drain_is_walk(view, now);
    lemma_gate_is_walk(view, now);
    if !view.past_end() && !view.progress.starting && view.next_limit() > 0 {
        let entered = view.entered(now);
        walks_send_and_close_nothing(entered.moved_on(), now);
        lemma_finish_is_walk(entered, now);
        lemma_drain_is_walk(entered, now);
        lemma_gate_is_walk(entered, now);
        let reset = seq![Effect::ResetSignal(view.at())];
        lemma_after_is_walk(entered.gate(now), view, reset);
    }
}

/// Whether a step counts exactly the events that it sends, and whether every
/// event handle held before it or brought by it is closed once or still held.
pub open spec fn is_balanced(
    step: crate::subscription::Step,
    view: crate::subscription::PullView,
    brought: Seq<i64>,
) -> bool {
    &&& step.next.progress.delivered == view.progress.delivered + sends(step.effects)
    &&& closed_events(step.effects) + open_events(step.next) == open_events(view) + real_handles(
        brought,
    )
}

/// Effects that send nothing and close no event.
pub open spec fn keeps_events(effects: Seq<Effect>) -> bool {
    sends(effects) == 0 && closed_events(effects) == Seq::<i64>::empty()
}

proof fn lemma_walk_after(
    step: crate::subscription::Step,
    view: crate::subscription::PullView,
    first: Seq<Effect>,
)
    requires
        is_walk(step, view),
    ensures
        sends(step.after(first).effects) == sends(first),
        closed_events(step.after(first).effects) == closed_events(first),
        open_events(step.after(first).next) == Seq::<i64>::empty(),
{
    lemma_sends_add(first, step.effects);
    lemma_quiet(step.effects);
    assert(closed_events(first) + Seq::<i64>::empty() =~= closed_events(first));
}

proof fn lemma_close_events(handles: Seq<i64>)
    ensures
        sends(crate::subscription::close_events(handles)) == 0,
        closed_events(crate::subscription::close_events(handles)) == real_handles(handles),
    decreases handles.len(),
{
    if handles.len() > 0 {
        lemma_close_events(handles.drop_last());
        lemma_close_event(handles.last());
        lemma_sends_add(
            crate::subscription::close_events(handles.drop_last()),
            crate::subscription::close_event(handles.last()),
        );
        assert(closed_events(crate::subscription::close_events(handles)) =~= real_handles(handles));
    }
}

proof fn lemma_close_event(handle: i64)
    ensures
        sends(crate::subscription::close_event(handle)) == 0,
        closed_events(crate::subscription::close_event(handle)) == if handle != 0 {
            seq![handle]
        } else {
            Seq::empty()
        },
{
    reveal_with_fuel(sends, 2);
    reveal_with_fuel(closed_events, 2);
    let effects = crate::subscription::close_event(handle);
    if handle != 0 {
        assert(effects.drop_last() =~= Seq::<Effect>::empty());
        assert(closed_events(effects) =~= seq![handle]);
    }
}

/// The first handle split off.
proof fn lemma_real_handles_first(handles: Seq<i64>)
    requires
        handles.len() > 0,
    ensures
        real_handles(handles) == (if handles[0] != 0 {
            seq![handles[0]]
        } else {
            Seq::empty()
        }) + real_handles(handles.skip(1)),
    decreases handles.len(),
{
    let rest = handles.skip(1);
    if handles.len() == 1 {
        reveal_with_fuel(real_handles, 2);
        assert(handles.drop_last() =~= Seq::<i64>::empty());
        assert(real_handles(handles) =~= (if handles[0] != 0 {
            seq![handles[0]]
        } else {
            Seq::empty()
        }) + real_handles(rest));
    } else {
        lemma_real_handles_first(handles.drop_last());
        assert(handles.drop_last().skip(1) =~= rest.drop_last());
        assert(real_handles(handles) =~= (if handles[0] != 0 {
            seq![handles[0]]
        } else {
            Seq::empty()
        }) + real_handles(rest));
    }
}

proof fn lemma_only_closes_subscriptions(effects: Seq<Effect>)
    requires
        forall|i: int|
            0 <= i < effects.len() ==> !((#[trigger] effects[i]) is Send) && !(effects[i] is
                CloseEvent),
    ensures
        keeps_events(effects),
    decreases effects.len(),
{
    if effects.len() > 0 {
        assert(!(effects.last() is Send));
        assert forall|i: int| 0 <= i < effects.drop_last().len() implies !((
        #[trigger] effects.drop_last()[i]) is Send) && !(effects.drop_last()[i] is CloseEvent) by {
            assert(!(effects[i] is Send));
        }
        lemma_only_closes_subscriptions(effects.drop_last());
    }
}

/// Going on after a rebuild is a walk.
proof fn lemma_after_rebuild_is_walk(
    view: crate::subscription::PullView,
    cause: crate::channel::Cause,
    ok: bool,
    now: Tick,
)
    ensures
        is_walk(view.after_rebuild(cause, ok, now), view),
{
    walks_send_and_close_nothing(view, now);
    walks_send_and_close_nothing(view.drained(), now);
    walks_send_and_close_nothing(view.moved_on(), now);
}

/// Subscribing, however it ends, sends no event and closes none.
pub proof fn subscribing_is_balanced(
    view: crate::subscription::PullView,
    handle: i64,
    code: u32,
    now: Tick,
    utc: Timestamp,
)
    requires
        view.progress.phase is Subscribing,
    ensures
        is_balanced(view.on_subscribed(handle, now), view, Seq::empty()),
        is_balanced(view.on_subscribe_failed(code, now, utc), view, Seq::empty()),
{
    reveal(crate::channel::ChannelView::resubscribed);
    reveal(crate::channel::ChannelView::rebuild_failed);
    let pending = view.pending();
    let swapped = view.current().resubscribed(view.at(), handle, pending.origin, pending.cause);
    let up = view.with_current(swapped.0);
    lemma_after_rebuild_is_walk(up, pending.cause, true, now);
    lemma_only_closes_subscriptions(swapped.1);
    lemma_walk_after(up.after_rebuild(pending.cause, true, now), up, swapped.1);
    if pending.falls_back {
        lemma_only_closes_subscriptions(view.on_subscribe_failed(code, now, utc).effects);
    } else {
        let failed = view.current().rebuild_failed(
            view.at(),
            code,
            pending.origin,
            pending.kind,
            pending.cause,
            now,
            utc,
        );
        let down = view.with_current(failed.0);
        lemma_after_rebuild_is_walk(down, pending.cause, false, now);
        lemma_only_closes_subscriptions(failed.1);
        lemma_walk_after(down.after_rebuild(pending.cause, false, now), down, failed.1);
    }
}

/// A read holds on to every handle that it brought, and a failed one closes them
/// all, whatever its error says.
pub proof fn reading_is_balanced(
    view: crate::subscription::PullView,
    code: u32,
    handles: Seq<i64>,
    now: Tick,
    utc: Timestamp,
)
    requires
        view.progress.phase is Reading,
    ensures
        is_balanced(view.on_read(handles, now, utc), view, handles),
        is_balanced(view.on_read_failed(code, handles, now, utc), view, handles),
{
    let channel = view.current();
    let at = view.at();
    let close = crate::subscription::close_events(handles);
    lemma_close_events(handles);
    if handles.len() == 0 {
        let empty = view.with_current(channel.drained(utc)).drained();
        walks_send_and_close_nothing(empty, now);
        lemma_quiet(empty.finish(now).effects);
        assert(real_handles(handles) =~= Seq::<i64>::empty());
        assert(is_balanced(empty.finish(now), view, handles)) by {
            assert(open_events(view) + real_handles(handles) =~= Seq::<i64>::empty());
            assert(Seq::<i64>::empty() + Seq::<i64>::empty() =~= Seq::<i64>::empty());
        }
    } else {
        assert(handles.skip(0) =~= handles);
        let read = view.on_read(handles, now, utc);
        assert(closed_events(read.effects) + open_events(read.next) =~= open_events(view)
            + real_handles(handles));
    }
    match crate::win32_errors::drain_outcome(
        code,
        crate::subscription::handle_count(handles),
        channel.state.active_query_origin,
    ) {
        DrainOutcome::Drained => {
            let next = view.with_current(
                if handles.len() == 0 {
                    channel.drained(utc)
                } else {
                    channel
                },
            ).drained();
            walks_send_and_close_nothing(next, now);
            lemma_walk_after(next.finish(now), next, close);
        },
        DrainOutcome::SkipChannel(reason) => {
            let skipped = channel.skipped(at, reason, code);
            let next = view.with_current(skipped.0).drained();
            walks_send_and_close_nothing(next, now);
            lemma_only_closes_subscriptions(skipped.1);
            lemma_closed_first(close, skipped.1, handles);
            lemma_walk_after(next.finish(now), next, close + skipped.1);
        },
        DrainOutcome::ReduceBatch => {
            let reduced = channel.reduced(at, code);
            lemma_only_closes_subscriptions(reduced.1);
            lemma_closed_first(close, reduced.1, handles);
            let step = view.on_read_failed(code, handles, now, utc);
            assert(step.effects =~= close + reduced.1);
        },
        DrainOutcome::Rebuild => {
            reveal(crate::channel::ChannelView::torn_down);
            let down = channel.torn_down(at, code, now, utc);
            let next = view.with_current(down.0).drained();
            walks_send_and_close_nothing(next, now);
            lemma_only_closes_subscriptions(down.1);
            lemma_closed_first(close, down.1, handles);
            lemma_walk_after(next.finish(now), next, close + down.1);
        },
    }
    assert(real_handles(handles) + Seq::<i64>::empty() =~= real_handles(handles));
    assert(Seq::<i64>::empty() + real_handles(handles) =~= real_handles(handles));
}

proof fn lemma_closed_first(close: Seq<Effect>, rest: Seq<Effect>, handles: Seq<i64>)
    requires
        close == crate::subscription::close_events(handles),
        keeps_events(rest),
    ensures
        sends(close + rest) == 0,
        closed_events(close + rest) == real_handles(handles),
{
    lemma_close_events(handles);
    lemma_sends_add(close, rest);
    assert(real_handles(handles) + Seq::<i64>::empty() =~= real_handles(handles));
}

/// Taking the next event closes exactly the one in hand.
proof fn lemma_next_event(
    view: crate::subscription::PullView,
    start: crate::subscription::PullView,
    first: Seq<Effect>,
    now: Tick,
)
    requires
        view.in_batch(),
        start.in_batch(),
        view.progress.index < view.handles.len() <= usize::MAX,
        view.handles == start.handles,
        view.progress.index == start.progress.index,
        closed_events(first) == Seq::<i64>::empty(),
        view.progress.delivered == start.progress.delivered + sends(first),
    ensures
        is_balanced(view.next_event(now).after(first), start, Seq::empty()),
{
    let rest = view.handles.skip(view.progress.index as int);
    let close = crate::subscription::close_event(view.event());
    lemma_close_event(view.event());
    lemma_real_handles_first(rest);
    assert(rest.skip(1) =~= view.handles.skip(view.progress.index + 1));
    let step = view.next_event(now);
    let last = view.with_current(view.current().read_cleanly()).in_phase(Phase::Idle);
    if view.progress.index + 1 < view.handles.len() {
        assert(step.effects =~= close);
    } else {
        walks_send_and_close_nothing(last, now);
        lemma_walk_after(last.drain(now), last, close);
        assert(rest.skip(1) =~= Seq::<i64>::empty());
    }
    lemma_sends_add(first, step.effects);
    let all = step.after(first);
    assert(closed_events(all.effects) =~= closed_events(close));
    assert(open_events(all.next) =~= real_handles(rest.skip(1)));
    assert(closed_events(all.effects) + open_events(all.next) =~= open_events(start) + real_handles(
        Seq::empty(),
    ));
}

/// Each event of a batch is closed once, whatever becomes of it, and counted if
/// and only if it is sent.
pub proof fn handling_an_event_is_balanced(
    view: crate::subscription::PullView,
    event_id: u32,
    rendered_delivery: bool,
    table_misses: u32,
    event: Option<EventFacts>,
    ok: bool,
    now: Tick,
)
    requires
        view.wf(),
    ensures
        view.progress.phase == Phase::Rendering ==> is_balanced(
            view.on_rendered(event_id, now),
            view,
            Seq::empty(),
        ),
        view.progress.phase == Phase::Rendering ==> is_balanced(
            view.update_bookmark(BookmarkUse::RenderFailed),
            view,
            Seq::empty(),
        ),
        view.progress.phase == Phase::Resolving ==> is_balanced(
            view.on_resolved(rendered_delivery, table_misses, event, now),
            view,
            Seq::empty(),
        ),
        view.progress.phase is Bookmarking ==> is_balanced(
            view.on_bookmarked(ok, now),
            view,
            Seq::empty(),
        ),
{
    let none = Seq::<Effect>::empty();
    assert(real_handles(Seq::empty()) =~= Seq::<i64>::empty());
    assert(Seq::<i64>::empty() + open_events(view) =~= open_events(view) + Seq::<i64>::empty());
    if view.progress.phase == Phase::Rendering {
        if view.filters_out(event_id) {
            lemma_next_event(view, view, none, now);
            assert(view.next_event(now).after(none) =~= view.next_event(now));
        }
    } else if view.progress.phase == Phase::Resolving {
        lemma_resolved(view, rendered_delivery, table_misses, event, now);
    } else if view.progress.phase is Bookmarking {
        lemma_bookmarked(view, ok, now);
    }
}

proof fn lemma_resolved(
    view: crate::subscription::PullView,
    rendered_delivery: bool,
    table_misses: u32,
    event: Option<EventFacts>,
    now: Tick,
)
    requires
        view.wf(),
        view.progress.phase == Phase::Resolving,
    ensures
        is_balanced(
            view.on_resolved(rendered_delivery, table_misses, event, now),
            view,
            Seq::empty(),
        ),
{
    let none = Seq::<Effect>::empty();
    let channel = if rendered_delivery && !view.current().state.rendered_delivery_seen {
        view.current().forwarded()
    } else {
        view.current()
    };
    let step = view.on_resolved(rendered_delivery, table_misses, event, now);
    if event is None {
        let next = view.with_current(channel);
        lemma_next_event(next, view, none, now);
        assert(next.next_event(now).after(none) =~= next.next_event(now));
    } else {
        lemma_only_closes_subscriptions(step.effects);
        assert(Seq::<i64>::empty() + open_events(view) =~= open_events(view) + real_handles(
            Seq::empty(),
        ));
    }
}

proof fn lemma_bookmarked(view: crate::subscription::PullView, ok: bool, now: Tick)
    requires
        view.wf(),
        view.progress.phase is Bookmarking,
    ensures
        is_balanced(view.on_bookmarked(ok, now), view, Seq::empty()),
{
    let at = view.at();
    let marked = view.with_current(view.current().bookmarked(ok));
    match view.progress.phase->Bookmarking_0 {
        BookmarkUse::RenderFailed => {
            let first = seq![
                Effect::Notify(
                    at,
                    Notice::RenderFailed { index: view.progress.index, bookmark_advanced: ok },
                ),
            ];
            lemma_only_closes_subscriptions(first);
            lemma_next_event(marked, view, first, now);
        },
        BookmarkUse::Poison { record_id } => {
            let first = seq![
                Effect::Notify(
                    at,
                    Notice::PoisonRecordSkipped {
                        record_id,
                        rung: view.current().state.resume.rung,
                    },
                ),
            ];
            lemma_only_closes_subscriptions(first);
            lemma_next_event(marked, view, first, now);
        },
        BookmarkUse::Deliver => {
            if ok {
                let first = seq![Effect::Send];
                reveal_with_fuel(sends, 2);
                reveal_with_fuel(closed_events, 2);
                assert(first.drop_last() =~= Seq::<Effect>::empty());
                lemma_next_event(marked.counted(), view, first, now);
            } else {
                let failed = marked.with_progress(
                    crate::subscription::Progress {
                        bookmark_failed: true,
                        phase: Phase::Idle,
                        ..view.progress
                    },
                );
                let rest = view.handles.skip(view.progress.index as int);
                let notice = seq![Effect::Notify(at, Notice::BookmarkFailed)];
                let close = crate::subscription::close_events(rest);
                lemma_only_closes_subscriptions(notice);
                lemma_close_events(rest);
                lemma_sends_add(notice, close);
                walks_send_and_close_nothing(failed, now);
                lemma_walk_after(failed.finish(now), failed, notice + close);
                assert(closed_events(notice + close) + Seq::<i64>::empty() =~= open_events(view)
                    + real_handles(Seq::empty()));
            }
        },
    }
}

/// Only the pending one-shot skip withholds a resolved event: every other event
/// goes on to be delivered, whatever its time and record id are. The skip is
/// spent by the record that it withholds.
pub proof fn only_the_pending_skip_withholds_an_event(
    view: crate::subscription::PullView,
    rendered_delivery: bool,
    table_misses: u32,
    facts: EventFacts,
    now: Tick,
)
    requires
        view.wf(),
        view.progress.phase == Phase::Resolving,
    ensures
        ({
            let skip = view.current().state.resume.skip_next_record;
            let step = view.on_resolved(rendered_delivery, table_misses, Some(facts), now);
            &&& step.next.progress.phase == Phase::Bookmarking(
                if skip {
                    BookmarkUse::Poison { record_id: facts.record_id }
                } else {
                    BookmarkUse::Deliver
                },
            )
            &&& !step.next.current().state.resume.skip_next_record
            &&& step.request == crate::subscription::RequestView::UpdateBookmark {
                channel: view.at(),
                handle: view.event(),
            }
        }),
{
}

/// An event is sent exactly when its bookmark was moved for delivery.
pub proof fn a_moved_bookmark_sends_the_event(
    view: crate::subscription::PullView,
    ok: bool,
    now: Tick,
)
    requires
        view.wf(),
        view.progress.phase is Bookmarking,
    ensures
        sends(view.on_bookmarked(ok, now).effects) == if ok && view.progress.phase
            == Phase::Bookmarking(BookmarkUse::Deliver) {
            1nat
        } else {
            0
        },
{
    lemma_bookmarked(view, ok, now);
    lemma_delivered_by_bookmark(view, ok, now);
}

proof fn lemma_delivered_by_bookmark(view: crate::subscription::PullView, ok: bool, now: Tick)
    requires
        view.wf(),
        view.progress.phase is Bookmarking,
    ensures
        view.on_bookmarked(ok, now).next.progress.delivered == view.progress.delivered + if ok
            && view.progress.phase == Phase::Bookmarking(BookmarkUse::Deliver) {
            1int
        } else {
            0
        },
{
    let marked = view.with_current(view.current().bookmarked(ok));
    let failed = marked.with_progress(
        crate::subscription::Progress {
            bookmark_failed: true,
            phase: Phase::Idle,
            ..view.progress
        },
    );
    walks_send_and_close_nothing(failed, now);
    let counted = marked.counted();
    walks_send_and_close_nothing(
        marked.with_current(marked.current().read_cleanly()).in_phase(Phase::Idle),
        now,
    );
    walks_send_and_close_nothing(
        counted.with_current(counted.current().read_cleanly()).in_phase(Phase::Idle),
        now,
    );
}

/// What comes of one event of a batch, where the bookmark can be moved for every
/// event that is to be sent.
pub enum EventOutcome {
    /// It cannot be rendered, and the bookmark may or may not step over it.
    Unrendered { bookmark_moved: bool },
    /// It was rendered and, where it parses, built.
    Rendered {
        event_id: u32,
        rendered_delivery: bool,
        table_misses: u32,
        event: Option<EventFacts>,
    },
}

/// Whether an event is one to deliver: rendered, let through by the filters, and
/// built.
pub open spec fn is_deliverable(
    view: crate::subscription::PullView,
    outcome: EventOutcome,
) -> bool {
    match outcome {
        EventOutcome::Unrendered { .. } => false,
        EventOutcome::Rendered { event_id, event, .. } => !view.filters_out(event_id)
            && event is Some,
    }
}

/// The record id of an event that was built.
pub open spec fn record_of(outcome: EventOutcome) -> u64 {
    match outcome {
        EventOutcome::Rendered { event: Some(facts), .. } => facts.record_id,
        _ => 0,
    }
}

/// The record ids of the events to deliver, in the order in which they were read.
pub open spec fn deliverable_ids(
    view: crate::subscription::PullView,
    outcomes: Seq<(EventOutcome, Tick)>,
) -> Seq<u64>
    decreases outcomes.len(),
{
    if outcomes.len() == 0 {
        Seq::empty()
    } else {
        (if is_deliverable(view, outcomes[0].0) {
            seq![record_of(outcomes[0].0)]
        } else {
            Seq::empty()
        }) + deliverable_ids(view, outcomes.skip(1))
    }
}

/// The ids that are left where a pending skip withholds the first.
pub open spec fn without_skipped(ids: Seq<u64>, skip: bool) -> Seq<u64> {
    if skip && ids.len() > 0 {
        ids.skip(1)
    } else {
        ids
    }
}

/// The event in hand handled: the new state, and all that is done for it.
pub open spec fn handled(
    view: crate::subscription::PullView,
    outcome: EventOutcome,
    now: Tick,
) -> (crate::subscription::PullView, Seq<Effect>) {
    match outcome {
        EventOutcome::Unrendered { bookmark_moved } => {
            let asked = view.update_bookmark(BookmarkUse::RenderFailed);
            let marked = asked.next.on_bookmarked(bookmark_moved, now);
            (marked.next, asked.effects + marked.effects)
        },
        EventOutcome::Rendered { event_id, rendered_delivery, table_misses, event } => {
            let rendered = view.on_rendered(event_id, now);
            if view.filters_out(event_id) {
                (rendered.next, rendered.effects)
            } else {
                let resolved = rendered.next.on_resolved(
                    rendered_delivery,
                    table_misses,
                    event,
                    now,
                );
                if event is None {
                    (resolved.next, rendered.effects + resolved.effects)
                } else {
                    let marked = resolved.next.on_bookmarked(true, now);
                    (marked.next, rendered.effects + resolved.effects + marked.effects)
                }
            }
        },
    }
}

/// The events from the one in hand on handled, one after another.
pub open spec fn handled_all(
    view: crate::subscription::PullView,
    outcomes: Seq<(EventOutcome, Tick)>,
) -> (crate::subscription::PullView, Seq<Effect>)
    decreases outcomes.len(),
{
    if outcomes.len() == 0 {
        (view, Seq::empty())
    } else {
        let first = handled(view, outcomes[0].0, outcomes[0].1);
        let rest = handled_all(first.0, outcomes.skip(1));
        (rest.0, first.1 + rest.1)
    }
}

/// The record ids of the events that are sent while they are handled, in order.
pub open spec fn sent_ids(
    view: crate::subscription::PullView,
    outcomes: Seq<(EventOutcome, Tick)>,
) -> Seq<u64>
    decreases outcomes.len(),
{
    if outcomes.len() == 0 {
        Seq::empty()
    } else {
        let first = handled(view, outcomes[0].0, outcomes[0].1);
        (if sends(first.1) > 0 {
            seq![record_of(outcomes[0].0)]
        } else {
            Seq::empty()
        }) + sent_ids(first.0, outcomes.skip(1))
    }
}

proof fn lemma_next_event_sends_nothing(view: crate::subscription::PullView, now: Tick)
    ensures
        sends(view.next_event(now).effects) == 0,
{
    let close = crate::subscription::close_event(view.event());
    let last = view.with_current(view.current().read_cleanly()).in_phase(Phase::Idle);
    lemma_close_event(view.event());
    walks_send_and_close_nothing(last, now);
    lemma_walk_after(last.drain(now), last, close);
}

/// Handling an event sends it if it is one to deliver and no skip is pending, and
/// closes it.
pub proof fn lemma_handled(
    view: crate::subscription::PullView,
    outcome: EventOutcome,
    now: Tick,
)
    requires
        view.wf(),
        view.progress.phase == Phase::Rendering,
    ensures
        ({
            let (next, effects) = handled(view, outcome, now);
            let deliver = is_deliverable(view, outcome);
            &&& sends(effects) == if deliver && !view.current().state.resume.skip_next_record {
                1nat
            } else {
                0
            }
            &&& next.progress.delivered == view.progress.delivered + sends(effects)
            &&& closed_events(effects) + open_events(next) == open_events(view)
        }),
{
    let none = Seq::<i64>::empty();
    assert(real_handles(none) =~= none);
    match outcome {
        EventOutcome::Unrendered { bookmark_moved } => {
            let asked = view.update_bookmark(BookmarkUse::RenderFailed);
            lemma_quiet(asked.effects);
            lemma_bookmarked(asked.next, bookmark_moved, now);
            a_moved_bookmark_sends_the_event(asked.next, bookmark_moved, now);
            let marked = asked.next.on_bookmarked(bookmark_moved, now);
            assert(asked.effects + marked.effects =~= marked.effects);
            assert(open_events(asked.next) + none =~= open_events(view));
        },
        EventOutcome::Rendered { event_id, rendered_delivery, table_misses, event } => {
            let rendered = view.on_rendered(event_id, now);
            if view.filters_out(event_id) {
                lemma_next_event_sends_nothing(view, now);
                handling_an_event_is_balanced(
                    view,
                    event_id,
                    rendered_delivery,
                    table_misses,
                    event,
                    true,
                    now,
                );
                assert(open_events(view) + none =~= open_events(view));
            } else {
                let resolved = rendered.next.on_resolved(
                    rendered_delivery,
                    table_misses,
                    event,
                    now,
                );
                lemma_resolved(rendered.next, rendered_delivery, table_misses, event, now);
                assert(rendered.effects + resolved.effects =~= resolved.effects);
                assert(open_events(rendered.next) + none =~= open_events(view));
                if event is None {
                    let channel = if rendered_delivery
                        && !view.current().state.rendered_delivery_seen {
                        view.current().forwarded()
                    } else {
                        view.current()
                    };
                    lemma_next_event_sends_nothing(rendered.next.with_current(channel), now);
                } else {
                    let marked = resolved.next.on_bookmarked(true, now);
                    lemma_only_closes_subscriptions(resolved.effects);
                    lemma_sends_add(resolved.effects, marked.effects);
                    lemma_bookmarked(resolved.next, true, now);
                    a_moved_bookmark_sends_the_event(resolved.next, true, now);
                    assert(none + open_events(resolved.next) =~= open_events(resolved.next));
                    assert(open_events(resolved.next) + none =~= open_events(resolved.next));
                    assert(none + closed_events(marked.effects) =~= closed_events(marked.effects));
                }
            }
        },
    }
}

proof fn lemma_next_in_hand(view: crate::subscription::PullView, now: Tick)
    requires
        view.on_channel(),
    ensures
        ({
            let next = view.next_event(now).next;
            if view.progress.index + 1 < view.handles.len() {
                next == view.with_progress(
                    crate::subscription::Progress {
                        index: (view.progress.index + 1) as usize,
                        phase: Phase::Rendering,
                        ..view.progress
                    },
                )
            } else {
                &&& !next.in_batch()
                &&& view.may_read_on() ==> {
                    let clean = view.with_current(view.current().read_cleanly());
                    next == clean.in_phase(Phase::Reading(clean.read_size() as usize))
                }
            }
        }),
{
    reveal(crate::subscription::PullView::drain);
    let clean = view.with_current(view.current().read_cleanly());
    walks_send_and_close_nothing(clean.in_phase(Phase::Idle), now);
    assert(clean.current() == view.current().read_cleanly());
}

/// Whether a state is another one as far as reading on goes: the same channel
/// with the same subscription, share and filters.
pub open spec fn reads_the_same(
    next: crate::subscription::PullView,
    view: crate::subscription::PullView,
) -> bool {
    &&& next.only_event_ids == view.only_event_ids
    &&& next.ignore_event_ids == view.ignore_event_ids
    &&& next.progress.channel_limit == view.progress.channel_limit
    &&& next.progress.starting == view.progress.starting
    &&& next.at() == view.at()
    &&& next.current().state.subscription_handle == view.current().state.subscription_handle
}

/// Whether a state follows on one event of `view`, with `count` events of the
/// channel sent and the skip pending or not: the next event is in hand or, after
/// the last, the channel is read on while its share lasts.
pub open spec fn follows(
    next: crate::subscription::PullView,
    view: crate::subscription::PullView,
    count: int,
    skip: bool,
) -> bool {
    if view.progress.index + 1 < view.handles.len() {
        &&& next.wf()
        &&& next.progress.phase == Phase::Rendering
        &&& next.handles == view.handles
        &&& next.progress.index == view.progress.index + 1
        &&& next.progress.channel_count == count
        &&& reads_the_same(next, view)
        &&& next.current().state.resume.skip_next_record == skip
    } else {
        &&& !next.in_batch()
        &&& count < view.progress.channel_limit && view.current().state.subscription_handle is Some
            ==> {
            &&& next.wf()
            &&& next.progress.phase is Reading
            &&& next.progress.channel_count == count
            &&& reads_the_same(next, view)
            &&& !next.current().state.resume.skip_next_record
        }
    }
}

proof fn lemma_follows(
    done: crate::subscription::PullView,
    view: crate::subscription::PullView,
    now: Tick,
)
    requires
        view.wf(),
        view.progress.phase == Phase::Rendering,
        done.on_channel(),
        !done.progress.starting,
        done.handles == view.handles,
        done.progress.index == view.progress.index,
        reads_the_same(done, view),
        view.handles.len() - view.progress.index - 1 <= done.progress.channel_limit
            - done.progress.channel_count,
    ensures
        follows(
            done.next_event(now).next,
            view,
            done.progress.channel_count as int,
            done.current().state.resume.skip_next_record,
        ),
{
    lemma_next_in_hand(done, now);
    let clean = done.with_current(done.current().read_cleanly());
    assert(clean.current() == done.current().read_cleanly());
    let next = done.next_event(now).next;
    if view.progress.index + 1 < view.handles.len() {
        assert(next.channels == done.channels);
        assert(next.wf());
    } else if done.may_read_on() {
        assert(next.channels == clean.channels);
        assert(next.current() == clean.current());
        assert(1 <= clean.read_size() <= clean.progress.channel_limit
            - clean.progress.channel_count);
        assert(next.wf());
    }
}

/// Handling an event that is not the last of its batch puts the one after it in
/// hand. A pending skip is spent by the first event that is one to deliver. After
/// the last the channel is read on, while its share lasts.
proof fn lemma_handled_next(
    view: crate::subscription::PullView,
    outcome: EventOutcome,
    now: Tick,
)
    requires
        view.wf(),
        view.progress.phase == Phase::Rendering,
    ensures
        ({
            let (next, effects) = handled(view, outcome, now);
            let skip = view.current().state.resume.skip_next_record;
            follows(
                next,
                view,
                view.progress.channel_count + if is_deliverable(view, outcome) && !skip {
                    1int
                } else {
                    0
                },
                skip && !is_deliverable(view, outcome),
            )
        }),
{
    match outcome {
        EventOutcome::Unrendered { bookmark_moved } => {
            let asked = view.update_bookmark(BookmarkUse::RenderFailed).next;
            let done = asked.with_current(asked.current().bookmarked(bookmark_moved));
            assert(done.current() == view.current().bookmarked(bookmark_moved));
            lemma_follows(done, view, now);
        },
        EventOutcome::Rendered { event_id, rendered_delivery, table_misses, event } => {
            if view.filters_out(event_id) {
                lemma_follows(view, view, now);
            } else {
                lemma_resolved_next(view, rendered_delivery, table_misses, event, now);
            }
        },
    }
}

proof fn lemma_resolved_next(
    view: crate::subscription::PullView,
    rendered_delivery: bool,
    table_misses: u32,
    event: Option<EventFacts>,
    now: Tick,
)
    requires
        view.wf(),
        view.progress.phase == Phase::Rendering,
    ensures
        ({
            let skip = view.current().state.resume.skip_next_record;
            let rendered = view.in_phase(Phase::Resolving);
            let resolved = rendered.on_resolved(rendered_delivery, table_misses, event, now);
            if event is None {
                follows(resolved.next, view, view.progress.channel_count as int, skip)
            } else {
                follows(
                    resolved.next.on_bookmarked(true, now).next,
                    view,
                    view.progress.channel_count + if skip {
                        0int
                    } else {
                        1
                    },
                    false,
                )
            }
        }),
{
    let rendered = view.in_phase(Phase::Resolving);
    let channel = if rendered_delivery && !view.current().state.rendered_delivery_seen {
        view.current().forwarded()
    } else {
        view.current()
    };
    if event is None {
        let done = rendered.with_current(channel);
        assert(done.current() == channel);
        lemma_follows(done, view, now);
    } else {
        let facts = event->0;
        let counted = channel.names_missed(table_misses);
        let skip = counted.state.resume.skip_next_record;
        let resolved = rendered.on_resolved(rendered_delivery, table_misses, event, now).next;
        let taken = if skip {
            counted.passed_poison(facts.time, facts.record_id)
        } else {
            counted.took_in(facts.time, facts.record_id)
        };
        assert(resolved.current() == taken);
        let marked = resolved.with_current(resolved.current().bookmarked(true));
        assert(marked.current() == taken.bookmarked(true));
        if skip {
            lemma_follows(marked, view, now);
        } else {
            let done = marked.counted();
            assert(done.current() == marked.current());
            lemma_follows(done, view, now);
        }
    }
}

proof fn lemma_ids_by_the_filters(
    a: crate::subscription::PullView,
    b: crate::subscription::PullView,
    outcomes: Seq<(EventOutcome, Tick)>,
)
    requires
        a.only_event_ids == b.only_event_ids,
        a.ignore_event_ids == b.ignore_event_ids,
    ensures
        deliverable_ids(a, outcomes) == deliverable_ids(b, outcomes),
    decreases outcomes.len(),
{
    if outcomes.len() > 0 {
        lemma_ids_by_the_filters(a, b, outcomes.skip(1));
    }
}

/// Every event that a read brought is sent, in the order in which it was read,
/// but for those that cannot be rendered, do not parse or are filtered out, and
/// for the one record that a pending skip withholds. Every handle is closed, in
/// that order too, and the batch is then over.
pub proof fn batches_are_delivered_whole(
    view: crate::subscription::PullView,
    outcomes: Seq<(EventOutcome, Tick)>,
)
    requires
        view.wf(),
        view.progress.phase == Phase::Rendering,
        outcomes.len() == view.handles.len() - view.progress.index,
    ensures
        ({
            let (next, effects) = handled_all(view, outcomes);
            &&& sent_ids(view, outcomes) == without_skipped(
                deliverable_ids(view, outcomes),
                view.current().state.resume.skip_next_record,
            )
            &&& sends(effects) == sent_ids(view, outcomes).len()
            &&& closed_events(effects) == open_events(view)
            &&& next.progress.delivered == view.progress.delivered + sends(effects)
            &&& !next.in_batch()
        }),
    decreases outcomes.len(),
{
    reveal_with_fuel(deliverable_ids, 2);
    reveal_with_fuel(sent_ids, 2);
    let (outcome, now) = outcomes[0];
    let skip = view.current().state.resume.skip_next_record;
    let first = handled(view, outcome, now);
    let rest = handled_all(first.0, outcomes.skip(1));
    lemma_handled(view, outcome, now);
    lemma_handled_next(view, outcome, now);
    lemma_sends_add(first.1, rest.1);
    if view.progress.index + 1 < view.handles.len() {
        batches_are_delivered_whole(first.0, outcomes.skip(1));
        lemma_ids_by_the_filters(view, first.0, outcomes.skip(1));
    } else {
        assert(outcomes.skip(1) =~= Seq::<(EventOutcome, Tick)>::empty());
        assert(first.1 + rest.1 =~= first.1);
        assert(closed_events(first.1) + Seq::<i64>::empty() =~= closed_events(first.1));
    }
    assert(sent_ids(view, outcomes) =~= without_skipped(deliverable_ids(view, outcomes), skip));
}

/// After a batch the channel is read on, while its share lasts.
proof fn lemma_batch_leads_to_a_read(
    view: crate::subscription::PullView,
    outcomes: Seq<(EventOutcome, Tick)>,
)
    requires
        view.wf(),
        view.progress.phase == Phase::Rendering,
        outcomes.len() == view.handles.len() - view.progress.index,
        view.progress.channel_count + outcomes.len() < view.progress.channel_limit,
        view.current().state.subscription_handle is Some,
    ensures
        ({
            let next = handled_all(view, outcomes).0;
            &&& next.wf()
            &&& next.progress.phase is Reading
            &&& next.progress.channel_count <= view.progress.channel_count + outcomes.len()
            &&& reads_the_same(next, view)
            &&& !next.current().state.resume.skip_next_record
        }),
    decreases outcomes.len(),
{
    reveal_with_fuel(handled_all, 2);
    let (outcome, now) = outcomes[0];
    let first = handled(view, outcome, now).0;
    lemma_handled_next(view, outcome, now);
    if view.progress.index + 1 < view.handles.len() {
        lemma_batch_leads_to_a_read(first, outcomes.skip(1));
    } else {
        assert(outcomes.skip(1) =~= Seq::<(EventOutcome, Tick)>::empty());
    }
}

/// A read of a channel that brought events, and what came of each.
pub struct BatchRead {
    pub handles: Seq<i64>,
    pub outcomes: Seq<(EventOutcome, Tick)>,
    pub now: Tick,
    pub utc: Timestamp,
}

/// A read brought events, and every one has an outcome.
pub open spec fn is_full(read: BatchRead) -> bool {
    0 < read.handles.len() == read.outcomes.len()
}

/// The event handles of several reads, in order.
pub open spec fn all_handles(reads: Seq<BatchRead>) -> Seq<i64>
    decreases reads.len(),
{
    if reads.len() == 0 {
        Seq::empty()
    } else {
        reads[0].handles + all_handles(reads.skip(1))
    }
}

/// The record ids of the events of several reads, in order.
pub open spec fn all_records(reads: Seq<BatchRead>) -> Seq<u64>
    decreases reads.len(),
{
    if reads.len() == 0 {
        Seq::empty()
    } else {
        records_of(reads[0].outcomes) + all_records(reads.skip(1))
    }
}

/// The record ids of the events of one read, in order.
pub open spec fn records_of(outcomes: Seq<(EventOutcome, Tick)>) -> Seq<u64> {
    outcomes.map_values(|o: (EventOutcome, Tick)| record_of(o.0))
}

/// One read of the current channel, with its events handled.
pub open spec fn read_and_handled(view: crate::subscription::PullView, read: BatchRead) -> (
    crate::subscription::PullView,
    Seq<Effect>,
) {
    let step = view.on_read(read.handles, read.now, read.utc);
    let batch = handled_all(step.next, read.outcomes);
    (batch.0, step.effects + batch.1)
}

/// Several reads of the current channel, with their events handled.
pub open spec fn all_read(view: crate::subscription::PullView, reads: Seq<BatchRead>) -> (
    crate::subscription::PullView,
    Seq<Effect>,
)
    decreases reads.len(),
{
    if reads.len() == 0 {
        (view, Seq::empty())
    } else {
        let first = read_and_handled(view, reads[0]);
        let rest = all_read(first.0, reads.skip(1));
        (rest.0, first.1 + rest.1)
    }
}

/// The record ids of the events that are sent over several reads, in order.
pub open spec fn sent_over(view: crate::subscription::PullView, reads: Seq<BatchRead>) -> Seq<u64>
    decreases reads.len(),
{
    if reads.len() == 0 {
        Seq::empty()
    } else {
        let read = reads[0];
        sent_ids(view.on_read(read.handles, read.now, read.utc).next, read.outcomes) + sent_over(
            read_and_handled(view, read).0,
            reads.skip(1),
        )
    }
}

/// The record ids to send over several reads. A skip that is pending withholds
/// the first event to deliver of the first read; a read to the end disarms it.
pub open spec fn ids_to_send(
    view: crate::subscription::PullView,
    reads: Seq<BatchRead>,
    skip: bool,
) -> Seq<u64>
    decreases reads.len(),
{
    if reads.len() == 0 {
        Seq::empty()
    } else {
        without_skipped(deliverable_ids(view, reads[0].outcomes), skip) + ids_to_send(
            view,
            reads.skip(1),
            false,
        )
    }
}

proof fn lemma_ids_to_send_by_the_filters(
    a: crate::subscription::PullView,
    b: crate::subscription::PullView,
    reads: Seq<BatchRead>,
    skip: bool,
)
    requires
        a.only_event_ids == b.only_event_ids,
        a.ignore_event_ids == b.ignore_event_ids,
    ensures
        ids_to_send(a, reads, skip) == ids_to_send(b, reads, skip),
    decreases reads.len(),
{
    if reads.len() > 0 {
        lemma_ids_by_the_filters(a, b, reads[0].outcomes);
        lemma_ids_to_send_by_the_filters(a, b, reads.skip(1), false);
    }
}

proof fn lemma_real_handles_add(a: Seq<i64>, b: Seq<i64>)
    ensures
        real_handles(a + b) == real_handles(a) + real_handles(b),
    decreases b.len(),
{
    if b.len() == 0 {
        assert(a + b =~= a);
        assert(real_handles(a) + real_handles(b) =~= real_handles(a));
    } else {
        assert((a + b).drop_last() =~= a + b.drop_last());
        lemma_real_handles_add(a, b.drop_last());
        assert(real_handles(a + b) =~= real_handles(a) + real_handles(b));
    }
}

/// Over any number of reads of a channel, within its share of the pull, every
/// event is sent that is one to deliver, in the order in which the events were
/// read, but for the one record that a pending skip withholds. Every handle is
/// closed once, in that order too.
pub proof fn reads_are_delivered_in_order(
    view: crate::subscription::PullView,
    reads: Seq<BatchRead>,
)
    requires
        view.wf(),
        view.progress.phase is Reading,
        view.current().state.subscription_handle is Some,
        forall|i: int| 0 <= i < reads.len() ==> is_full(#[trigger] reads[i]),
        view.progress.channel_count + all_handles(reads).len() <= view.progress.channel_limit,
    ensures
        ({
            let (next, effects) = all_read(view, reads);
            &&& sent_over(view, reads) == ids_to_send(
                view,
                reads,
                view.current().state.resume.skip_next_record,
            )
            &&& sends(effects) == sent_over(view, reads).len()
            &&& closed_events(effects) == real_handles(all_handles(reads))
            &&& next.progress.delivered == view.progress.delivered + sends(effects)
            &&& !next.in_batch()
        }),
    decreases reads.len(),
{
    if reads.len() > 0 {
        let read = reads[0];
        let rest = reads.skip(1);
        assert(is_full(read));
        assert forall|i: int| 0 <= i < rest.len() implies is_full(#[trigger] rest[i]) by {
            assert(rest[i] == reads[i + 1]);
        }
        let step = view.on_read(read.handles, read.now, read.utc);
        let batch = handled_all(step.next, read.outcomes);
        let after = all_read(batch.0, rest);
        assert(step.next.channels == view.channels);
        assert(step.next.wf());
        assert(read.handles.skip(0) =~= read.handles);
        assert(step.effects + batch.1 =~= batch.1);
        batches_are_delivered_whole(step.next, read.outcomes);
        lemma_ids_by_the_filters(view, step.next, read.outcomes);
        lemma_sends_add(batch.1, after.1);
        lemma_real_handles_add(read.handles, all_handles(rest));
        if rest.len() > 0 {
            assert(is_full(rest[0]));
            lemma_batch_leads_to_a_read(step.next, read.outcomes);
            reads_are_delivered_in_order(batch.0, rest);
            lemma_ids_to_send_by_the_filters(view, batch.0, rest, false);
        } else {
            assert(rest =~= Seq::<BatchRead>::empty());
            reveal_with_fuel(all_read, 2);
            reveal_with_fuel(sent_over, 2);
            reveal_with_fuel(ids_to_send, 2);
            reveal_with_fuel(all_handles, 2);
            assert(batch.1 + after.1 =~= batch.1);
            assert(real_handles(all_handles(rest)) =~= Seq::<i64>::empty());
        }
    } else {
        assert(real_handles(all_handles(reads)) =~= Seq::<i64>::empty());
    }
}

/// Whether every event of a read is one to deliver.
pub open spec fn all_deliverable(view: crate::subscription::PullView, read: BatchRead) -> bool {
    forall|i: int|
        0 <= i < read.outcomes.len() ==> is_deliverable(view, (#[trigger] read.outcomes[i]).0)
}

proof fn lemma_all_deliverable(
    view: crate::subscription::PullView,
    outcomes: Seq<(EventOutcome, Tick)>,
)
    requires
        forall|i: int|
            0 <= i < outcomes.len() ==> is_deliverable(view, (#[trigger] outcomes[i]).0),
    ensures
        deliverable_ids(view, outcomes) == records_of(outcomes),
    decreases outcomes.len(),
{
    if outcomes.len() > 0 {
        let rest = outcomes.skip(1);
        assert(is_deliverable(view, outcomes[0].0));
        assert forall|i: int| 0 <= i < rest.len() implies is_deliverable(
            view,
            (#[trigger] rest[i]).0,
        ) by {
            assert(rest[i] == outcomes[i + 1]);
        }
        lemma_all_deliverable(view, rest);
    }
    assert(deliverable_ids(view, outcomes) =~= records_of(outcomes));
}

proof fn lemma_all_records(
    view: crate::subscription::PullView,
    reads: Seq<BatchRead>,
    skip: bool,
)
    requires
        forall|i: int| 0 <= i < reads.len() ==> is_full(#[trigger] reads[i]),
        forall|i: int| 0 <= i < reads.len() ==> all_deliverable(view, #[trigger] reads[i]),
    ensures
        ids_to_send(view, reads, skip) == without_skipped(all_records(reads), skip),
    decreases reads.len(),
{
    if reads.len() > 0 {
        let rest = reads.skip(1);
        assert(is_full(reads[0]) && all_deliverable(view, reads[0]));
        assert forall|i: int| 0 <= i < rest.len() implies is_full(#[trigger] rest[i])
            && all_deliverable(view, rest[i]) by {
            assert(rest[i] == reads[i + 1]);
        }
        lemma_all_deliverable(view, reads[0].outcomes);
        lemma_all_records(view, rest, false);
        assert(ids_to_send(view, reads, skip) =~= without_skipped(all_records(reads), skip));
    }
}

/// Where every event renders, passes the filters and is built, all events read
/// are sent and in that order: none is lost, repeated or moved, but for the very
/// first where a skip is pending.
pub proof fn no_event_is_lost_or_repeated(
    view: crate::subscription::PullView,
    reads: Seq<BatchRead>,
)
    requires
        view.wf(),
        view.progress.phase is Reading,
        view.current().state.subscription_handle is Some,
        forall|i: int| 0 <= i < reads.len() ==> is_full(#[trigger] reads[i]),
        forall|i: int| 0 <= i < reads.len() ==> all_deliverable(view, #[trigger] reads[i]),
        view.progress.channel_count + all_handles(reads).len() <= view.progress.channel_limit,
    ensures
        sent_over(view, reads) == without_skipped(
            all_records(reads),
            view.current().state.resume.skip_next_record,
        ),
{
    reads_are_delivered_in_order(view, reads);
    lemma_all_records(view, reads, view.current().state.resume.skip_next_record);
}

/// Whether two events differ at most in their times and in what became of their
/// names.
pub open spec fn same_event(a: EventOutcome, b: EventOutcome) -> bool {
    match (a, b) {
        (EventOutcome::Unrendered { .. }, EventOutcome::Unrendered { .. }) => true,
        (
            EventOutcome::Rendered { event_id: first, event: one, .. },
            EventOutcome::Rendered { event_id: second, event: other, .. },
        ) => first == second && (one is Some) == (other is Some) && record_of(a) == record_of(b),
        _ => false,
    }
}

/// Whether two reads brought the same events, at whatever times.
pub open spec fn same_events(
    a: Seq<(EventOutcome, Tick)>,
    b: Seq<(EventOutcome, Tick)>,
) -> bool {
    &&& a.len() == b.len()
    &&& forall|i: int| 0 <= i < a.len() ==> same_event((#[trigger] a[i]).0, b[i].0)
}

proof fn lemma_same_events(
    view: crate::subscription::PullView,
    a: Seq<(EventOutcome, Tick)>,
    b: Seq<(EventOutcome, Tick)>,
)
    requires
        same_events(a, b),
    ensures
        deliverable_ids(view, a) == deliverable_ids(view, b),
    decreases a.len(),
{
    if a.len() > 0 {
        assert(same_event(a[0].0, b[0].0));
        assert forall|i: int| 0 <= i < a.skip(1).len() implies same_event(
            (#[trigger] a.skip(1)[i]).0,
            b.skip(1)[i].0,
        ) by {
            assert(same_event(a[i + 1].0, b[i + 1].0));
        }
        lemma_same_events(view, a.skip(1), b.skip(1));
    }
}

proof fn lemma_same_reads(
    view: crate::subscription::PullView,
    a: Seq<BatchRead>,
    b: Seq<BatchRead>,
    skip: bool,
)
    requires
        a.len() == b.len(),
        forall|i: int|
            0 <= i < a.len() ==> same_events((#[trigger] a[i]).outcomes, b[i].outcomes),
    ensures
        ids_to_send(view, a, skip) == ids_to_send(view, b, skip),
    decreases a.len(),
{
    if a.len() > 0 {
        assert(same_events(a[0].outcomes, b[0].outcomes));
        lemma_same_events(view, a[0].outcomes, b[0].outcomes);
        assert forall|i: int| 0 <= i < a.skip(1).len() implies same_events(
            (#[trigger] a.skip(1)[i]).outcomes,
            b.skip(1)[i].outcomes,
        ) by {
            assert(same_events(a[i + 1].outcomes, b[i + 1].outcomes));
        }
        lemma_same_reads(view, a.skip(1), b.skip(1), false);
    }
}

/// The times of events decide nothing: the same events at any other times,
/// decreasing, equal or in the future, are sent just the same.
pub proof fn event_times_decide_nothing(
    view: crate::subscription::PullView,
    a: Seq<BatchRead>,
    b: Seq<BatchRead>,
)
    requires
        view.wf(),
        view.progress.phase is Reading,
        view.current().state.subscription_handle is Some,
        a.len() == b.len(),
        forall|i: int| 0 <= i < a.len() ==> is_full(#[trigger] a[i]),
        forall|i: int| 0 <= i < b.len() ==> is_full(#[trigger] b[i]),
        forall|i: int|
            0 <= i < a.len() ==> same_events((#[trigger] a[i]).outcomes, b[i].outcomes),
        view.progress.channel_count + all_handles(a).len() <= view.progress.channel_limit,
        view.progress.channel_count + all_handles(b).len() <= view.progress.channel_limit,
    ensures
        sent_over(view, a) == sent_over(view, b),
{
    reads_are_delivered_in_order(view, a);
    reads_are_delivered_in_order(view, b);
    lemma_same_reads(view, a, b, view.current().state.resume.skip_next_record);
}

/// The signal of a channel is reset before anything else is done for it, so a
/// signal raised while it is read survives.
pub proof fn signals_are_reset_before_reading(view: crate::subscription::PullView, now: Tick)
    requires
        view.wf(),
        !view.past_end(),
        !view.progress.starting,
        view.next_limit() > 0,
    ensures
        view.visit(now).effects.len() > 0,
        view.visit(now).effects[0] == Effect::ResetSignal(view.at()),
{
    reveal(crate::subscription::PullView::visit);
    reveal(crate::subscription::PullView::gate);
}

/// A channel that was not read to its end, or whose bookmark could not be moved,
/// is left signaled, so that the next wait returns at once.
pub proof fn unfinished_channels_are_signaled_again(view: crate::subscription::PullView, now: Tick)
    requires
        view.wf(),
        !view.past_end(),
        !view.progress.channel_drained || view.progress.bookmark_failed,
    ensures
        view.finish(now).effects.len() > 0,
        view.finish(now).effects[0] == Effect::SetSignal(view.at()),
{
    reveal(crate::subscription::PullView::finish);
    reveal(crate::subscription::PullView::visit);
}

/// A due refresh always rebuilds the channel, also one that was skipped, and is
/// then a full interval away.
pub proof fn a_due_refresh_rebuilds_any_channel(view: crate::subscription::PullView, now: Tick)
    requires
        view.wf(),
        !view.past_end(),
        !view.progress.starting,
        view.next_limit() > 0,
        now.nanos >= view.current().state.next_refresh.nanos,
    ensures
        view.visit(now).request matches crate::subscription::RequestView::Subscribe { channel, .. }
            && channel == view.at(),
        view.visit(now).next.current().state.skipped_this_generation is None,
        view.visit(now).next.current().state.next_refresh.nanos == now.nanos + view.refresh_nanos,
{
    reveal(crate::subscription::PullView::visit);
    reveal(crate::subscription::PullView::gate);
}

/// Successive pulls start with successive channels, round and round.
pub proof fn pulls_rotate_their_first_channel(
    view: crate::subscription::PullView,
    first: usize,
    second: usize,
    update_records: bool,
)
    requires
        view.count() > 0,
        view.round_robin_index < usize::MAX,
    ensures
        view.begun(first, update_records).begun(second, update_records).progress.start == (
        view.begun(first, update_records).progress.start + 1) % view.count(),
{
    let n = view.count();
    let r = view.round_robin_index as int;
    vstd::arithmetic::div_mod::lemma_mod_decreases(r as nat, n as nat);
    vstd::arithmetic::div_mod::lemma_mod_decreases((r + 1) as nat, n as nat);
    vstd::arithmetic::div_mod::lemma_add_mod_noop_right(1, r, n);
    let begun = view.begun(first, update_records);
    assert(begun.progress.start == r % n);
    assert(begun.begun(second, update_records).progress.start == (r + 1) % n);
}

/// No channel takes more than its share of a pull: an equal part of what is
/// asked for, or the minimum where that is more, and never more than is left.
pub proof fn no_channel_takes_more_than_its_share(
    view: crate::subscription::PullView,
    max_events: usize,
    now: Tick,
)
    requires
        view.wf(),
        view.progress.per_channel_budget == view.begun(max_events, true).progress.per_channel_budget,
    ensures
        view.entered(now).progress.channel_limit <= crate::subscription::larger(
            max_events as int / view.count(),
            crate::subscription::MIN_PER_CHANNEL_BUDGET as int,
        ),
        !view.progress.starting ==> view.progress.delivered
            + view.entered(now).progress.channel_limit <= view.progress.max_events,
{
    let n = view.count();
    assert(0 <= max_events as int / n <= max_events) by (nonlinear_arith)
        requires
            n >= 1,
            max_events >= 0,
    ;
}

/// A stop wins over waiting events however many channels there are, and a failed
/// wait counts as a timeout, so that it cannot spin.
pub proof fn a_stop_wins_over_events(result: u32, channels: nat)
    ensures
        crate::subscription::wait_outcome(crate::subscription::WAIT_OBJECT_0, channels)
            == crate::subscription::WaitResult::Shutdown,
        result > channels ==> crate::subscription::wait_outcome(result, channels)
            == crate::subscription::WaitResult::Timeout,
{
}

} // verus!
