//! Reading all channels: a pull goes round the channels, rebuilds what is due,
//! reads each in batches and decides which events are sent.
//!
//! A pull is a conversation. The library asks for one system call at a time (a
//! [`Request`]), is told how it ended, and answers with what else there is to do
//! (the [`Effect`]s, in order) and the next request.

use vstd::prelude::*;

use crate::channel::{
    Cause, ChannelSeed, ChannelSubscription, Effect, EventFacts, Notice, RebuildKind,
};
use crate::checkpoint::ChannelPosition;
use crate::config::WindowsEventLogConfig;
use crate::error::WindowsEventLogError;
use crate::query::{build_xpath_query, SubscribeAttempt, SubscriptionFactory};
use crate::recovery::Rung;
use crate::status::{ChannelRecordStats, StatusSnapshot};
use crate::text::text_eq;
use crate::time::{Deadline, Span, Tick, Timestamp};
use crate::win32_errors::{classify_evt_next, win32_code, DrainOutcome, QueryOrigin};

verus! {

/// The smallest share of a pull that a channel gets, however many channels share
/// the source.
pub const MIN_PER_CHANNEL_BUDGET: usize = 8;

/// The wait ended by its timeout.
pub const WAIT_TIMEOUT: u32 = 258;

/// The first object of the wait was signaled.
pub const WAIT_OBJECT_0: u32 = 0;

/// A publisher metadata handle. Zero stands for no handle.
#[derive(Debug, PartialEq, Eq)]
pub struct PublisherHandle(pub i64);

impl PublisherHandle {
    /// Whether there is a handle to release.
    pub fn is_open(&self) -> (open: bool)
        ensures
            open == (self.0 != 0),
    {
        self.0 != 0
    }
}

/// How a wait over all channels ended.
#[derive(Debug, Clone, Copy, PartialEq, Eq, Structural)]
pub enum WaitResult {
    /// Some channel has events.
    EventsAvailable,
    /// Nothing happened in time.
    Timeout,
    /// A stop was requested.
    Shutdown,
}

/// The result of a wait on the shutdown signal followed by the channels' signals.
/// The shutdown signal comes first, so a stop wins over waiting events.
pub open spec fn wait_outcome(result: u32, channels: nat) -> WaitResult {
    if result == WAIT_TIMEOUT {
        WaitResult::Timeout
    } else if result == WAIT_OBJECT_0 {
        WaitResult::Shutdown
    } else if result <= channels {
        WaitResult::EventsAvailable
    } else {
        WaitResult::Timeout
    }
}

// ---------------------------------------------------------------------------
// The conversation
// ---------------------------------------------------------------------------
/// A system call to make.
#[derive(Debug, PartialEq, Eq)]
pub enum Request {
    /// Subscribe to a channel. Answered by `subscribed` or `subscribe_failed`.
    Subscribe { channel: usize, query: String, use_bookmark: bool, flags: u32 },
    /// Read up to `size` events. Answered by `read` or `read_failed`.
    ReadBatch { channel: usize, handle: i64, size: usize },
    /// Render an event as XML. Answered by `rendered` or `render_failed`.
    Render { handle: i64 },
    /// Resolve an event's names and build it. Answered by `resolved`.
    Resolve { handle: i64 },
    /// Move a channel's bookmark to an event. Answered by `bookmarked`.
    UpdateBookmark { channel: usize, handle: i64 },
    /// Nothing: the pull is over.
    Done,
}

/// The contents of a request.
#[verifier::ext_equal]
pub enum RequestView {
    Subscribe { channel: usize, query: Seq<char>, use_bookmark: bool, flags: u32 },
    ReadBatch { channel: usize, handle: i64, size: usize },
    Render { handle: i64 },
    Resolve { handle: i64 },
    UpdateBookmark { channel: usize, handle: i64 },
    Done,
}

impl View for Request {
    type V = RequestView;

    open spec fn view(&self) -> RequestView {
        match *self {
            Request::Subscribe { channel, query, use_bookmark, flags } => RequestView::Subscribe {
                channel,
                query: query@,
                use_bookmark,
                flags,
            },
            Request::ReadBatch { channel, handle, size } => RequestView::ReadBatch {
                channel,
                handle,
                size,
            },
            Request::Render { handle } => RequestView::Render { handle },
            Request::Resolve { handle } => RequestView::Resolve { handle },
            Request::UpdateBookmark { channel, handle } => RequestView::UpdateBookmark {
                channel,
                handle,
            },
            Request::Done => RequestView::Done,
        }
    }
}

/// A subscribe in progress.
#[derive(Debug, Clone, Copy, PartialEq, Eq, Structural)]
pub struct Pending {
    pub kind: RebuildKind,
    pub cause: Cause,
    /// Whose query is being tried.
    pub origin: QueryOrigin,
    /// Whether a rejection is followed by the base query.
    pub falls_back: bool,
    pub use_bookmark: bool,
    pub flags: u32,
}

/// What a bookmark update is for.
#[derive(Debug, Clone, Copy, PartialEq, Eq, Structural)]
pub enum BookmarkUse {
    /// To get past an event that could not be rendered.
    RenderFailed,
    /// To get past the record that a poison escape withholds.
    Poison { record_id: u64 },
    /// To record that an event is about to be sent.
    Deliver,
}

/// The answer that is awaited.
#[derive(Debug, Clone, Copy, PartialEq, Eq, Structural)]
pub enum Phase {
    Idle,
    Subscribing(Pending),
    Reading(usize),
    Rendering,
    Resolving,
    Bookmarking(BookmarkUse),
}

/// Where a pull stands.
#[derive(Debug, Clone, Copy, PartialEq, Eq, Structural)]
pub struct Progress {
    pub phase: Phase,
    /// The first subscriptions are being opened; nothing is read.
    pub starting: bool,
    /// Events that the pull may deliver.
    pub max_events: usize,
    /// Refresh record counts of channels that had nothing.
    pub update_records_for_empty_channels: bool,
    /// Events that one channel may deliver.
    pub per_channel_budget: usize,
    /// The channel that the pull started with.
    pub start: usize,
    /// Channels done with.
    pub visited: usize,
    /// Events delivered.
    pub delivered: usize,
    /// When the visit of the current channel began.
    pub now: Tick,
    /// Events that the current channel may deliver.
    pub channel_limit: usize,
    /// Events that it has delivered.
    pub channel_count: usize,
    /// Whether there is nothing more to read on it.
    pub channel_drained: bool,
    /// Whether its bookmark could not be updated.
    pub bookmark_failed: bool,
    /// The event in hand, by its position in the batch.
    pub index: usize,
}

/// The pull-model subscription to all configured channels.
#[derive(Debug)]
pub struct EventLogSubscription {
    pub channels: Vec<ChannelSubscription>,
    pub only_event_ids: Option<Vec<u32>>,
    pub ignore_event_ids: Vec<u32>,
    pub batch_size: u32,
    /// How often each subscription is rebuilt from its bookmark.
    pub refresh_interval: Span,
    /// Rotates the first channel from pull to pull.
    pub round_robin_index: usize,
    pub progress: Progress,
    /// Event handles of the batch in hand.
    pub handles: Vec<i64>,
}

/// The contents of a subscription.
#[verifier::ext_equal]
pub struct PullView {
    pub channels: Seq<crate::channel::ChannelView>,
    pub only_event_ids: Option<Seq<u32>>,
    pub ignore_event_ids: Seq<u32>,
    pub batch_size: u32,
    pub refresh_nanos: nat,
    pub round_robin_index: usize,
    pub progress: Progress,
    pub handles: Seq<i64>,
}

impl View for EventLogSubscription {
    type V = PullView;

    open spec fn view(&self) -> PullView {
        PullView {
            channels: self.channels@.map_values(|c: ChannelSubscription| c@),
            only_event_ids: match self.only_event_ids {
                Some(ids) => Some(ids@),
                None => None,
            },
            ignore_event_ids: self.ignore_event_ids@,
            batch_size: self.batch_size,
            refresh_nanos: self.refresh_interval@,
            round_robin_index: self.round_robin_index,
            progress: self.progress,
            handles: self.handles@,
        }
    }
}

/// What an answer leads to: the new state, what to do, and what to ask next.
#[verifier::ext_equal]
pub struct Step {
    pub next: PullView,
    pub effects: Seq<Effect>,
    pub request: RequestView,
}

impl Step {
    /// This step with other things to do first.
    pub open spec fn after(self, effects: Seq<Effect>) -> Step {
        Step { effects: effects + self.effects, ..self }
    }
}

/// Closing event handles. A null handle holds nothing to close.
pub open spec fn close_events(handles: Seq<i64>) -> Seq<Effect>
    decreases handles.len(),
{
    if handles.len() == 0 {
        Seq::empty()
    } else {
        close_events(handles.drop_last()) + close_event(handles.last())
    }
}

/// Closing one event handle.
pub open spec fn close_event(handle: i64) -> Seq<Effect> {
    if handle != 0 {
        seq![Effect::CloseEvent(handle)]
    } else {
        Seq::empty()
    }
}

/// The number of handles as a 32-bit count.
pub open spec fn handle_count(handles: Seq<i64>) -> u32 {
    if handles.len() <= u32::MAX {
        handles.len() as u32
    } else {
        u32::MAX
    }
}

pub open spec fn smaller(a: int, b: int) -> int {
    if a <= b {
        a
    } else {
        b
    }
}

pub open spec fn larger(a: int, b: int) -> int {
    if a >= b {
        a
    } else {
        b
    }
}

impl PullView {
    /// The number of channels.
    pub open spec fn count(self) -> int {
        self.channels.len() as int
    }

    /// Whether every channel has been visited.
    pub open spec fn past_end(self) -> bool {
        self.progress.visited >= self.count() || self.progress.visited == usize::MAX
    }

    /// The position of the current channel.
    pub open spec fn at(self) -> usize {
        ((self.progress.start + self.progress.visited) % self.count()) as usize
    }

    /// The current channel.
    pub open spec fn current(self) -> crate::channel::ChannelView {
        self.channels[self.at() as int]
    }

    /// The current channel replaced.
    pub open spec fn with_current(self, channel: crate::channel::ChannelView) -> PullView {
        PullView { channels: self.channels.update(self.at() as int, channel), ..self }
    }

    /// The progress replaced.
    pub open spec fn with_progress(self, progress: Progress) -> PullView {
        PullView { progress, ..self }
    }

    /// Another phase.
    pub open spec fn in_phase(self, phase: Phase) -> PullView {
        self.with_progress(Progress { phase, ..self.progress })
    }

    /// The current channel left for the next one.
    pub open spec fn moved_on(self) -> PullView {
        self.with_progress(
            Progress {
                visited: (self.progress.visited + 1) as usize,
                phase: Phase::Idle,
                ..self.progress
            },
        )
    }

    /// The current channel with nothing more to read.
    pub open spec fn drained(self) -> PullView {
        self.with_progress(Progress { channel_drained: true, ..self.progress })
    }

    /// The pull over.
    pub open spec fn done(self) -> Step {
        Step {
            next: self.in_phase(Phase::Idle),
            effects: Seq::empty(),
            request: RequestView::Done,
        }
    }

    /// Events that the next channel may deliver.
    pub open spec fn next_limit(self) -> int {
        smaller(
            self.progress.per_channel_budget as int,
            larger(self.progress.max_events - self.progress.delivered, 0),
        )
    }

    /// The current channel's subscription is being rebuilt.
    pub open spec fn subscribe(self, kind: RebuildKind, cause: Cause) -> Step {
        let attempt = self.current().rebuild_attempt();
        Step {
            next: self.with_current(self.current().rebuilding()).in_phase(
                Phase::Subscribing(
                    Pending {
                        kind,
                        cause,
                        origin: attempt.origin,
                        falls_back: attempt.falls_back,
                        use_bookmark: attempt.use_bookmark,
                        flags: attempt.flags,
                    },
                ),
            ),
            effects: Seq::empty(),
            request: RequestView::Subscribe {
                channel: self.at(),
                query: attempt.query,
                use_bookmark: attempt.use_bookmark,
                flags: attempt.flags,
            },
        }
    }

    /// The visit of the current channel begun: its share fixed, nothing read.
    pub open spec fn entered(self, now: Tick) -> PullView {
        self.with_progress(
            Progress {
                now,
                channel_limit: self.next_limit() as usize,
                channel_count: 0,
                channel_drained: false,
                bookmark_failed: false,
                phase: Phase::Idle,
                ..self.progress
            },
        )
    }

    /// The current channel with its periodic refresh started: the next one is a
    /// full interval away, and a skipped channel gets another chance.
    pub open spec fn refreshing(self) -> crate::channel::ChannelView {
        self.current().refreshed(
            Deadline { nanos: (self.progress.now.nanos + self.refresh_nanos) as u128 },
        )
    }

    /// Go to the next channel that there is something to do for.
    ///
    /// The signal of a channel is reset before anything else is done for it: a
    /// signal raised during the drain then survives it.
    #[verifier::opaque]
    pub open spec fn visit(self, now: Tick) -> Step
        decreases self.count() - self.progress.visited, 3int,
    {
        if self.past_end() {
            self.done()
        } else if self.progress.starting {
            self.subscribe(RebuildKind::FromDead, Cause::Startup)
        } else if self.next_limit() <= 0 {
            self.done()
        } else {
            let entered = self.entered(now);
            let reset = seq![Effect::ResetSignal(self.at())];
            let state = entered.current().state;
            if now.nanos >= state.next_refresh.nanos {
                let kind = if state.subscription_handle is Some {
                    RebuildKind::Proactive
                } else {
                    RebuildKind::FromDead
                };
                entered.with_current(entered.refreshing()).subscribe(
                    kind,
                    Cause::PeriodicRefresh,
                ).after(reset)
            } else {
                entered.gate(now).after(reset)
            }
        }
    }

    /// A channel that is down waits out its backoff; a skipped one waits for the
    /// refresh; a live one is read.
    #[verifier::opaque]
    pub open spec fn gate(self, now: Tick) -> Step
        decreases self.count() - self.progress.visited, 2int,
    {
        let state = self.current().state;
        if self.past_end() {
            self.done()
        } else if state.live() {
            self.drain(now)
        } else if state.skipped_this_generation is Some || (state.retry_at is Some
            && self.progress.now.nanos < state.retry_at->0.nanos) {
            self.moved_on().visit(now)
        } else {
            self.subscribe(RebuildKind::FromDead, Cause::Retry)
        }
    }

    /// Whether the current channel may deliver more and can be read.
    pub open spec fn may_read_on(self) -> bool {
        self.progress.channel_count < self.progress.channel_limit
            && self.current().state.subscription_handle is Some
    }

    /// The number of events to ask the current channel for.
    pub open spec fn read_size(self) -> int {
        larger(
            smaller(
                self.progress.channel_limit - self.progress.channel_count,
                self.current().state.batch.current as int,
            ),
            1,
        )
    }

    /// Read on from the current channel, while it may deliver more.
    #[verifier::opaque]
    pub open spec fn drain(self, now: Tick) -> Step
        decreases self.count() - self.progress.visited, 1int,
    {
        if !self.may_read_on() {
            self.finish(now)
        } else {
            let size = self.read_size() as usize;
            Step {
                next: self.in_phase(Phase::Reading(size)),
                effects: Seq::empty(),
                request: RequestView::ReadBatch {
                    channel: self.at(),
                    handle: self.current().state.subscription_handle->0,
                    size,
                },
            }
        }
    }

    /// What leaving the current channel takes: its record count refreshed where
    /// it was read to the end, its signal set again where it was not.
    pub open spec fn leave_effects(self) -> Seq<Effect> {
        if self.progress.channel_drained && !self.progress.bookmark_failed {
            if self.progress.update_records_for_empty_channels || self.progress.channel_count > 0 {
                seq![Effect::UpdateRecords(self.at())]
            } else {
                Seq::empty()
            }
        } else {
            seq![Effect::SetSignal(self.at())]
        }
    }

    /// Leave the current channel.
    #[verifier::opaque]
    pub open spec fn finish(self, now: Tick) -> Step
        decreases self.count() - self.progress.visited, 0int,
    {
        if self.past_end() {
            self.done()
        } else {
            self.moved_on().visit(now).after(self.leave_effects())
        }
    }

    /// Go on after a rebuild of the current channel.
    pub open spec fn after_rebuild(self, cause: Cause, ok: bool, now: Tick) -> Step {
        match cause {
            Cause::PeriodicRefresh => self.gate(now),
            Cause::BatchReduction => self.drained().finish(now),
            Cause::Retry => if ok {
                self.drain(now)
            } else {
                self.moved_on().visit(now)
            },
            _ => self.moved_on().visit(now),
        }
    }

    /// The subscribe in progress.
    pub open spec fn pending(self) -> Pending {
        self.progress.phase->Subscribing_0
    }

    /// A subscribe succeeded.
    pub open spec fn on_subscribed(self, handle: i64, now: Tick) -> Step {
        let pending = self.pending();
        let swapped = self.current().resubscribed(
            self.at(),
            handle,
            pending.origin,
            pending.cause,
        );
        self.with_current(swapped.0).after_rebuild(pending.cause, true, now).after(swapped.1)
    }

    /// A subscribe failed. A rejected composed query is retried once with the
    /// base query alone.
    pub open spec fn on_subscribe_failed(self, code: u32, now: Tick, utc: Timestamp) -> Step {
        let pending = self.pending();
        if pending.falls_back {
            let attempt = self.current().factory.base_attempt(pending.use_bookmark, pending.flags);
            Step {
                next: self.in_phase(
                    Phase::Subscribing(
                        Pending { origin: attempt.origin, falls_back: false, ..pending },
                    ),
                ),
                effects: seq![Effect::Notify(self.at(), Notice::QueryRejected { code })],
                request: RequestView::Subscribe {
                    channel: self.at(),
                    query: attempt.query,
                    use_bookmark: attempt.use_bookmark,
                    flags: attempt.flags,
                },
            }
        } else {
            let failed = self.current().rebuild_failed(
                self.at(),
                code,
                pending.origin,
                pending.kind,
                pending.cause,
                now,
                utc,
            );
            self.with_current(failed.0).after_rebuild(pending.cause, false, now).after(failed.1)
        }
    }

    /// The handle of the event in hand.
    pub open spec fn event(self) -> i64 {
        self.handles[self.progress.index as int]
    }

    /// A read brought events, or none.
    pub open spec fn on_read(self, handles: Seq<i64>, now: Tick, utc: Timestamp) -> Step {
        if handles.len() == 0 {
            self.with_current(self.current().drained(utc)).drained().finish(now)
        } else {
            Step {
                next: PullView { handles, ..self }.with_progress(
                    Progress { index: 0, phase: Phase::Rendering, ..self.progress },
                ),
                effects: Seq::empty(),
                request: RequestView::Render { handle: handles[0] },
            }
        }
    }

    /// A read failed, possibly with handles returned beside the error. Those are
    /// closed first.
    pub open spec fn on_read_failed(
        self,
        code: u32,
        handles: Seq<i64>,
        now: Tick,
        utc: Timestamp,
    ) -> Step {
        let channel = self.current();
        let at = self.at();
        let close = close_events(handles);
        match crate::win32_errors::drain_outcome(
            code,
            handle_count(handles),
            channel.state.active_query_origin,
        ) {
            DrainOutcome::Drained => self.with_current(
                if handles.len() == 0 {
                    channel.drained(utc)
                } else {
                    channel
                },
            ).drained().finish(now).after(close),
            DrainOutcome::SkipChannel(reason) => {
                let skipped = channel.skipped(at, reason, code);
                self.with_current(skipped.0).drained().finish(now).after(close + skipped.1)
            },
            DrainOutcome::ReduceBatch => {
                let reduced = channel.reduced(at, code);
                self.with_current(reduced.0).subscribe(
                    RebuildKind::Proactive,
                    Cause::BatchReduction,
                ).after(close + reduced.1)
            },
            DrainOutcome::Rebuild => {
                let down = channel.torn_down(at, code, now, utc);
                self.with_current(down.0).drained().finish(now).after(close + down.1)
            },
        }
    }

    /// The event in hand is done with: close it and take the next one, or end
    /// the batch.
    pub open spec fn next_event(self, now: Tick) -> Step {
        let next = self.progress.index + 1;
        if next < self.handles.len() {
            Step {
                next: self.with_progress(
                    Progress {
                        index: next as usize,
                        phase: Phase::Rendering,
                        ..self.progress
                    },
                ),
                effects: close_event(self.event()),
                request: RequestView::Render { handle: self.handles[next as int] },
            }
        } else {
            self.with_current(self.current().read_cleanly()).in_phase(Phase::Idle).drain(
                now,
            ).after(close_event(self.event()))
        }
    }

    /// Whether events with this id are dropped unseen.
    pub open spec fn filters_out(self, event_id: u32) -> bool {
        (self.only_event_ids is Some && !self.only_event_ids->0.contains(event_id))
            || self.ignore_event_ids.contains(event_id)
    }

    /// Ask for the bookmark to be moved to the event in hand.
    pub open spec fn update_bookmark(self, purpose: BookmarkUse) -> Step {
        Step {
            next: self.in_phase(Phase::Bookmarking(purpose)),
            effects: Seq::empty(),
            request: RequestView::UpdateBookmark { channel: self.at(), handle: self.event() },
        }
    }

    /// The event in hand was rendered.
    pub open spec fn on_rendered(self, event_id: u32, now: Tick) -> Step {
        if self.filters_out(event_id) {
            self.next_event(now)
        } else {
            Step {
                next: self.in_phase(Phase::Resolving),
                effects: Seq::empty(),
                request: RequestView::Resolve { handle: self.event() },
            }
        }
    }

    /// The event in hand was resolved and, where it parses, built. It is sent
    /// unless the one-shot skip is pending; nothing about the event takes part
    /// in that.
    pub open spec fn on_resolved(
        self,
        rendered_delivery: bool,
        table_misses: u32,
        event: Option<EventFacts>,
        now: Tick,
    ) -> Step {
        let channel = if rendered_delivery && !self.current().state.rendered_delivery_seen {
            self.current().forwarded()
        } else {
            self.current()
        };
        match event {
            None => self.with_current(channel).next_event(now),
            Some(facts) => {
                let counted = channel.names_missed(table_misses);
                if counted.state.resume.skip_next_record {
                    self.with_current(
                        counted.passed_poison(facts.time, facts.record_id),
                    ).update_bookmark(BookmarkUse::Poison { record_id: facts.record_id })
                } else {
                    self.with_current(counted.took_in(facts.time, facts.record_id)).update_bookmark(
                        BookmarkUse::Deliver,
                    ).after(counted.gap_effects(self.at(), facts.record_id))
                }
            },
        }
    }

    /// One more event delivered.
    pub open spec fn counted(self) -> PullView {
        self.with_progress(
            Progress {
                delivered: (self.progress.delivered + 1) as usize,
                channel_count: (self.progress.channel_count + 1) as usize,
                ..self.progress
            },
        )
    }

    /// The bookmark was updated for the event in hand, or could not be. An event
    /// whose position cannot be recorded is not sent, and ends the drain: its
    /// handle and those after it are closed.
    pub open spec fn on_bookmarked(self, ok: bool, now: Tick) -> Step {
        let at = self.at();
        let marked = self.with_current(self.current().bookmarked(ok));
        match self.progress.phase->Bookmarking_0 {
            BookmarkUse::RenderFailed => marked.next_event(now).after(
                seq![
                    Effect::Notify(
                        at,
                        Notice::RenderFailed {
                            index: self.progress.index,
                            bookmark_advanced: ok,
                        },
                    ),
                ],
            ),
            BookmarkUse::Poison { record_id } => marked.next_event(now).after(
                seq![
                    Effect::Notify(
                        at,
                        Notice::PoisonRecordSkipped {
                            record_id,
                            rung: self.current().state.resume.rung,
                        },
                    ),
                ],
            ),
            BookmarkUse::Deliver => if ok {
                marked.counted().next_event(now).after(seq![Effect::Send])
            } else {
                marked.with_progress(
                    Progress { bookmark_failed: true, phase: Phase::Idle, ..self.progress },
                ).finish(now).after(
                    seq![Effect::Notify(at, Notice::BookmarkFailed)] + close_events(
                        self.handles.skip(self.progress.index as int),
                    ),
                )
            },
        }
    }

    /// A pull begun.
    pub open spec fn begun(
        self,
        max_events: usize,
        update_records_for_empty_channels: bool,
    ) -> PullView {
        PullView {
            round_robin_index: if self.round_robin_index < usize::MAX {
                (self.round_robin_index + 1) as usize
            } else {
                0
            },
            progress: Progress {
                phase: Phase::Idle,
                starting: false,
                max_events,
                update_records_for_empty_channels,
                per_channel_budget: larger(
                    max_events as int / self.count(),
                    MIN_PER_CHANNEL_BUDGET as int,
                ) as usize,
                start: (self.round_robin_index as int % self.count()) as usize,
                visited: 0,
                delivered: 0,
                ..self.progress
            },
            handles: Seq::empty(),
            ..self
        }
    }

    /// Whether an event is in hand.
    pub open spec fn in_batch(self) -> bool {
        self.progress.phase == Phase::Rendering || self.progress.phase == Phase::Resolving
            || self.progress.phase is Bookmarking
    }

    /// What holds whenever the next channel is chosen.
    pub open spec fn between_channels(self) -> bool {
        let p = self.progress;
        &&& 1 <= self.count() <= usize::MAX
        &&& p.start < self.count()
        &&& p.visited <= self.count()
        &&& self.refresh_nanos <= crate::time::MAX_SPAN_NANOS
        &&& !p.starting ==> p.delivered <= p.max_events
    }

    /// What holds while a channel is visited: what it has delivered and what it
    /// still may stay within the pull's bounds.
    pub open spec fn on_channel(self) -> bool {
        let p = self.progress;
        &&& self.between_channels()
        &&& p.visited < self.count()
        &&& !p.starting ==> {
            &&& p.channel_count <= p.channel_limit
            &&& p.channel_count <= p.delivered
            &&& p.delivered - p.channel_count + p.channel_limit <= p.max_events
        }
    }

    /// What holds of every subscription between calls.
    pub open spec fn wf(self) -> bool {
        let p = self.progress;
        &&& self.between_channels()
        &&& p.phase != Phase::Idle ==> self.on_channel()
        &&& p.starting ==> p.phase == Phase::Idle || p.phase is Subscribing
        &&& p.phase matches Phase::Subscribing(pending) ==> p.starting == (pending.cause
            == Cause::Startup)
        &&& p.phase matches Phase::Reading(size) ==> 1 <= size <= p.channel_limit
            - p.channel_count
        &&& self.in_batch() ==> {
            &&& p.index < self.handles.len() <= usize::MAX
            &&& self.handles.len() - p.index <= p.channel_limit - p.channel_count
        }
    }
}

impl EventLogSubscription {
    /// The position of the current channel.
    fn current_index(&self) -> (at: usize)
        requires
            self@.between_channels(),
            self@.progress.visited < self@.count(),
        ensures
            at == self@.at(),
            at < self.channels@.len(),
    {
        let n: usize = self.channels.len();
        let start: usize = self.progress.start;
        let visited: usize = self.progress.visited;
        if visited < n - start {
            assert((start + visited) % (n as int) == start + visited) by (nonlinear_arith)
                requires
                    0 <= start + visited < n,
            ;
            start + visited
        } else {
            let at: usize = visited - (n - start);
            assert((start + visited) % (n as int) == at) by (nonlinear_arith)
                requires
                    start + visited == at + n,
                    0 <= at < n,
            ;
            at
        }
    }

    /// Rebuild the current channel's subscription.
    fn subscribe(&mut self, kind: RebuildKind, cause: Cause) -> (request: Request)
        requires
            old(self)@.on_channel(),
            old(self).progress.starting == (cause == Cause::Startup),
        ensures
            final(self)@ == old(self)@.subscribe(kind, cause).next,
            request@ == old(self)@.subscribe(kind, cause).request,
            final(self)@.wf(),
    {
        let ghost before = self@;
        let at: usize = self.current_index();
        let attempt: SubscribeAttempt = self.channels[at].begin_rebuild();
        self.progress.phase = Phase::Subscribing(
            Pending {
                kind,
                cause,
                origin: attempt.origin,
                falls_back: attempt.falls_back,
                use_bookmark: attempt.use_bookmark,
                flags: attempt.flags,
            },
        );
        assert(self@.channels =~= before.subscribe(kind, cause).next.channels);
        Request::Subscribe {
            channel: at,
            query: attempt.query,
            use_bookmark: attempt.use_bookmark,
            flags: attempt.flags,
        }
    }

    fn done(&mut self) -> (request: Request)
        requires
            old(self)@.between_channels(),
        ensures
            final(self)@ == old(self)@.done().next,
            request@ == RequestView::Done,
            final(self)@.wf(),
    {
        self.progress.phase = Phase::Idle;
        Request::Done
    }

    /// Go to the next channel that there is something to do for.
    fn visit(&mut self, now: Tick, effects: &mut Vec<Effect>) -> (request: Request)
        requires
            old(self)@.between_channels(),
        ensures
            final(self)@ == old(self)@.visit(now).next,
            final(effects)@ == old(effects)@ + old(self)@.visit(now).effects,
            request@ == old(self)@.visit(now).request,
            final(self)@.wf(),
        decreases old(self)@.count() - old(self).progress.visited, 3int,
    {
        reveal(PullView::visit);
        reveal(PullView::gate);
        let ghost start = self@;
        let ghost before = effects@;
        if self.progress.visited >= self.channels.len() {
            assert(effects@ =~= before + start.visit(now).effects);
            return self.done();
        }
        if self.progress.starting {
            assert(effects@ =~= before + start.visit(now).effects);
            return self.subscribe(RebuildKind::FromDead, Cause::Startup);
        }
        let left: usize = self.progress.max_events - self.progress.delivered;
        let limit: usize = if self.progress.per_channel_budget <= left {
            self.progress.per_channel_budget
        } else {
            left
        };
        if limit == 0 {
            assert(effects@ =~= before + start.visit(now).effects);
            return self.done();
        }
        let at: usize = self.current_index();
        effects.push(Effect::ResetSignal(at));
        self.progress.now = now;
        self.progress.channel_limit = limit;
        self.progress.channel_count = 0;
        self.progress.channel_drained = false;
        self.progress.bookmark_failed = false;
        self.progress.phase = Phase::Idle;
        let ghost entered = self@;
        assert(entered =~= start.entered(now));
        assert(entered.at() == start.at());
        let state = self.channels[at].state;
        assert(state == entered.current().state);
        if state.next_refresh.reached(now) {
            let kind = if state.subscription_handle.is_some() {
                RebuildKind::Proactive
            } else {
                RebuildKind::FromDead
            };
            let next_refresh: Deadline = now.plus(self.refresh_interval);
            self.channels[at].begin_refresh(next_refresh);
            assert(self@ =~= entered.with_current(entered.refreshing()));
            let request = self.subscribe(kind, Cause::PeriodicRefresh);
            assert(effects@ =~= before + start.visit(now).effects);
            request
        } else {
            let request = self.gate(now, effects);
            assert(effects@ =~= before + start.visit(now).effects);
            request
        }
    }

    /// Decide whether the current channel is read, rebuilt or left waiting.
    fn gate(&mut self, now: Tick, effects: &mut Vec<Effect>) -> (request: Request)
        requires
            old(self)@.on_channel(),
            !old(self).progress.starting,
        ensures
            final(self)@ == old(self)@.gate(now).next,
            final(effects)@ == old(effects)@ + old(self)@.gate(now).effects,
            request@ == old(self)@.gate(now).request,
            final(self)@.wf(),
        decreases old(self)@.count() - old(self).progress.visited, 2int,
    {
        reveal(PullView::gate);
        reveal(PullView::drain);
        reveal(PullView::visit);
        let ghost start = self@;
        let ghost before = effects@;
        let at: usize = self.current_index();
        let state = self.channels[at].state;
        if self.channels[at].is_live() {
            return self.drain(now, effects);
        }
        let waits = match state.retry_at {
            Some(deadline) => !deadline.reached(self.progress.now),
            None => false,
        };
        if state.skipped_this_generation.is_some() || waits {
            self.move_on();
            self.visit(now, effects)
        } else {
            let request = self.subscribe(RebuildKind::FromDead, Cause::Retry);
            assert(effects@ =~= before + start.gate(now).effects);
            request
        }
    }

    /// Leave the current channel for the next one.
    fn move_on(&mut self)
        requires
            old(self)@.between_channels(),
            old(self)@.progress.visited < old(self)@.count(),
        ensures
            final(self)@ == old(self)@.moved_on(),
            final(self)@.between_channels(),
    {
        self.progress.visited = self.progress.visited + 1;
        self.progress.phase = Phase::Idle;
    }

    /// Read on from the current channel, while it may deliver more.
    fn drain(&mut self, now: Tick, effects: &mut Vec<Effect>) -> (request: Request)
        requires
            old(self)@.on_channel(),
            !old(self).progress.starting,
        ensures
            final(self)@ == old(self)@.drain(now).next,
            final(effects)@ == old(effects)@ + old(self)@.drain(now).effects,
            request@ == old(self)@.drain(now).request,
            final(self)@.wf(),
        decreases old(self)@.count() - old(self).progress.visited, 1int,
    {
        reveal(PullView::drain);
        reveal(PullView::finish);
        let ghost start = self@;
        let ghost before = effects@;
        if self.progress.channel_count >= self.progress.channel_limit {
            return self.finish(now, effects);
        }
        let at: usize = self.current_index();
        let handle: i64 = match self.channels[at].state.subscription_handle {
            Some(handle) => handle,
            None => {
                return self.finish(now, effects);
            },
        };
        let left: usize = self.progress.channel_limit - self.progress.channel_count;
        let batch: usize = self.channels[at].state.batch.current();
        let wanted: usize = if left <= batch {
            left
        } else {
            batch
        };
        let size: usize = if wanted >= 1 {
            wanted
        } else {
            1
        };
        self.progress.phase = Phase::Reading(size);
        assert(effects@ =~= before + start.drain(now).effects);
        Request::ReadBatch { channel: at, handle, size }
    }

    /// Leave the current channel, with its signal set again where it was not
    /// read to the end.
    fn finish(&mut self, now: Tick, effects: &mut Vec<Effect>) -> (request: Request)
        requires
            old(self)@.on_channel(),
            !old(self).progress.starting,
        ensures
            final(self)@ == old(self)@.finish(now).next,
            final(effects)@ == old(effects)@ + old(self)@.finish(now).effects,
            request@ == old(self)@.finish(now).request,
            final(self)@.wf(),
        decreases old(self)@.count() - old(self).progress.visited, 0int,
    {
        reveal(PullView::finish);
        reveal(PullView::visit);
        let ghost start = self@;
        let ghost before = effects@;
        let at: usize = self.current_index();
        if self.progress.channel_drained && !self.progress.bookmark_failed {
            if self.progress.update_records_for_empty_channels || self.progress.channel_count > 0 {
                effects.push(Effect::UpdateRecords(at));
            }
        } else {
            effects.push(Effect::SetSignal(at));
        }
        assert(effects@ =~= before + start.leave_effects());
        self.move_on();
        let request = self.visit(now, effects);
        assert(effects@ =~= before + start.finish(now).effects);
        request
    }

    /// Go on after a rebuild of the current channel.
    fn after_rebuild(
        &mut self,
        cause: Cause,
        ok: bool,
        now: Tick,
        effects: &mut Vec<Effect>,
    ) -> (request: Request)
        requires
            old(self)@.on_channel(),
            old(self).progress.starting == (cause == Cause::Startup),
        ensures
            final(self)@ == old(self)@.after_rebuild(cause, ok, now).next,
            final(effects)@ == old(effects)@ + old(self)@.after_rebuild(cause, ok, now).effects,
            request@ == old(self)@.after_rebuild(cause, ok, now).request,
            final(self)@.wf(),
    {
        match cause {
            Cause::PeriodicRefresh => self.gate(now, effects),
            Cause::BatchReduction => {
                self.progress.channel_drained = true;
                self.finish(now, effects)
            },
            Cause::Retry if ok => self.drain(now, effects),
            _ => {
                self.move_on();
                self.visit(now, effects)
            },
        }
    }
}

impl EventLogSubscription {
    /// A subscribe succeeded with `handle`.
    pub fn subscribed(&mut self, handle: i64, now: Tick, effects: &mut Vec<Effect>) -> (request:
        Request)
        requires
            old(self)@.wf(),
            old(self).progress.phase is Subscribing,
        ensures
            final(self)@ == old(self)@.on_subscribed(handle, now).next,
            final(effects)@ == old(effects)@ + old(self)@.on_subscribed(handle, now).effects,
            request@ == old(self)@.on_subscribed(handle, now).request,
            final(self)@.wf(),
    {
        let ghost start = self@;
        let ghost before = effects@;
        let pending = self.pending();
        let at: usize = self.current_index();
        self.channels[at].finish_rebuild(at, handle, pending.origin, pending.cause, effects);
        let ghost swapped = start.current().resubscribed(
            at,
            handle,
            pending.origin,
            pending.cause,
        );
        assert(self@ =~= start.with_current(swapped.0));
        let request = self.after_rebuild(pending.cause, true, now, effects);
        assert(effects@ =~= before + start.on_subscribed(handle, now).effects);
        request
    }

    /// The subscribe in progress.
    fn pending(&self) -> (pending: Pending)
        requires
            self.progress.phase is Subscribing,
        ensures
            pending == self@.pending(),
    {
        match self.progress.phase {
            Phase::Subscribing(pending) => pending,
            _ => Pending {
                kind: RebuildKind::FromDead,
                cause: Cause::Retry,
                origin: QueryOrigin::Operator,
                falls_back: false,
                use_bookmark: false,
                flags: 0,
            },
        }
    }

    /// A subscribe failed with `hresult`.
    pub fn subscribe_failed(
        &mut self,
        hresult: i32,
        now: Tick,
        utc: Timestamp,
        effects: &mut Vec<Effect>,
    ) -> (request: Request)
        requires
            old(self)@.wf(),
            old(self).progress.phase is Subscribing,
        ensures
            ({
                let step = old(self)@.on_subscribe_failed((hresult as u32) & 0xFFFF, now, utc);
                &&& final(self)@ == step.next
                &&& final(effects)@ == old(effects)@ + step.effects
                &&& request@ == step.request
            }),
            final(self)@.wf(),
    {
        let ghost start = self@;
        let ghost before = effects@;
        let code: u32 = win32_code(hresult);
        let pending = self.pending();
        let at: usize = self.current_index();
        if pending.falls_back {
            effects.push(Effect::Notify(at, Notice::QueryRejected { code }));
            let attempt: SubscribeAttempt = self.channels[at].factory.build_fallback(
                pending.use_bookmark,
                pending.flags,
            );
            self.progress.phase = Phase::Subscribing(
                Pending { origin: attempt.origin, falls_back: false, ..pending },
            );
            assert(effects@ =~= before + start.on_subscribe_failed(code, now, utc).effects);
            return Request::Subscribe {
                channel: at,
                query: attempt.query,
                use_bookmark: attempt.use_bookmark,
                flags: attempt.flags,
            };
        }
        self.channels[at].fail_rebuild(
            at,
            code,
            pending.origin,
            pending.kind,
            pending.cause,
            now,
            utc,
            effects,
        );
        let ghost failed = start.current().rebuild_failed(
            at,
            code,
            pending.origin,
            pending.kind,
            pending.cause,
            now,
            utc,
        );
        assert(self@ =~= start.with_current(failed.0));
        let request = self.after_rebuild(pending.cause, false, now, effects);
        assert(effects@ =~= before + start.on_subscribe_failed(code, now, utc).effects);
        request
    }

    /// A read succeeded with these event handles, possibly none.
    pub fn read(
        &mut self,
        handles: Vec<i64>,
        now: Tick,
        utc: Timestamp,
        effects: &mut Vec<Effect>,
    ) -> (request: Request)
        requires
            old(self)@.wf(),
            old(self).progress.phase matches Phase::Reading(size) && handles@.len() <= size,
        ensures
            final(self)@ == old(self)@.on_read(handles@, now, utc).next,
            final(effects)@ == old(effects)@ + old(self)@.on_read(handles@, now, utc).effects,
            request@ == old(self)@.on_read(handles@, now, utc).request,
            final(self)@.wf(),
    {
        let ghost start = self@;
        let ghost before = effects@;
        if handles.len() == 0 {
            let at: usize = self.current_index();
            self.channels[at].note_drained_to_empty(utc);
            self.progress.channel_drained = true;
            assert(self@ =~= start.with_current(start.current().drained(utc)).drained());
            return self.finish(now, effects);
        }
        let first: i64 = handles[0];
        self.handles = handles;
        self.progress.index = 0;
        self.progress.phase = Phase::Rendering;
        assert(effects@ =~= before + start.on_read(handles@, now, utc).effects);
        Request::Render { handle: first }
    }

    /// Close event handles from a position on.
    fn close_from(handles: &Vec<i64>, from: usize, effects: &mut Vec<Effect>)
        requires
            from <= handles@.len(),
        ensures
            final(effects)@ == old(effects)@ + close_events(handles@.skip(from as int)),
    {
        let ghost before = effects@;
        let ghost rest = handles@.skip(from as int);
        let mut i: usize = from;
        assert(effects@ =~= before + close_events(rest.take(0)));
        while i < handles.len()
            invariant
                from <= i <= handles@.len(),
                rest == handles@.skip(from as int),
                effects@ == before + close_events(rest.take(i - from)),
            decreases handles.len() - i,
        {
            let handle: i64 = handles[i];
            if handle != 0 {
                effects.push(Effect::CloseEvent(handle));
            }
            proof {
                let next = rest.take(i + 1 - from);
                assert(next.drop_last() =~= rest.take(i - from));
                assert(next.last() == handle);
                assert(effects@ =~= before + close_events(next));
            }
            i += 1;
        }
        assert(rest.take(i - from) =~= rest);
    }

    /// A read failed with `hresult`, with these event handles returned beside the
    /// error.
    #[verifier::spinoff_prover]
    #[verifier::rlimit(60)]
    pub fn read_failed(
        &mut self,
        hresult: i32,
        handles: &Vec<i64>,
        now: Tick,
        utc: Timestamp,
        effects: &mut Vec<Effect>,
    ) -> (request: Request)
        requires
            old(self)@.wf(),
            old(self).progress.phase is Reading,
        ensures
            ({
                let step = old(self)@.on_read_failed(
                    (hresult as u32) & 0xFFFF,
                    handles@,
                    now,
                    utc,
                );
                &&& final(self)@ == step.next
                &&& final(effects)@ == old(effects)@ + step.effects
                &&& request@ == step.request
            }),
            final(self)@.wf(),
    {
        let ghost start = self@;
        let ghost before = effects@;
        let code: u32 = win32_code(hresult);
        let at: usize = self.current_index();
        let returned: u32 = if handles.len() <= u32::MAX as usize {
            handles.len() as u32
        } else {
            u32::MAX
        };
        let outcome = classify_evt_next(
            code,
            returned,
            self.channels[at].state.active_query_origin,
        );
        assert(handles@.skip(0) =~= handles@);
        match outcome {
            DrainOutcome::Drained => {
                EventLogSubscription::close_from(handles, 0, effects);
                if handles.len() == 0 {
                    self.channels[at].note_drained_to_empty(utc);
                }
                self.progress.channel_drained = true;
                assert(self@.channels =~= start.with_current(
                    if handles@.len() == 0 {
                        start.current().drained(utc)
                    } else {
                        start.current()
                    },
                ).channels);
                let request = self.finish(now, effects);
                assert(effects@ =~= before + start.on_read_failed(
                    code,
                    handles@,
                    now,
                    utc,
                ).effects);
                request
            },
            DrainOutcome::SkipChannel(reason) => {
                EventLogSubscription::close_from(handles, 0, effects);
                self.channels[at].skip_channel(at, reason, code, effects);
                self.progress.channel_drained = true;
                let ghost skipped = start.current().skipped(at, reason, code);
                assert(self@ =~= start.with_current(skipped.0).drained());
                let request = self.finish(now, effects);
                assert(effects@ =~= before + start.on_read_failed(
                    code,
                    handles@,
                    now,
                    utc,
                ).effects);
                request
            },
            DrainOutcome::ReduceBatch => {
                EventLogSubscription::close_from(handles, 0, effects);
                self.channels[at].reduce_batch(at, code, effects);
                let ghost reduced = start.current().reduced(at, code);
                assert(self@ =~= start.with_current(reduced.0));
                let request = self.subscribe(RebuildKind::Proactive, Cause::BatchReduction);
                assert(effects@ =~= before + start.on_read_failed(
                    code,
                    handles@,
                    now,
                    utc,
                ).effects);
                request
            },
            DrainOutcome::Rebuild => {
                EventLogSubscription::close_from(handles, 0, effects);
                self.channels[at].tear_down(at, code, now, utc, effects);
                self.progress.channel_drained = true;
                let ghost down = start.current().torn_down(at, code, now, utc);
                assert(self@ =~= start.with_current(down.0).drained());
                let request = self.finish(now, effects);
                assert(effects@ =~= before + start.on_read_failed(
                    code,
                    handles@,
                    now,
                    utc,
                ).effects);
                request
            },
        }
    }

    /// Close the event in hand and take the next one, or end the batch.
    fn next_event(&mut self, now: Tick, effects: &mut Vec<Effect>) -> (request: Request)
        requires
            old(self)@.on_channel(),
            !old(self).progress.starting,
            old(self).progress.index < old(self).handles@.len(),
            old(self).handles@.len() - old(self).progress.index - 1
                <= old(self).progress.channel_limit - old(self).progress.channel_count,
        ensures
            final(self)@ == old(self)@.next_event(now).next,
            final(effects)@ == old(effects)@ + old(self)@.next_event(now).effects,
            request@ == old(self)@.next_event(now).request,
            final(self)@.wf(),
    {
        let ghost start = self@;
        let ghost before = effects@;
        let handle: i64 = self.handles[self.progress.index];
        if handle != 0 {
            effects.push(Effect::CloseEvent(handle));
        }
        assert(effects@ =~= before + close_event(handle));
        let total: usize = self.handles.len();
        let next: usize = self.progress.index + 1;
        if next < total {
            self.progress.index = next;
            self.progress.phase = Phase::Rendering;
            return Request::Render { handle: self.handles[next] };
        }
        let at: usize = self.current_index();
        self.channels[at].note_clean_batch();
        self.progress.phase = Phase::Idle;
        assert(self@ =~= start.with_current(start.current().read_cleanly()).in_phase(Phase::Idle));
        let request = self.drain(now, effects);
        assert(effects@ =~= before + start.next_event(now).effects);
        request
    }

    fn contains(ids: &Vec<u32>, id: u32) -> (found: bool)
        ensures
            found == ids@.contains(id),
    {
        let mut i: usize = 0;
        while i < ids.len()
            invariant
                i <= ids@.len(),
                forall|j: int| 0 <= j < i ==> ids@[j] != id,
            decreases ids.len() - i,
        {
            if ids[i] == id {
                return true;
            }
            i += 1;
        }
        false
    }

    /// Whether events with this id are dropped before their names are resolved.
    pub fn is_filtered_out(&self, event_id: u32) -> (filtered: bool)
        ensures
            filtered == self@.filters_out(event_id),
            forall|i: int|
                0 <= i < self.ignore_event_ids@.len() && #[trigger] self.ignore_event_ids@[i]
                    == event_id ==> filtered,
            filtered ==> (exists|i: int|
                0 <= i < self.ignore_event_ids@.len() && #[trigger] self.ignore_event_ids@[i]
                    == event_id) || self.only_event_ids is Some,
            self.only_event_ids matches Some(only) ==> (forall|i: int|
                0 <= i < only@.len() ==> #[trigger] only@[i] != event_id) ==> filtered,
    {
        if let Some(only) = &self.only_event_ids {
            if !EventLogSubscription::contains(only, event_id) {
                return true;
            }
        }
        EventLogSubscription::contains(&self.ignore_event_ids, event_id)
    }

    /// The event in hand was rendered; its XML names `event_id`.
    pub fn rendered(&mut self, event_id: u32, now: Tick, effects: &mut Vec<Effect>) -> (request:
        Request)
        requires
            old(self)@.wf(),
            old(self).progress.phase == Phase::Rendering,
        ensures
            final(self)@ == old(self)@.on_rendered(event_id, now).next,
            final(effects)@ == old(effects)@ + old(self)@.on_rendered(event_id, now).effects,
            request@ == old(self)@.on_rendered(event_id, now).request,
            final(self)@.wf(),
    {
        let ghost start = self@;
        let ghost before = effects@;
        if self.is_filtered_out(event_id) {
            return self.next_event(now, effects);
        }
        self.progress.phase = Phase::Resolving;
        assert(effects@ =~= before + start.on_rendered(event_id, now).effects);
        Request::Resolve { handle: self.handles[self.progress.index] }
    }

    /// Ask for the bookmark to be moved to the event in hand.
    fn update_bookmark(&mut self, purpose: BookmarkUse) -> (request: Request)
        requires
            old(self)@.on_channel(),
            !old(self).progress.starting,
            old(self).progress.index < old(self).handles@.len() <= usize::MAX,
            old(self).handles@.len() - old(self).progress.index
                <= old(self).progress.channel_limit - old(self).progress.channel_count,
        ensures
            final(self)@ == old(self)@.update_bookmark(purpose).next,
            request@ == old(self)@.update_bookmark(purpose).request,
            final(self)@.wf(),
    {
        let at: usize = self.current_index();
        self.progress.phase = Phase::Bookmarking(purpose);
        Request::UpdateBookmark { channel: at, handle: self.handles[self.progress.index] }
    }

    /// The event in hand could not be rendered. One bad event costs one event:
    /// the bookmark moves past it, so that a restart does not meet it again.
    pub fn render_failed(&mut self) -> (request: Request)
        requires
            old(self)@.wf(),
            old(self).progress.phase == Phase::Rendering,
        ensures
            final(self)@ == old(self)@.update_bookmark(BookmarkUse::RenderFailed).next,
            request@ == old(self)@.update_bookmark(BookmarkUse::RenderFailed).request,
            final(self)@.wf(),
    {
        self.update_bookmark(BookmarkUse::RenderFailed)
    }

    /// The names of the event in hand were resolved, and the event was built
    /// where it parses.
    pub fn resolved(
        &mut self,
        rendered_delivery: bool,
        table_misses: u32,
        event: Option<EventFacts>,
        now: Tick,
        effects: &mut Vec<Effect>,
    ) -> (request: Request)
        requires
            old(self)@.wf(),
            old(self).progress.phase == Phase::Resolving,
        ensures
            ({
                let step = old(self)@.on_resolved(rendered_delivery, table_misses, event, now);
                &&& final(self)@ == step.next
                &&& final(effects)@ == old(effects)@ + step.effects
                &&& request@ == step.request
            }),
            final(self)@.wf(),
    {
        let ghost start = self@;
        let ghost before = effects@;
        let at: usize = self.current_index();
        if rendered_delivery && !self.channels[at].state.rendered_delivery_seen {
            self.channels[at].note_forwarded();
        }
        let ghost channel = if rendered_delivery && !start.current().state.rendered_delivery_seen {
            start.current().forwarded()
        } else {
            start.current()
        };
        assert(self@ =~= start.with_current(channel));
        match event {
            None => self.next_event(now, effects),
            Some(facts) => {
                self.channels[at].note_misses(table_misses);
                let ghost counted = channel.names_missed(table_misses);
                assert(self@ =~= start.with_current(counted));
                let withheld = self.channels[at].take_event(at, facts, effects);
                let request = if withheld {
                    assert(self@ =~= start.with_current(
                        counted.passed_poison(facts.time, facts.record_id),
                    ));
                    self.update_bookmark(BookmarkUse::Poison { record_id: facts.record_id })
                } else {
                    assert(self@ =~= start.with_current(
                        counted.took_in(facts.time, facts.record_id),
                    ));
                    self.update_bookmark(BookmarkUse::Deliver)
                };
                assert(effects@ =~= before + start.on_resolved(
                    rendered_delivery,
                    table_misses,
                    event,
                    now,
                ).effects);
                request
            },
        }
    }

    /// The bookmark was moved to the event in hand, or could not be.
    pub fn bookmarked(&mut self, ok: bool, now: Tick, effects: &mut Vec<Effect>) -> (request:
        Request)
        requires
            old(self)@.wf(),
            old(self).progress.phase is Bookmarking,
        ensures
            final(self)@ == old(self)@.on_bookmarked(ok, now).next,
            final(effects)@ == old(effects)@ + old(self)@.on_bookmarked(ok, now).effects,
            request@ == old(self)@.on_bookmarked(ok, now).request,
            final(self)@.wf(),
    {
        let ghost start = self@;
        let ghost before = effects@;
        let at: usize = self.current_index();
        self.channels[at].note_bookmark(ok);
        let ghost marked = start.with_current(start.current().bookmarked(ok));
        assert(self@ =~= marked);
        let purpose = match self.progress.phase {
            Phase::Bookmarking(purpose) => purpose,
            _ => BookmarkUse::Deliver,
        };
        match purpose {
            BookmarkUse::RenderFailed => {
                effects.push(
                    Effect::Notify(
                        at,
                        Notice::RenderFailed { index: self.progress.index, bookmark_advanced: ok },
                    ),
                );
                let request = self.next_event(now, effects);
                assert(effects@ =~= before + start.on_bookmarked(ok, now).effects);
                request
            },
            BookmarkUse::Poison { record_id } => {
                let rung: Rung = self.channels[at].state.resume.rung;
                effects.push(
                    Effect::Notify(at, Notice::PoisonRecordSkipped { record_id, rung }),
                );
                let request = self.next_event(now, effects);
                assert(effects@ =~= before + start.on_bookmarked(ok, now).effects);
                request
            },
            BookmarkUse::Deliver => {
                if ok {
                    effects.push(Effect::Send);
                    self.progress.delivered = self.progress.delivered + 1;
                    self.progress.channel_count = self.progress.channel_count + 1;
                    assert(self@ =~= marked.counted());
                    let request = self.next_event(now, effects);
                    assert(effects@ =~= before + start.on_bookmarked(ok, now).effects);
                    request
                } else {
                    effects.push(Effect::Notify(at, Notice::BookmarkFailed));
                    EventLogSubscription::close_from(&self.handles, self.progress.index, effects);
                    self.progress.bookmark_failed = true;
                    self.progress.phase = Phase::Idle;
                    let request = self.finish(now, effects);
                    assert(effects@ =~= before + start.on_bookmarked(ok, now).effects);
                    request
                }
            },
        }
    }

    /// Begin a pull of up to `max_events` events. Each channel gets an even share
    /// of at least [`MIN_PER_CHANNEL_BUDGET`], and the first channel rotates from
    /// pull to pull, so that no channel starves the others.
    fn pull_events_inner(
        &mut self,
        max_events: usize,
        update_records_for_empty_channels: bool,
        now: Tick,
        effects: &mut Vec<Effect>,
    ) -> (request: Request)
        requires
            old(self)@.wf(),
            old(self).progress.phase == Phase::Idle,
        ensures
            ({
                let step = old(self)@.begun(max_events, update_records_for_empty_channels).visit(
                    now,
                );
                &&& final(self)@ == step.next
                &&& final(effects)@ == old(effects)@ + step.effects
                &&& request@ == step.request
            }),
            final(self)@.wf(),
    {
        let ghost start = self@;
        let n: usize = self.channels.len();
        let share: usize = max_events / n;
        let per_channel_budget: usize = if share >= MIN_PER_CHANNEL_BUDGET {
            share
        } else {
            MIN_PER_CHANNEL_BUDGET
        };
        let first: usize = self.round_robin_index % n;
        self.round_robin_index = self.round_robin_index.wrapping_add(1);
        self.progress.phase = Phase::Idle;
        self.progress.starting = false;
        self.progress.max_events = max_events;
        self.progress.update_records_for_empty_channels = update_records_for_empty_channels;
        self.progress.per_channel_budget = per_channel_budget;
        self.progress.start = first;
        self.progress.visited = 0;
        self.progress.delivered = 0;
        self.handles = Vec::new();
        assert(self@ =~= start.begun(max_events, update_records_for_empty_channels));
        self.visit(now, effects)
    }

    /// Begin a pull.
    pub fn pull_events(&mut self, max_events: usize, now: Tick, effects: &mut Vec<Effect>) -> (
        request: Request)
        requires
            old(self)@.wf(),
            old(self).progress.phase == Phase::Idle,
        ensures
            final(self)@ == old(self)@.begun(max_events, true).visit(now).next,
            final(effects)@ == old(effects)@ + old(self)@.begun(max_events, true).visit(
                now,
            ).effects,
            request@ == old(self)@.begun(max_events, true).visit(now).request,
            final(self)@.wf(),
    {
        self.pull_events_inner(max_events, true, now, effects)
    }

    /// Begin a pull after a timeout. It reads as [`Self::pull_events`] does, but
    /// leaves the record counts of channels that had nothing alone.
    pub fn pull_events_speculative(
        &mut self,
        max_events: usize,
        now: Tick,
        effects: &mut Vec<Effect>,
    ) -> (request: Request)
        requires
            old(self)@.wf(),
            old(self).progress.phase == Phase::Idle,
        ensures
            final(self)@ == old(self)@.begun(max_events, false).visit(now).next,
            final(effects)@ == old(effects)@ + old(self)@.begun(max_events, false).visit(
                now,
            ).effects,
            request@ == old(self)@.begun(max_events, false).visit(now).request,
            final(self)@.wf(),
    {
        self.pull_events_inner(max_events, false, now, effects)
    }
}

// ---------------------------------------------------------------------------
// The subscription as a whole
// ---------------------------------------------------------------------------
/// The factory that a configuration gives a channel.
pub open spec fn channel_factory(config: WindowsEventLogConfig, i: int) -> crate::query::FactoryView {
    crate::query::FactoryView {
        channel: config.channels@[i]@,
        base_query: crate::query::config_query(config),
        base_origin: if config.event_query is Some {
            QueryOrigin::Operator
        } else {
            QueryOrigin::Generated
        },
        read_existing_events: config.read_existing_events,
    }
}

/// A channel as a configuration and its checkpoint start it.
pub open spec fn initial_channel(
    config: WindowsEventLogConfig,
    seeds: Seq<ChannelSeed>,
    now: Tick,
    i: int,
) -> crate::channel::ChannelView {
    crate::channel::ChannelView::fresh(
        channel_factory(config, i),
        crate::query::config_query(config) != "*"@,
        config.batch_size as usize,
        seeds[i],
        Deadline {
            nanos: (now.nanos + config.subscription_refresh_secs * 1_000_000_000) as u128,
        },
    )
}

/// Progress outside any pull.
pub open spec fn at_rest() -> Progress {
    Progress {
        phase: Phase::Idle,
        starting: false,
        max_events: 0,
        update_records_for_empty_channels: false,
        per_channel_budget: 0,
        start: 0,
        visited: 0,
        delivered: 0,
        now: Tick { nanos: 0 },
        channel_limit: 0,
        channel_count: 0,
        channel_drained: false,
        bookmark_failed: false,
        index: 0,
    }
}

/// A subscription as a configuration starts it.
pub open spec fn initial_view(
    config: WindowsEventLogConfig,
    seeds: Seq<ChannelSeed>,
    now: Tick,
) -> PullView {
    PullView {
        channels: Seq::new(
            config.channels@.len(),
            |i: int| initial_channel(config, seeds, now, i),
        ),
        only_event_ids: match config.only_event_ids {
            Some(ids) => Some(ids@),
            None => None,
        },
        ignore_event_ids: config.ignore_event_ids@,
        batch_size: config.batch_size,
        refresh_nanos: (config.subscription_refresh_secs * 1_000_000_000) as nat,
        round_robin_index: 0,
        progress: at_rest(),
        handles: Seq::empty(),
    }
}

/// The positions in a list at which a bookmark was serialized, in order.
pub open spec fn bookmarked_at(bookmarks: Seq<Option<String>>) -> Seq<int>
    decreases bookmarks.len(),
{
    if bookmarks.len() == 0 {
        Seq::empty()
    } else {
        let before = bookmarked_at(bookmarks.drop_last());
        if bookmarks.last() is Some {
            before.push(bookmarks.len() - 1)
        } else {
            before
        }
    }
}

/// Whether the positions are those of the channels numbered `at`, in order.
pub open spec fn are_positions(
    positions: Seq<ChannelPosition>,
    channels: Seq<crate::channel::ChannelView>,
    bookmarks: Seq<Option<String>>,
    at: Seq<int>,
) -> bool {
    &&& positions.len() == at.len()
    &&& forall|k: int|
        0 <= k < at.len() ==> 0 <= #[trigger] at[k] < bookmarks.len() && bookmarks[at[k]] is Some
            && crate::channel::is_position(
            positions[k],
            channels[at[k]],
            (bookmarks[at[k]]->0)@,
        )
}

/// The number of live channels among the first `n`.
pub open spec fn live_count(channels: Seq<crate::channel::ChannelView>, n: nat) -> nat
    decreases n,
{
    if n == 0 {
        0
    } else {
        live_count(channels, (n - 1) as nat) + if channels[n - 1].state.live() {
            1nat
        } else {
            0
        }
    }
}

/// What closing all subscriptions takes.
pub open spec fn close_all_effects(channels: Seq<crate::channel::ChannelView>) -> Seq<Effect>
    decreases channels.len(),
{
    if channels.len() == 0 {
        Seq::empty()
    } else {
        close_all_effects(channels.drop_last()) + channels.last().state.close_effects()
    }
}

impl EventLogSubscription {
    /// The subscription for a configuration, with a seed for each channel in
    /// order. A channel that cannot be opened is no failure; a configuration
    /// without channels is.
    pub fn new(config: &WindowsEventLogConfig, seeds: &Vec<ChannelSeed>, now: Tick) -> (result:
        Result<EventLogSubscription, WindowsEventLogError>)
        requires
            seeds@.len() == config.channels@.len(),
        ensures
            match result {
                Ok(subscription) => {
                    &&& config.channels@.len() > 0
                    &&& subscription@ == initial_view(*config, seeds@, now)
                    &&& subscription@.wf()
                },
                Err(WindowsEventLogError::ConfigError { message }) => {
                    &&& config.channels@.len() == 0
                    &&& message@
                        == "No channels could be subscribed to. All channels may be inaccessible or direct/analytic channels."@
                },
            },
    {
        let refresh_interval = Span::from_secs(config.subscription_refresh_secs);
        let next_refresh: Deadline = now.plus(refresh_interval);
        let base_query: String = match build_xpath_query(config) {
            Ok(query) => query,
            Err(e) => {
                return Err(e);
            },
        };
        let base_origin = if config.event_query.is_some() {
            QueryOrigin::Operator
        } else {
            QueryOrigin::Generated
        };
        let query_filters = !text_eq(base_query.as_str(), "*");
        let mut channels: Vec<ChannelSubscription> = Vec::new();
        let mut i: usize = 0;
        while i < config.channels.len()
            invariant
                i <= config.channels@.len(),
                seeds@.len() == config.channels@.len(),
                channels@.len() == i,
                base_query@ == crate::query::config_query(*config),
                base_origin == channel_factory(*config, 0).base_origin,
                query_filters == (base_query@ != "*"@),
                next_refresh.nanos == now.nanos + config.subscription_refresh_secs * 1_000_000_000,
                forall|j: int|
                    0 <= j < i ==> (#[trigger] channels@[j])@ == initial_channel(
                        *config,
                        seeds@,
                        now,
                        j,
                    ),
            decreases config.channels.len() - i,
        {
            let factory = SubscriptionFactory {
                channel: config.channels[i].clone(),
                base_query: base_query.clone(),
                base_origin,
                read_existing_events: config.read_existing_events,
            };
            assert(factory@ == channel_factory(*config, i as int));
            channels.push(
                ChannelSubscription::new(
                    factory,
                    query_filters,
                    config.batch_size as usize,
                    seeds[i],
                    next_refresh,
                ),
            );
            i += 1;
        }
        if channels.len() == 0 {
            return Err(
                WindowsEventLogError::ConfigError {
                    message:
                        "No channels could be subscribed to. All channels may be inaccessible or direct/analytic channels.".to_owned(),
                },
            );
        }
        let only_event_ids: Option<Vec<u32>> = match &config.only_event_ids {
            Some(ids) => Some(EventLogSubscription::copy_ids(ids)),
            None => None,
        };
        let progress = Progress {
            phase: Phase::Idle,
            starting: false,
            max_events: 0,
            update_records_for_empty_channels: false,
            per_channel_budget: 0,
            start: 0,
            visited: 0,
            delivered: 0,
            now: Tick { nanos: 0 },
            channel_limit: 0,
            channel_count: 0,
            channel_drained: false,
            bookmark_failed: false,
            index: 0,
        };
        let count: usize = channels.len();
        let subscription = EventLogSubscription {
            channels,
            only_event_ids,
            ignore_event_ids: EventLogSubscription::copy_ids(&config.ignore_event_ids),
            batch_size: config.batch_size,
            refresh_interval,
            round_robin_index: 0,
            progress,
            handles: Vec::new(),
        };
        proof {
            assert(subscription@.channels =~= initial_view(*config, seeds@, now).channels);
            assert(subscription@.handles =~= Seq::<i64>::empty());
            let span = refresh_interval@;
            assert(span <= crate::time::MAX_SPAN_NANOS) by {
                assert(config.subscription_refresh_secs * 1_000_000_000
                    <= 18_446_744_073_709_551_615 * 1_000_000_000);
            }
        }
        Ok(subscription)
    }

    fn copy_ids(ids: &Vec<u32>) -> (copy: Vec<u32>)
        ensures
            copy@ == ids@,
    {
        let mut copy: Vec<u32> = Vec::new();
        let mut i: usize = 0;
        while i < ids.len()
            invariant
                i <= ids@.len(),
                copy@ == ids@.take(i as int),
            decreases ids.len() - i,
        {
            copy.push(ids[i]);
            assert(copy@ =~= ids@.take(i + 1));
            i += 1;
        }
        assert(ids@.take(i as int) =~= ids@);
        copy
    }

    /// Open the first subscription of every channel in turn.
    pub fn start(&mut self, now: Tick, effects: &mut Vec<Effect>) -> (request: Request)
        requires
            old(self)@.wf(),
            old(self).progress.phase == Phase::Idle,
        ensures
            ({
                let step = old(self)@.started().visit(now);
                &&& final(self)@ == step.next
                &&& final(effects)@ == old(effects)@ + step.effects
                &&& request@ == step.request
            }),
            final(self)@.wf(),
    {
        self.progress.starting = true;
        self.progress.start = 0;
        self.progress.visited = 0;
        self.visit(now, effects)
    }

    /// The result of a wait on the shutdown signal and the channels' signals.
    pub fn wait_for_events_blocking(&self, result: u32) -> (outcome: WaitResult)
        ensures
            outcome == wait_outcome(result, self.channels@.len()),
    {
        if result == WAIT_TIMEOUT {
            WaitResult::Timeout
        } else if result == WAIT_OBJECT_0 {
            WaitResult::Shutdown
        } else if result as u64 <= self.channels.len() as u64 {
            WaitResult::EventsAvailable
        } else {
            // A failed wait counts as a timeout, so that it cannot spin.
            WaitResult::Timeout
        }
    }

    /// The largest container worth keeping between pulls: four batches.
    pub open spec fn capacity_limit(self) -> int {
        larger(smaller(self.batch_size * 4, usize::MAX as int), 1)
    }

    /// The largest container worth keeping between pulls.
    pub fn recycle_capacity_limit(&self) -> (limit: usize)
        ensures
            limit == self.capacity_limit(),
    {
        let wide: u64 = self.batch_size as u64 * 4;
        let limit: usize = if wide <= usize::MAX as u64 {
            wide as usize
        } else {
            usize::MAX
        };
        if limit >= 1 {
            limit
        } else {
            1
        }
    }

    /// Whether a container of capacity `offered` is kept for the next pull in
    /// place of the one of capacity `parked`. An outsized one is dropped.
    pub fn recycle_event_buffer(&self, offered: usize, parked: usize) -> (keep: bool)
        ensures
            keep == (parked <= offered <= self.capacity_limit()),
    {
        offered <= self.recycle_capacity_limit() && offered >= parked
    }

    /// The number of configured channels and of live ones.
    pub fn channel_health_summary(&self) -> (summary: (usize, usize))
        ensures
            summary.0 == self.channels@.len(),
            summary.1 == live_count(self@.channels, self.channels@.len()),
            summary.1 <= summary.0,
    {
        let mut active: usize = 0;
        let mut i: usize = 0;
        while i < self.channels.len()
            invariant
                i <= self.channels@.len(),
                active == live_count(self@.channels, i as nat),
                active <= i,
            decreases self.channels.len() - i,
        {
            if self.channels[i].is_live() {
                active += 1;
            }
            i += 1;
        }
        (self.channels.len(), active)
    }

    /// The facts about every channel for the status file. `stats` holds each
    /// channel's record counts, read fresh, in order.
    pub fn status_snapshot(&self, stats: &Vec<Option<ChannelRecordStats>>, utc: Timestamp) -> (
        snapshot: StatusSnapshot)
        requires
            stats@.len() == self.channels@.len(),
        ensures
            snapshot.schema == crate::status::STATUS_SCHEMA_VERSION,
            snapshot.as_of@ == crate::status::status_time(utc),
            snapshot.channels.wf(),
            forall|i: int|
                0 <= i < self.channels@.len() && is_last_of_its_name(self@.channels, i) ==> {
                    let name = (#[trigger] self@.channels[i]).channel;
                    &&& snapshot.channels@.contains_key(name)
                    &&& crate::channel::status_describes(
                        snapshot.channels@[name],
                        self@.channels[i],
                        stats@[i],
                    )
                },
            forall|name: Seq<char>|
                snapshot.channels@.contains_key(name) ==> names_a_channel(self@.channels, name),
    {
        let mut snapshot = StatusSnapshot::new(utc);
        let mut i: usize = 0;
        while i < self.channels.len()
            invariant
                i <= self.channels@.len(),
                stats@.len() == self.channels@.len(),
                snapshot.schema == crate::status::STATUS_SCHEMA_VERSION,
                snapshot.as_of@ == crate::status::status_time(utc),
                snapshot.channels.wf(),
                forall|j: int|
                    0 <= j < i && is_last_of_its_name(self@.channels.take(i as int), j) ==> {
                        let name = (#[trigger] self@.channels[j]).channel;
                        &&& snapshot.channels@.contains_key(name)
                        &&& crate::channel::status_describes(
                            snapshot.channels@[name],
                            self@.channels[j],
                            stats@[j],
                        )
                    },
                forall|name: Seq<char>|
                    snapshot.channels@.contains_key(name) ==> names_a_channel(
                        self@.channels,
                        name,
                    ),
            decreases self.channels.len() - i,
        {
            let channel = &self.channels[i];
            let status = channel.status(stats[i]);
            let ghost before = snapshot.channels@;
            snapshot.channels.insert(channel.channel.clone(), status);
            proof {
                let views = self@.channels;
                let here = views[i as int].channel;
                assert forall|j: int|
                    0 <= j < i + 1 && is_last_of_its_name(views.take(i + 1), j) implies {
                    let name = (#[trigger] views[j]).channel;
                    &&& snapshot.channels@.contains_key(name)
                    &&& crate::channel::status_describes(
                        snapshot.channels@[name],
                        views[j],
                        stats@[j],
                    )
                } by {
                    if j < i {
                        assert(views.take(i + 1)[i as int].channel != views.take(i + 1)[j].channel);
                        assert forall|k: int| j < k < i implies views.take(i as int)[k].channel
                            != #[trigger] views.take(i as int)[j].channel by {
                            assert(views.take(i + 1)[k].channel != views.take(i + 1)[j].channel);
                        }
                        assert(is_last_of_its_name(views.take(i as int), j));
                    }
                }
                assert(names_a_channel(views, here)) by {
                    assert(views[i as int].channel == here);
                }
            }
            i += 1;
        }
        assert(self@.channels.take(i as int) =~= self@.channels);
        snapshot
    }

    /// The positions to write to the checkpoint, for the channels whose bookmark
    /// marks one. `bookmarks` holds each channel's serialized bookmark, in order.
    pub fn flush_bookmarks(&self, bookmarks: Vec<Option<String>>) -> (positions: Vec<
        ChannelPosition,
    >)
        requires
            bookmarks@.len() == self.channels@.len(),
        ensures
            are_positions(positions@, self@.channels, bookmarks@, bookmarked_at(bookmarks@)),
    {
        let mut positions: Vec<ChannelPosition> = Vec::new();
        let mut i: usize = 0;
        while i < bookmarks.len()
            invariant
                i <= bookmarks@.len(),
                bookmarks@.len() == self.channels@.len(),
                are_positions(
                    positions@,
                    self@.channels,
                    bookmarks@.take(i as int),
                    bookmarked_at(bookmarks@.take(i as int)),
                ),
            decreases bookmarks.len() - i,
        {
            let bookmark: Option<String> = match &bookmarks[i] {
                Some(xml) => Some(xml.clone()),
                None => None,
            };
            let ghost before = positions@;
            let position: Option<ChannelPosition> = self.channels[i].position(bookmark);
            if let Some(position) = position {
                positions.push(position);
            }
            proof {
                let next = bookmarks@.take(i + 1);
                assert(next.drop_last() =~= bookmarks@.take(i as int));
                assert(next.last() == bookmarks@[i as int]);
                let at = bookmarked_at(next);
                assert forall|k: int| 0 <= k < positions@.len() implies 0 <= #[trigger] at[k]
                    < next.len() && next[at[k]] is Some && crate::channel::is_position(
                    positions@[k],
                    self@.channels[at[k]],
                    (next[at[k]]->0)@,
                ) by {
                    if k < before.len() {
                        let earlier = bookmarked_at(bookmarks@.take(i as int));
                        assert(at[k] == earlier[k]);
                        assert(bookmarks@.take(i as int)[earlier[k]] == next[at[k]]);
                    } else {
                        assert(self@.channels[i as int] == self.channels@[i as int]@);
                    }
                }
            }
            i += 1;
        }
        assert(bookmarks@.take(i as int) =~= bookmarks@);
        positions
    }

    /// The position of the first channel with a name.
    pub fn find_channel(&self, channel: &str) -> (found: Option<usize>)
        ensures
            found is None ==> !names_a_channel(self@.channels, channel@),
            found matches Some(i) ==> {
                &&& i < self.channels@.len()
                &&& self.channels@[i as int].channel@ == channel@
                &&& forall|j: int|
                    0 <= j < i ==> (#[trigger] self.channels@[j]).channel@ != channel@
            },
    {
        let mut i: usize = 0;
        while i < self.channels.len()
            invariant
                i <= self.channels@.len(),
                forall|j: int| 0 <= j < i ==> (#[trigger] self.channels@[j]).channel@ != channel@,
            decreases self.channels.len() - i,
        {
            if text_eq(self.channels[i].channel.as_str(), channel) {
                return Some(i);
            }
            i += 1;
        }
        assert forall|j: int| 0 <= j < self@.channels.len() implies (
        #[trigger] self@.channels[j]).channel != channel@ by {
            assert(self@.channels[j].channel == self.channels@[j].channel@);
        }
        None
    }

    /// The checkpoint position of the first channel with a name, given its
    /// serialized bookmark. A position belongs to the channel it was asked for, and a
    /// channel that is not subscribed has none.
    pub fn channel_position(&self, channel: &str, bookmark: Option<String>) -> (position: Option<
        ChannelPosition,
    >)
        ensures
            position is Some <==> bookmark is Some && names_a_channel(self@.channels, channel@),
            position matches Some(p) ==> p.channel@ == channel@ && exists|i: int|
                is_first_named(self@.channels, channel@, i) && #[trigger] crate::channel::is_position(
                    p,
                    self@.channels[i],
                    (bookmark->0)@,
                ),
    {
        match self.find_channel(channel) {
            Some(i) => {
                assert(is_first_named(self@.channels, channel@, i as int)) by {
                    assert forall|j: int| 0 <= j < i implies (#[trigger] self@.channels[j]).channel
                        != channel@ by {
                        assert(self@.channels[j].channel == self.channels@[j].channel@);
                    }
                }
                let ghost xml = (bookmark->0)@;
                let position = self.channels[i].position(bookmark);
                proof {
                    if position is Some {
                        assert(crate::channel::is_position(
                            position->0,
                            self@.channels[i as int],
                            xml,
                        ));
                    }
                }
                position
            },
            None => None,
        }
    }

    /// Close every subscription. Nothing else changes.
    pub fn close_all(&mut self, effects: &mut Vec<Effect>)
        ensures
            final(effects)@ == old(effects)@ + close_all_effects(old(self)@.channels),
            final(self)@ == (PullView { channels: final(self)@.channels, ..old(self)@ }),
            old(self)@.wf() ==> final(self)@.wf(),
            final(self)@.channels.len() == old(self)@.channels.len(),
            forall|i: int|
                0 <= i < final(self)@.channels.len() ==> #[trigger] final(self)@.channels[i]
                    == old(self)@.channels[i].closed(),
    {
        let ghost start = self@;
        let ghost before = effects@;
        let mut i: usize = 0;
        assert(effects@ =~= before + close_all_effects(start.channels.take(0)));
        while i < self.channels.len()
            invariant
                i <= self.channels@.len(),
                self@.channels.len() == start.channels.len(),
                self@ == (PullView { channels: self@.channels, ..start }),
                effects@ == before + close_all_effects(start.channels.take(i as int)),
                forall|j: int|
                    0 <= j < i ==> #[trigger] self@.channels[j] == start.channels[j].closed(),
                forall|j: int|
                    i <= j < start.channels.len() ==> #[trigger] self@.channels[j]
                        == start.channels[j],
            decreases self.channels.len() - i,
        {
            proof {
                let next = start.channels.take(i + 1);
                assert(next.drop_last() =~= start.channels.take(i as int));
                assert(next.last() == self@.channels[i as int]);
            }
            let ghost mid = self@.channels;
            self.channels[i].close_current(effects);
            assert(self@.channels =~= mid.update(i as int, mid[i as int].closed()));
            assert(effects@ =~= before + close_all_effects(start.channels.take(i + 1)));
            i += 1;
        }
        assert(start.channels.take(i as int) =~= start.channels);
    }
}

impl PullView {
    /// The startup begun.
    pub open spec fn started(self) -> PullView {
        self.with_progress(Progress { starting: true, start: 0, visited: 0, ..self.progress })
    }
}

/// Whether no later channel has the same name.
pub open spec fn is_last_of_its_name(channels: Seq<crate::channel::ChannelView>, i: int) -> bool {
    forall|j: int| i < j < channels.len() ==> (#[trigger] channels[j]).channel
        != channels[i].channel
}

/// Whether a channel is the first with a name.
pub open spec fn is_first_named(
    channels: Seq<crate::channel::ChannelView>,
    name: Seq<char>,
    at: int,
) -> bool {
    &&& 0 <= at < channels.len()
    &&& channels[at].channel == name
    &&& forall|i: int| 0 <= i < at ==> (#[trigger] channels[i]).channel != name
}

/// Whether a channel has this name.
pub open spec fn names_a_channel(
    channels: Seq<crate::channel::ChannelView>,
    name: Seq<char>,
) -> bool {
    exists|i: int| 0 <= i < channels.len() && (#[trigger] channels[i]).channel == name
}

} // verus!
