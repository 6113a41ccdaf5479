//! One channel: its subscription, where it resumes, and what each outcome of a
//! system call does to it.

use std::collections::VecDeque;

use vstd::prelude::*;

use crate::checkpoint::{ChannelCheckpoint, ChannelPosition};
use crate::query::{SubscribeAttempt, SubscriptionFactory};
use crate::recovery::{
    evaluate_gap, jitter_seed, Backoff, BatchAdaptation, EpisodeState, FailureEdge, GapDetection,
    GapVerdict, ResumeState, ResumedFrom, Rung,
};
use crate::status::{
    gap_for_rung, newest_record_estimate, opt_rfc3339, push_gap, ChannelRecordStats, ChannelStatus,
    GapRecord,
};
use crate::time::{Deadline, Tick, Timestamp};
use crate::win32_errors::{classify_subscribe, QueryOrigin, SkipReason, SubscribeOutcome};

verus! {

/// Why a rebuild happens, which decides what a failure may cost.
#[derive(Debug, Clone, Copy, PartialEq, Eq, Structural)]
pub enum RebuildKind {
    /// There is no working subscription to lose.
    FromDead,
    /// The current subscription serves events and must survive a failure.
    Proactive,
}

/// What set off a rebuild or a retry.
#[derive(Debug, Clone, Copy, PartialEq, Eq, Structural)]
pub enum Cause {
    Startup,
    PeriodicRefresh,
    Retry,
    BatchReduction,
    EvtNext,
}

/// The log value of a cause.
pub open spec fn cause_name(cause: Cause) -> Seq<char> {
    match cause {
        Cause::Startup => "startup"@,
        Cause::PeriodicRefresh => "periodic_refresh"@,
        Cause::Retry => "retry"@,
        Cause::BatchReduction => "batch_reduction"@,
        Cause::EvtNext => "evt_next"@,
    }
}

impl Cause {
    pub fn as_str(self) -> (name: &'static str)
        ensures
            name@ == cause_name(self),
    {
        match self {
            Cause::Startup => "startup",
            Cause::PeriodicRefresh => "periodic_refresh",
            Cause::Retry => "retry",
            Cause::BatchReduction => "batch_reduction",
            Cause::EvtNext => "evt_next",
        }
    }
}

/// Why the resume ladder moved on a failed subscribe.
#[derive(Debug, Clone, Copy, PartialEq, Eq, Structural)]
pub enum AdvanceReason {
    BookmarkDead,
    GeneratedQueryInvalid,
}

/// Something to tell the operator about a channel.
#[allow(inconsistent_fields)]
#[derive(Debug, Clone, Copy, PartialEq, Eq, Structural)]
pub enum Notice {
    /// A query composed here was rejected; the operator's query is tried alone.
    QueryRejected { code: u32 },
    /// The channel came back after a failure episode.
    Recovered { cause: Cause, resumed_from: ResumedFrom },
    /// A subscription was opened outside any episode.
    Created { cause: Cause, rung: Rung },
    /// A replacement failed to open; the live subscription is kept.
    ProactiveRebuildFailed { cause: Cause, code: u32 },
    /// The resume ladder moved.
    RungAdvanced { rung: Rung, reason: AdvanceReason, code: u32 },
    /// The channel is skipped for this subscription generation.
    Skipped { reason: SkipReason, code: u32 },
    /// First failure of an episode.
    QueryFailed { cause: Cause, code: u32 },
    /// The hourly reminder of an episode.
    StillUnavailable { code: u32 },
    /// A repeated failure inside an episode.
    RetryFailed { code: u32 },
    /// A read was too large to marshal.
    BatchReduced { size: usize, code: u32 },
    /// The resume position is poisoned.
    PoisonEscape { rung: Rung, skips_next_record: bool, code: u32 },
    /// The one record that a poison escape costs.
    PoisonRecordSkipped { record_id: u64, rung: Rung },
    /// Records were overwritten before they could be read.
    RecordIdGap { missing: u64, record_id: u64 },
    /// Records were discarded by the ladder, as reported before.
    RecordIdGapExpected { missing: u64, rung: Rung },
    /// One event could not be rendered.
    RenderFailed { index: usize, bookmark_advanced: bool },
    /// The bookmark could not be updated.
    BookmarkFailed,
}

/// How loud a notice is.
#[derive(Debug, Clone, Copy, PartialEq, Eq, Structural)]
pub enum Severity {
    Error,
    Warn,
    Debug,
}

/// The severity of a notice. Giving the whole backlog up is an error; every other
/// move of the ladder is a warning.
pub open spec fn severity_of(notice: Notice) -> Severity {
    match notice {
        Notice::QueryFailed { .. } | Notice::Skipped { .. } | Notice::BookmarkFailed =>
            Severity::Error,
        Notice::RungAdvanced { rung, .. } => if rung == Rung::FutureOnly {
            Severity::Error
        } else {
            Severity::Warn
        },
        Notice::Created { .. }
        | Notice::ProactiveRebuildFailed { .. }
        | Notice::StillUnavailable { .. }
        | Notice::RetryFailed { .. } => Severity::Debug,
        _ => Severity::Warn,
    }
}

impl Notice {
    /// How loud this notice is.
    pub fn severity(self) -> (severity: Severity)
        ensures
            severity == severity_of(self),
    {
        match self {
            Notice::QueryFailed { .. } | Notice::Skipped { .. } | Notice::BookmarkFailed =>
                Severity::Error,
            Notice::RungAdvanced { rung, .. } => {
                if rung == Rung::FutureOnly {
                    Severity::Error
                } else {
                    Severity::Warn
                }
            },
            Notice::Created { .. }
            | Notice::ProactiveRebuildFailed { .. }
            | Notice::StillUnavailable { .. }
            | Notice::RetryFailed { .. } => Severity::Debug,
            _ => Severity::Warn,
        }
    }
}

/// Something to do that needs no answer. Channels are given by their position.
#[derive(Debug, Clone, Copy, PartialEq, Eq, Structural)]
pub enum Effect {
    /// Close a subscription handle.
    CloseSubscription(i64),
    /// Close an event handle.
    CloseEvent(i64),
    /// Reset a channel's signal.
    ResetSignal(usize),
    /// Set a channel's signal.
    SetSignal(usize),
    /// Refresh a channel's record count.
    UpdateRecords(usize),
    /// Send the event in hand downstream.
    Send,
    /// Tell the operator about a channel.
    Notify(usize, Notice),
}

/// The changing part of a channel, its gap history aside.
#[derive(Debug, Clone, Copy, PartialEq, Eq)]
pub struct ChannelState {
    /// The open subscription. Never a stale handle.
    pub subscription_handle: Option<i64>,
    /// Whose query the open subscription was built with.
    pub active_query_origin: QueryOrigin,
    /// Whether the bookmark marks a position.
    pub bookmark_positioned: bool,
    pub resume: ResumeState,
    pub backoff: Backoff,
    pub batch: BatchAdaptation,
    pub episode: EpisodeState,
    /// Earliest time of the next rebuild.
    pub retry_at: Option<Deadline>,
    /// Skipped until the next periodic refresh.
    pub skipped_this_generation: Option<SkipReason>,
    /// When the next periodic refresh is due.
    pub next_refresh: Deadline,
    /// Time of the last event.
    pub last_event_at: Option<Timestamp>,
    /// Record id of the last event.
    pub last_record_id_seen: Option<u64>,
    /// When a read last came back empty.
    pub last_drained_at: Option<Timestamp>,
    /// Names that were absent from a publisher's table.
    pub name_table_misses: u64,
    /// Whether an event arrived as forwarded rendered text.
    pub rendered_delivery_seen: bool,
}

impl ChannelState {
    /// Whether the channel can be read.
    pub open spec fn live(self) -> bool {
        self.subscription_handle is Some && self.skipped_this_generation is None
    }

    /// What closing the subscription takes.
    pub open spec fn close_effects(self) -> Seq<Effect> {
        match self.subscription_handle {
            Some(handle) => seq![Effect::CloseSubscription(handle)],
            None => Seq::empty(),
        }
    }
}

/// One channel.
#[derive(Debug)]
pub struct ChannelSubscription {
    pub channel: String,
    pub factory: SubscriptionFactory,
    /// The bookmark's handle.
    pub bookmark_handle: i64,
    /// The query filters events, so record ids skip by construction.
    pub query_filters: bool,
    pub state: ChannelState,
    /// Holes that the resume ladder made, newest last.
    pub gaps: VecDeque<GapRecord>,
}

/// The contents of a channel.
#[verifier::ext_equal]
pub struct ChannelView {
    pub channel: Seq<char>,
    pub factory: crate::query::FactoryView,
    pub bookmark_handle: i64,
    pub query_filters: bool,
    pub state: ChannelState,
    pub gaps: Seq<crate::status::GapView>,
}

impl View for ChannelSubscription {
    type V = ChannelView;

    open spec fn view(&self) -> ChannelView {
        ChannelView {
            channel: self.channel@,
            factory: self.factory@,
            bookmark_handle: self.bookmark_handle,
            query_filters: self.query_filters,
            state: self.state,
            gaps: crate::status::gap_views(self.gaps@),
        }
    }
}

/// What a failure says, by its place in the episode.
pub open spec fn failure_notice(edge: FailureEdge, cause: Cause, code: u32) -> Notice {
    match edge {
        FailureEdge::Onset => Notice::QueryFailed { cause, code },
        FailureEdge::OngoingReminder => Notice::StillUnavailable { code },
        FailureEdge::Repeat => Notice::RetryFailed { code },
    }
}

/// The stored position of a checkpoint: the parts of its time and its record id,
/// where both are there and the time can be read.
pub open spec fn stored_position(time: Option<Seq<char>>, record_id: Option<u64>) -> Option<
    ((int, int), u64),
> {
    match (time, record_id) {
        (Some(text), Some(id)) => match crate::time::parsed_rfc3339(text) {
            Some(parts) => Some((parts, id)),
            None => None,
        },
        _ => None,
    }
}

/// Whether a resume state holds exactly a stored position, and nothing else has
/// happened to it.
pub open spec fn resumes_at(resume: ResumeState, stored: Option<((int, int), u64)>) -> bool {
    match stored {
        None => resume == ResumeState::fresh(true),
        Some((parts, id)) => exists|t: Timestamp|
            {
                &&& (t.secs(), t.nanos()) == parts
                &&& resume == #[trigger] ResumeState::fresh(true).after_event(t, id)
            },
    }
}

/// What a channel starts from.
#[derive(Debug, Clone, Copy, PartialEq, Eq)]
pub struct ChannelSeed {
    pub bookmark_handle: i64,
    pub bookmark_positioned: bool,
    pub resume: ResumeState,
}

impl ChannelSeed {
    /// The seed that a checkpoint gives. `restored` tells whether the bookmark
    /// was made from the checkpoint's bookmark; a fresh bookmark marks nothing.
    pub fn from_checkpoint(
        checkpoint: Option<&ChannelCheckpoint>,
        restored: bool,
        bookmark_handle: i64,
    ) -> (seed: ChannelSeed)
        ensures
            seed.bookmark_handle == bookmark_handle,
            seed.bookmark_positioned == (checkpoint is Some && restored),
            match checkpoint {
                None => seed.resume == ResumeState::fresh(true),
                Some(c) => resumes_at(
                    seed.resume,
                    stored_position(
                        crate::status::opt_chars(c.last_event_time),
                        c.last_record_id,
                    ),
                ),
            },
    {
        let mut resume = ResumeState::new(true);
        if let Some(c) = checkpoint {
            let time: Option<Timestamp> = match &c.last_event_time {
                Some(text) => Timestamp::parse_rfc3339(text.as_str()),
                None => None,
            };
            if let Some(t) = time {
                if let Some(id) = c.last_record_id {
                    resume.observe_event(t, id);
                    assert(resume == ResumeState::fresh(true).after_event(t, id));
                }
            }
        }
        ChannelSeed {
            bookmark_handle,
            bookmark_positioned: checkpoint.is_some() && restored,
            resume,
        }
    }
}

impl ChannelView {
    /// A new channel.
    pub open spec fn fresh(
        factory: crate::query::FactoryView,
        query_filters: bool,
        batch_size: usize,
        seed: ChannelSeed,
        next_refresh: Deadline,
    ) -> ChannelView {
        ChannelView {
            channel: factory.channel,
            factory,
            bookmark_handle: seed.bookmark_handle,
            query_filters,
            state: ChannelState {
                subscription_handle: None,
                active_query_origin: factory.base_origin,
                bookmark_positioned: seed.bookmark_positioned,
                resume: seed.resume,
                backoff: Backoff {
                    attempt: 0,
                    jitter_state: crate::recovery::fnv1a(
                        vstd::utf8::encode_utf8(factory.channel),
                    ) | 1,
                },
                batch: BatchAdaptation::at_size(batch_size),
                episode: EpisodeState::calm(),
                retry_at: None,
                skipped_this_generation: None,
                next_refresh,
                last_event_at: seed.resume.last_event_time,
                last_record_id_seen: None,
                last_drained_at: None,
                name_table_misses: 0,
                rendered_delivery_seen: false,
            },
            gaps: Seq::empty(),
        }
    }

    /// This channel in another state.
    pub open spec fn with_state(self, state: ChannelState) -> ChannelView {
        ChannelView { state, ..self }
    }

    /// The subscription closed.
    pub open spec fn closed(self) -> ChannelView {
        self.with_state(ChannelState { subscription_handle: None, ..self.state })
    }

    /// The attempt that opens a rebuild.
    pub open spec fn rebuild_attempt(self) -> crate::query::AttemptView {
        self.factory.first_attempt(
            self.state.bookmark_positioned,
            self.bookmark_handle,
            self.state.resume,
        )
    }

    /// This channel at the start of a rebuild.
    pub open spec fn rebuilding(self) -> ChannelView {
        self.with_state(ChannelState { retry_at: None, ..self.state })
    }

    /// A new subscription swapped in. The old one is closed only now, so that a
    /// failed subscribe never strands the channel.
    #[verifier::opaque]
    pub open spec fn resubscribed(
        self,
        at: usize,
        handle: i64,
        origin: QueryOrigin,
        cause: Cause,
    ) -> (ChannelView, Seq<Effect>) {
        let notice = if self.state.episode.onset_logged {
            Notice::Recovered {
                cause,
                resumed_from: crate::recovery::rung_source(self.state.resume.rung),
            }
        } else {
            Notice::Created { cause, rung: self.state.resume.rung }
        };
        (
            self.with_state(
                ChannelState {
                    subscription_handle: Some(handle),
                    active_query_origin: origin,
                    skipped_this_generation: None,
                    backoff: Backoff { attempt: 0, ..self.state.backoff },
                    episode: EpisodeState::calm(),
                    ..self.state
                },
            ),
            self.state.close_effects().push(Effect::Notify(at, notice)),
        )
    }

    /// A retry armed after a failure.
    pub open spec fn scheduled(self, at: usize, code: u32, cause: Cause, now: Tick) -> (
        ChannelView,
        Seq<Effect>,
    ) {
        let state = self.state;
        (
            self.with_state(
                ChannelState {
                    backoff: state.backoff.after_attempt(),
                    retry_at: Some(
                        Deadline { nanos: (now.nanos + state.backoff.next_delay_nanos()) as u128 },
                    ),
                    episode: state.episode.after_failure(now),
                    ..state
                },
            ),
            seq![
                Effect::Notify(at, failure_notice(state.episode.failure_edge(now), cause, code)),
            ],
        )
    }

    /// The channel taken out of service until the next refresh.
    pub open spec fn skipped(self, at: usize, reason: SkipReason, code: u32) -> (
        ChannelView,
        Seq<Effect>,
    ) {
        (
            self.with_state(
                ChannelState {
                    subscription_handle: None,
                    skipped_this_generation: Some(reason),
                    ..self.state
                },
            ),
            self.state.close_effects().push(Effect::Notify(at, Notice::Skipped { reason, code })),
        )
    }

    /// The time at which reading resumes after a ladder step, where a time bounds
    /// the hole.
    pub open spec fn resume_point(self, rung: Rung, utc: Timestamp) -> Option<(int, int)> {
        match rung {
            Rung::FutureOnly => Some((utc.secs(), utc.nanos())),
            Rung::TimeAdvance(_) => self.state.resume.floor_parts(),
            _ => None,
        }
    }

    /// The gap history after a ladder step from `previous` to the current rung.
    /// A step that did not move the ladder made no hole.
    pub open spec fn gaps_after_step(self, previous: Rung, utc: Timestamp) -> Seq<
        crate::status::GapView,
    > {
        let rung = self.state.resume.rung;
        if previous == rung {
            self.gaps
        } else {
            match crate::status::rung_gap(
                rung,
                self.state.resume.last_event_time,
                self.resume_point(rung, utc),
                utc,
            ) {
                Some(gap) => crate::status::with_gap(self.gaps, gap),
                None => self.gaps,
            }
        }
    }

    /// This channel with the hole of a ladder step recorded.
    pub open spec fn stepped(self, previous: Rung, utc: Timestamp) -> ChannelView {
        ChannelView { gaps: self.gaps_after_step(previous, utc), ..self }
    }

    /// The ladder moved on because the stored position is gone.
    pub open spec fn bookmark_died(self, utc: Timestamp) -> ChannelView {
        self.with_state(
            ChannelState {
                resume: self.state.resume.after_dead_bookmark(),
                bookmark_positioned: false,
                ..self.state
            },
        ).stepped(self.state.resume.rung, utc)
    }

    /// The ladder moved up one rung, with batches of one record on the rung that
    /// isolates.
    pub open spec fn climbed(self, utc: Timestamp) -> ChannelView {
        let resume = self.state.resume.advanced();
        self.with_state(
            ChannelState {
                resume,
                batch: if resume.rung == Rung::IsolateOne {
                    self.state.batch.isolated()
                } else {
                    self.state.batch
                },
                ..self.state
            },
        ).stepped(self.state.resume.rung, utc)
    }

    /// A rebuild failed. A live subscription survives the failure of its
    /// proactive replacement; otherwise the code decides.
    #[verifier::opaque]
    pub open spec fn rebuild_failed(
        self,
        at: usize,
        code: u32,
        origin: QueryOrigin,
        kind: RebuildKind,
        cause: Cause,
        now: Tick,
        utc: Timestamp,
    ) -> (ChannelView, Seq<Effect>) {
        if kind == RebuildKind::Proactive && self.state.subscription_handle is Some {
            let backoff = self.state.backoff;
            (
                self.with_state(
                    ChannelState {
                        backoff: backoff.after_attempt(),
                        next_refresh: Deadline {
                            nanos: (now.nanos + backoff.next_delay_nanos()) as u128,
                        },
                        ..self.state
                    },
                ),
                seq![Effect::Notify(at, Notice::ProactiveRebuildFailed { cause, code })],
            )
        } else {
            let close = self.state.close_effects();
            match crate::win32_errors::subscribe_outcome(code, origin) {
                SubscribeOutcome::SkipChannel(reason) => self.skipped(at, reason, code),
                SubscribeOutcome::BookmarkDead => {
                    let moved = self.closed().bookmark_died(utc);
                    let advance = Notice::RungAdvanced {
                        rung: moved.state.resume.rung,
                        reason: AdvanceReason::BookmarkDead,
                        code,
                    };
                    let next = moved.scheduled(at, code, cause, now);
                    (next.0, close.push(Effect::Notify(at, advance)) + next.1)
                },
                SubscribeOutcome::GeneratedQueryInvalid => {
                    let moved = self.closed().climbed(utc);
                    let advance = Notice::RungAdvanced {
                        rung: moved.state.resume.rung,
                        reason: AdvanceReason::GeneratedQueryInvalid,
                        code,
                    };
                    let next = moved.scheduled(at, code, cause, now);
                    (next.0, close.push(Effect::Notify(at, advance)) + next.1)
                },
                SubscribeOutcome::Retry => {
                    let next = self.closed().scheduled(at, code, cause, now);
                    (next.0, close + next.1)
                },
            }
        }
    }

    /// A read failed for good: tear the subscription down and retry, escaping a
    /// position that has stayed put for too long.
    #[verifier::opaque]
    pub open spec fn torn_down(self, at: usize, code: u32, now: Tick, utc: Timestamp) -> (
        ChannelView,
        Seq<Effect>,
    ) {
        let noted = self.with_state(
            ChannelState { resume: self.state.resume.after_rebuild(), ..self.state },
        );
        let stuck = noted.state.resume.is_stuck();
        let moved = if stuck {
            noted.climbed(utc)
        } else {
            noted
        };
        let escape = if stuck {
            seq![
                Effect::Notify(
                    at,
                    Notice::PoisonEscape {
                        rung: moved.state.resume.rung,
                        skips_next_record: moved.state.resume.skip_next_record,
                        code,
                    },
                ),
            ]
        } else {
            Seq::empty()
        };
        let next = moved.closed().scheduled(at, code, Cause::EvtNext, now);
        (next.0, escape + self.state.close_effects() + next.1)
    }

    /// A read was too large: half the batch.
    pub open spec fn reduced(self, at: usize, code: u32) -> (ChannelView, Seq<Effect>) {
        let batch = self.state.batch.halved();
        (
            self.with_state(ChannelState { batch, ..self.state }),
            seq![Effect::Notify(at, Notice::BatchReduced { size: batch.current, code })],
        )
    }

    /// A read came back empty.
    pub open spec fn drained(self, utc: Timestamp) -> ChannelView {
        self.with_state(ChannelState { last_drained_at: Some(utc), ..self.state })
    }

    /// A batch was read to its end: the ladder goes back to the bottom, and the
    /// batch size back to its configured value, at once after an escape and
    /// gradually otherwise.
    pub open spec fn read_cleanly(self) -> ChannelView {
        let state = self.state;
        self.with_state(
            ChannelState {
                resume: state.resume.after_clean_read(),
                batch: if state.resume.rung != Rung::Bookmark {
                    BatchAdaptation::at_size(state.batch.configured)
                } else {
                    state.batch.after_clean_batch()
                },
                backoff: Backoff { attempt: 0, ..state.backoff },
                ..state
            },
        )
    }

    /// Record ids have proved to come from many machines.
    pub open spec fn forwarded(self) -> ChannelView {
        self.with_state(
            ChannelState {
                rendered_delivery_seen: true,
                resume: self.state.resume.without_record_identity(),
                ..self.state
            },
        )
    }

    /// The reasons why record ids say nothing on this channel.
    pub open spec fn gap_detection_view(self) -> GapDetection {
        GapDetection {
            query_filters: self.query_filters,
            rendered_delivery: self.state.rendered_delivery_seen,
        }
    }

    /// What the record id of the next event says.
    pub open spec fn gap_effects(self, at: usize, record_id: u64) -> Seq<Effect> {
        match crate::recovery::gap_verdict(
            self.state.last_record_id_seen,
            record_id,
            self.gap_detection_view(),
            crate::recovery::discards_on_purpose(self.state.resume.rung),
        ) {
            GapVerdict::Gap { missing } => seq![
                Effect::Notify(at, Notice::RecordIdGap { missing, record_id }),
            ],
            GapVerdict::DeliberateSkip { missing } => seq![
                Effect::Notify(
                    at,
                    Notice::RecordIdGapExpected { missing, rung: self.state.resume.rung },
                ),
            ],
            _ => Seq::empty(),
        }
    }

    /// This channel after the names of an event were looked up.
    pub open spec fn names_missed(self, misses: u32) -> ChannelView {
        self.with_state(
            ChannelState {
                name_table_misses: if self.state.name_table_misses + misses <= u64::MAX {
                    (self.state.name_table_misses + misses) as u64
                } else {
                    u64::MAX
                },
                ..self.state
            },
        )
    }

    /// The record that a poison escape withholds: the position moves past it.
    pub open spec fn passed_poison(self, time: Timestamp, record_id: u64) -> ChannelView {
        let resume = ResumeState { skip_next_record: false, ..self.state.resume };
        self.with_state(
            ChannelState {
                resume: resume.after_event(time, record_id),
                last_record_id_seen: Some(record_id),
                ..self.state
            },
        )
    }

    /// An event taken in: the position moves to it.
    pub open spec fn took_in(self, time: Timestamp, record_id: u64) -> ChannelView {
        self.with_state(
            ChannelState {
                resume: self.state.resume.after_event(time, record_id),
                last_record_id_seen: Some(record_id),
                last_event_at: Some(time),
                ..self.state
            },
        )
    }

    /// This channel with its periodic refresh started.
    pub open spec fn refreshed(self, next_refresh: Deadline) -> ChannelView {
        self.with_state(
            ChannelState { next_refresh, skipped_this_generation: None, ..self.state },
        )
    }

    /// This channel after an attempt to update the bookmark.
    pub open spec fn bookmarked(self, ok: bool) -> ChannelView {
        self.with_state(
            ChannelState {
                bookmark_positioned: self.state.bookmark_positioned || ok,
                ..self.state
            },
        )
    }
}

/// The facts about a parsed event on which delivery depends.
#[derive(Debug, Clone, Copy, PartialEq, Eq)]
pub struct EventFacts {
    pub time: Timestamp,
    pub record_id: u64,
}

impl ChannelSubscription {
    /// A channel that is not subscribed yet. The last event's time is seeded
    /// from the checkpoint; that the head was ever reached is not.
    pub fn new(
        factory: SubscriptionFactory,
        query_filters: bool,
        batch_size: usize,
        seed: ChannelSeed,
        next_refresh: Deadline,
    ) -> (channel: ChannelSubscription)
        ensures
            channel@ == ChannelView::fresh(
                factory@,
                query_filters,
                batch_size,
                seed,
                next_refresh,
            ),
    {
        let channel = factory.channel.clone();
        let backoff = Backoff::new(jitter_seed(channel.as_str()));
        let state = ChannelState {
            subscription_handle: None,
            active_query_origin: factory.base_origin,
            bookmark_positioned: seed.bookmark_positioned,
            resume: seed.resume,
            backoff,
            batch: BatchAdaptation::new(batch_size),
            episode: EpisodeState::default(),
            retry_at: None,
            skipped_this_generation: None,
            next_refresh,
            last_event_at: seed.resume.last_event_time,
            last_record_id_seen: None,
            last_drained_at: None,
            name_table_misses: 0,
            rendered_delivery_seen: false,
        };
        let subscription = ChannelSubscription {
            channel,
            factory,
            bookmark_handle: seed.bookmark_handle,
            query_filters,
            state,
            gaps: VecDeque::new(),
        };
        assert(subscription@.gaps =~= Seq::<crate::status::GapView>::empty());
        subscription
    }

    /// Whether this channel can be read.
    pub fn is_live(&self) -> (live: bool)
        ensures
            live == self.state.live(),
    {
        self.state.subscription_handle.is_some() && self.state.skipped_this_generation.is_none()
    }

    /// Close the current subscription, if there is one.
    pub fn close_current(&mut self, effects: &mut Vec<Effect>)
        ensures
            final(self)@ == old(self)@.closed(),
            final(effects)@ == old(effects)@ + old(self).state.close_effects(),
    {
        if let Some(handle) = self.state.subscription_handle {
            effects.push(Effect::CloseSubscription(handle));
        }
        self.state.subscription_handle = None;
    }

    /// Open a rebuild: plan its first attempt.
    pub fn begin_rebuild(&mut self) -> (attempt: SubscribeAttempt)
        ensures
            final(self)@ == old(self)@.rebuilding(),
            attempt@ == old(self)@.rebuild_attempt(),
    {
        self.state.retry_at = None;
        self.factory.build(
            self.state.bookmark_positioned,
            self.bookmark_handle,
            &self.state.resume,
        )
    }

    /// A rebuild succeeded: swap the new subscription in.
    pub fn finish_rebuild(
        &mut self,
        at: usize,
        handle: i64,
        origin: QueryOrigin,
        cause: Cause,
        effects: &mut Vec<Effect>,
    )
        ensures
            final(self)@ == old(self)@.resubscribed(at, handle, origin, cause).0,
            final(effects)@ == old(effects)@ + old(self)@.resubscribed(at, handle, origin, cause).1,
    {
        reveal(ChannelView::resubscribed);
        let ghost before = effects@;
        let ghost close = self.state.close_effects();
        self.close_current(effects);
        self.state.subscription_handle = Some(handle);
        self.state.active_query_origin = origin;
        self.state.skipped_this_generation = None;
        self.state.backoff.reset();
        let rung = self.state.resume.rung;
        let notice = if self.state.episode.observe_recovery() {
            Notice::Recovered { cause, resumed_from: rung.resumed_from() }
        } else {
            Notice::Created { cause, rung }
        };
        effects.push(Effect::Notify(at, notice));
        assert(effects@ =~= before + close.push(Effect::Notify(at, notice)));
    }

    /// A rebuild failed with `code`.
    pub fn fail_rebuild(
        &mut self,
        at: usize,
        code: u32,
        origin: QueryOrigin,
        kind: RebuildKind,
        cause: Cause,
        now: Tick,
        utc: Timestamp,
        effects: &mut Vec<Effect>,
    )
        ensures
            final(self)@ == old(self)@.rebuild_failed(at, code, origin, kind, cause, now, utc).0,
            final(effects)@ == old(effects)@ + old(self)@.rebuild_failed(
                at,
                code,
                origin,
                kind,
                cause,
                now,
                utc,
            ).1,
    {
        reveal(ChannelView::rebuild_failed);
        let ghost start = self@;
        let ghost before = effects@;
        let proactive = match kind {
            RebuildKind::Proactive => true,
            RebuildKind::FromDead => false,
        };
        if proactive && self.state.subscription_handle.is_some() {
            let delay = self.state.backoff.next_delay();
            self.state.next_refresh = now.plus(delay);
            effects.push(Effect::Notify(at, Notice::ProactiveRebuildFailed { cause, code }));
            assert(effects@ =~= before + start.rebuild_failed(
                at,
                code,
                origin,
                kind,
                cause,
                now,
                utc,
            ).1);
            return;
        }
        match classify_subscribe(code, origin) {
            SubscribeOutcome::SkipChannel(reason) => {
                self.skip_channel(at, reason, code, effects);
            },
            SubscribeOutcome::BookmarkDead => {
                self.close_current(effects);
                let previous = self.state.resume.rung;
                let rung = self.state.resume.bookmark_dead();
                self.state.bookmark_positioned = false;
                self.note_rung_gap(previous, utc);
                effects.push(
                    Effect::Notify(
                        at,
                        Notice::RungAdvanced { rung, reason: AdvanceReason::BookmarkDead, code },
                    ),
                );
                self.schedule_retry(at, code, cause, now, effects);
                assert(effects@ =~= before + start.rebuild_failed(
                    at,
                    code,
                    origin,
                    kind,
                    cause,
                    now,
                    utc,
                ).1);
            },
            SubscribeOutcome::GeneratedQueryInvalid => {
                self.close_current(effects);
                let rung = self.climb(utc);
                effects.push(
                    Effect::Notify(
                        at,
                        Notice::RungAdvanced {
                            rung,
                            reason: AdvanceReason::GeneratedQueryInvalid,
                            code,
                        },
                    ),
                );
                self.schedule_retry(at, code, cause, now, effects);
                assert(effects@ =~= before + start.rebuild_failed(
                    at,
                    code,
                    origin,
                    kind,
                    cause,
                    now,
                    utc,
                ).1);
            },
            SubscribeOutcome::Retry => {
                self.close_current(effects);
                self.schedule_retry(at, code, cause, now, effects);
                assert(effects@ =~= before + start.rebuild_failed(
                    at,
                    code,
                    origin,
                    kind,
                    cause,
                    now,
                    utc,
                ).1);
            },
        }
    }

    /// Move up one rung of the ladder and record what that loses.
    fn climb(&mut self, utc: Timestamp) -> (rung: Rung)
        ensures
            final(self)@ == old(self)@.climbed(utc),
            rung == final(self).state.resume.rung,
    {
        let previous = self.state.resume.rung;
        let rung = self.state.resume.advance_rung();
        if rung == Rung::IsolateOne {
            self.state.batch.isolate();
        }
        self.note_rung_gap(previous, utc);
        rung
    }

    /// Skip this channel until the next periodic refresh.
    pub fn skip_channel(
        &mut self,
        at: usize,
        reason: SkipReason,
        code: u32,
        effects: &mut Vec<Effect>,
    )
        ensures
            final(self)@ == old(self)@.skipped(at, reason, code).0,
            final(effects)@ == old(effects)@ + old(self)@.skipped(at, reason, code).1,
    {
        let ghost before = effects@;
        let ghost close = self.state.close_effects();
        self.close_current(effects);
        self.state.skipped_this_generation = Some(reason);
        effects.push(Effect::Notify(at, Notice::Skipped { reason, code }));
        assert(effects@ =~= before + close.push(
            Effect::Notify(at, Notice::Skipped { reason, code }),
        ));
    }

    /// Arm the backoff timer and say where in the episode this failure stands.
    pub fn schedule_retry(
        &mut self,
        at: usize,
        code: u32,
        cause: Cause,
        now: Tick,
        effects: &mut Vec<Effect>,
    )
        ensures
            final(self)@ == old(self)@.scheduled(at, code, cause, now).0,
            final(effects)@ == old(effects)@ + old(self)@.scheduled(at, code, cause, now).1,
    {
        let ghost before = effects@;
        let delay = self.state.backoff.next_delay();
        self.state.retry_at = Some(now.plus(delay));
        let notice = match self.state.episode.observe_failure(now) {
            FailureEdge::Onset => Notice::QueryFailed { cause, code },
            FailureEdge::OngoingReminder => Notice::StillUnavailable { code },
            FailureEdge::Repeat => Notice::RetryFailed { code },
        };
        effects.push(Effect::Notify(at, notice));
        assert(effects@ =~= before + seq![Effect::Notify(at, notice)]);
    }

    /// Record the hole that the step from `previous` to the current rung made,
    /// if it made one.
    pub fn note_rung_gap(&mut self, previous: Rung, utc: Timestamp)
        ensures
            final(self)@ == old(self)@.stepped(previous, utc),
    {
        let rung = self.state.resume.rung;
        if previous == rung {
            return;
        }
        let resume_at: Option<Timestamp> = match rung {
            Rung::FutureOnly => Some(utc),
            Rung::TimeAdvance(_) => self.state.resume.time_floor(),
            _ => None,
        };
        if let Some(gap) = gap_for_rung(rung, self.state.resume.last_event_time, resume_at, utc) {
            push_gap(&mut self.gaps, gap);
        }
    }

    /// A read failed for good.
    pub fn tear_down(
        &mut self,
        at: usize,
        code: u32,
        now: Tick,
        utc: Timestamp,
        effects: &mut Vec<Effect>,
    )
        ensures
            final(self)@ == old(self)@.torn_down(at, code, now, utc).0,
            final(effects)@ == old(effects)@ + old(self)@.torn_down(at, code, now, utc).1,
    {
        reveal(ChannelView::torn_down);
        let ghost start = self@;
        let ghost before = effects@;
        if self.state.resume.note_rebuild() {
            let rung = self.climb(utc);
            effects.push(
                Effect::Notify(
                    at,
                    Notice::PoisonEscape {
                        rung,
                        skips_next_record: self.state.resume.skip_next_record,
                        code,
                    },
                ),
            );
        }
        self.close_current(effects);
        self.schedule_retry(at, code, Cause::EvtNext, now, effects);
        assert(effects@ =~= before + start.torn_down(at, code, now, utc).1);
    }

    /// A read was too large to marshal.
    pub fn reduce_batch(&mut self, at: usize, code: u32, effects: &mut Vec<Effect>)
        ensures
            final(self)@ == old(self)@.reduced(at, code).0,
            final(effects)@ == old(effects)@ + old(self)@.reduced(at, code).1,
    {
        let ghost before = effects@;
        let size: usize = self.state.batch.halve();
        effects.push(Effect::Notify(at, Notice::BatchReduced { size, code }));
        assert(effects@ =~= before + seq![
            Effect::Notify(at, Notice::BatchReduced { size, code }),
        ]);
    }

    /// A read on this channel came back empty, so it was at the head.
    pub fn note_drained_to_empty(&mut self, utc: Timestamp)
        ensures
            final(self)@ == old(self)@.drained(utc),
    {
        self.state.last_drained_at = Some(utc);
    }

    /// A batch was read to its end.
    pub fn note_clean_batch(&mut self)
        ensures
            final(self)@ == old(self)@.read_cleanly(),
    {
        let was_escaping = match self.state.resume.rung {
            Rung::Bookmark => false,
            _ => true,
        };
        self.state.resume.observe_clean_read();
        if was_escaping {
            self.state.batch.restore();
        } else {
            self.state.batch.observe_clean_batch();
        }
        self.state.backoff.reset();
    }

    /// Why record ids may say nothing on this channel.
    pub fn gap_detection(&self) -> (detection: GapDetection)
        ensures
            detection == self@.gap_detection_view(),
    {
        GapDetection {
            query_filters: self.query_filters,
            rendered_delivery: self.state.rendered_delivery_seen,
        }
    }

    /// Evaluate an event's record id against the previous one.
    pub fn report_gap(&self, at: usize, record_id: u64, effects: &mut Vec<Effect>)
        ensures
            final(effects)@ == old(effects)@ + self@.gap_effects(at, record_id),
    {
        let ghost before = effects@;
        let rung = self.state.resume.rung;
        match evaluate_gap(
            self.state.last_record_id_seen,
            record_id,
            self.gap_detection(),
            rung.is_deliberate_skip(),
        ) {
            GapVerdict::Gap { missing } => {
                effects.push(Effect::Notify(at, Notice::RecordIdGap { missing, record_id }));
            },
            GapVerdict::DeliberateSkip { missing } => {
                effects.push(
                    Effect::Notify(at, Notice::RecordIdGapExpected { missing, rung }),
                );
            },
            GapVerdict::Continuous | GapVerdict::Suppressed => {},
        }
        assert(effects@ =~= before + self@.gap_effects(at, record_id));
    }

    /// An event arrived as forwarded rendered text: record ids on this channel
    /// come from many machines.
    pub fn note_forwarded(&mut self)
        ensures
            final(self)@ == old(self)@.forwarded(),
    {
        self.state.rendered_delivery_seen = true;
        self.state.resume.mark_record_identity_unusable();
    }

    /// Count names that were absent from a publisher's table.
    pub fn note_misses(&mut self, misses: u32)
        ensures
            final(self)@ == old(self)@.names_missed(misses),
    {
        let count: u64 = self.state.name_table_misses;
        self.state.name_table_misses = count.saturating_add(misses as u64);
    }

    /// Take an event in, or withhold it where the one-shot skip is pending. In
    /// either case the position moves to it. Returns whether it is withheld.
    pub fn take_event(&mut self, at: usize, facts: EventFacts, effects: &mut Vec<Effect>) -> (withheld:
        bool)
        ensures
            withheld == old(self).state.resume.skip_next_record,
            withheld ==> {
                &&& final(self)@ == old(self)@.passed_poison(facts.time, facts.record_id)
                &&& final(effects)@ == old(effects)@
            },
            !withheld ==> {
                &&& final(self)@ == old(self)@.took_in(facts.time, facts.record_id)
                &&& final(effects)@ == old(effects)@ + old(self)@.gap_effects(
                    at,
                    facts.record_id,
                )
            },
    {
        if self.state.resume.take_poison_skip() {
            self.state.resume.observe_event(facts.time, facts.record_id);
            self.state.last_record_id_seen = Some(facts.record_id);
            return true;
        }
        self.report_gap(at, facts.record_id, effects);
        self.state.last_record_id_seen = Some(facts.record_id);
        self.state.resume.observe_event(facts.time, facts.record_id);
        self.state.last_event_at = Some(facts.time);
        false
    }

    /// The bookmark was moved, or could not be.
    pub fn note_bookmark(&mut self, ok: bool)
        ensures
            final(self)@ == old(self)@.bookmarked(ok),
    {
        if ok {
            self.state.bookmark_positioned = true;
        }
    }

    /// Start a periodic refresh: the next one is due at `next_refresh`, and a
    /// skipped channel gets another chance.
    pub fn begin_refresh(&mut self, next_refresh: Deadline)
        ensures
            final(self)@ == old(self)@.refreshed(next_refresh),
    {
        self.state.next_refresh = next_refresh;
        self.state.skipped_this_generation = None;
    }

    /// The text of the last event's time, or `never`.
    pub fn last_event_at_rfc3339(&self) -> (text: String)
        ensures
            text@ == match self.state.last_event_at {
                Some(t) => crate::time::rfc3339(t.secs(), t.nanos()),
                None => "never"@,
            },
    {
        match self.state.last_event_at {
            Some(t) => t.to_rfc3339(),
            None => "never".to_owned(),
        }
    }

    /// The position to store in a checkpoint. `bookmark_xml` is the serialized
    /// bookmark where it marks a position; a bookmark that marks none is never
    /// stored.
    pub fn position(&self, bookmark_xml: Option<String>) -> (position: Option<ChannelPosition>)
        ensures
            position is Some <==> bookmark_xml is Some,
            position matches Some(p) ==> is_position(p, self@, (bookmark_xml->0)@),
    {
        match bookmark_xml {
            None => None,
            Some(xml) => {
                let last_event_time: Option<String> = match self.state.resume.last_event_time {
                    Some(t) => Some(t.to_rfc3339_zulu(true)),
                    None => None,
                };
                Some(
                    ChannelPosition {
                        channel: self.channel.clone(),
                        bookmark_xml: xml,
                        last_event_time,
                        last_record_id: self.state.resume.last_record_id,
                    },
                )
            },
        }
    }

    /// Everything the status file says about this channel. `stats` is read fresh
    /// from the channel.
    pub fn status(&self, stats: Option<ChannelRecordStats>) -> (status: ChannelStatus)
        ensures
            status_describes(status, self@, stats),
    {
        let skipped_reason: Option<String> = match self.state.skipped_this_generation {
            Some(reason) => Some(reason.as_str().to_owned()),
            None => None,
        };
        let mut gaps: Vec<GapRecord> = Vec::new();
        let mut i: usize = 0;
        while i < self.gaps.len()
            invariant
                i <= self.gaps@.len(),
                gaps@ == self.gaps@.take(i as int),
            decreases self.gaps.len() - i,
        {
            gaps.push(self.gaps[i].clone());
            assert(gaps@ =~= self.gaps@.take(i + 1));
            i += 1;
        }
        assert(gaps@ =~= self.gaps@);
        ChannelStatus {
            subscribed: self.state.subscription_handle.is_some(),
            skipped_reason,
            rung: self.state.resume.rung.as_str().to_owned(),
            last_event_at: opt_rfc3339(self.state.last_event_at),
            last_drained_at: opt_rfc3339(self.state.last_drained_at),
            last_record_id: self.state.resume.last_record_id,
            newest_record_id: newest_record_estimate(stats, self.state.resume.last_record_id),
            query_filters: self.query_filters,
            bookmark_positioned: self.state.bookmark_positioned,
            retry_attempt: self.state.backoff.attempt(),
            name_table_misses: self.state.name_table_misses,
            gaps,
        }
    }
}

/// Whether a position is that of a channel with the given bookmark. A restart
/// reads the same time and record id back from it, for times in the years that
/// its text can express.
pub open spec fn is_position(
    position: ChannelPosition,
    channel: ChannelView,
    bookmark_xml: Seq<char>,
) -> bool {
    let resume = channel.state.resume;
    &&& position.channel@ == channel.channel
    &&& position.bookmark_xml@ == bookmark_xml
    &&& crate::status::opt_chars(position.last_event_time) == match resume.last_event_time {
        Some(t) => Some(crate::time::rfc3339_zulu(t.secs(), t.nanos(), true)),
        None => None,
    }
    &&& position.last_record_id == resume.last_record_id
    &&& (resume.position() matches Some((t, id)) ==> crate::time::in_rfc3339_years(t.secs())
        ==> stored_position(
        crate::status::opt_chars(position.last_event_time),
        position.last_record_id,
    ) == Some(((t.secs(), t.nanos()), id)))
}

/// Whether a status says exactly what is known of a channel.
pub open spec fn status_describes(
    status: ChannelStatus,
    channel: ChannelView,
    stats: Option<ChannelRecordStats>,
) -> bool {
    let state = channel.state;
    &&& status.subscribed == (state.subscription_handle is Some)
    &&& crate::status::opt_chars(status.skipped_reason) == match state.skipped_this_generation {
        Some(reason) => Some(crate::win32_errors::skip_reason_slug(reason)),
        None => None,
    }
    &&& status.rung@ == crate::recovery::rung_name(state.resume.rung)
    &&& crate::status::opt_chars(status.last_event_at) == crate::status::opt_status_time(
        state.last_event_at,
    )
    &&& crate::status::opt_chars(status.last_drained_at) == crate::status::opt_status_time(
        state.last_drained_at,
    )
    &&& status.last_record_id == state.resume.last_record_id
    &&& status.newest_record_id == crate::status::newest_estimate(
        stats,
        state.resume.last_record_id,
    )
    &&& status.query_filters == channel.query_filters
    &&& status.bookmark_positioned == state.bookmark_positioned
    &&& status.retry_attempt == state.backoff.attempt
    &&& status.name_table_misses == state.name_table_misses
    &&& crate::status::gap_views(status.gaps@) == channel.gaps
}

// ---------------------------------------------------------------------------
// Laws
// ---------------------------------------------------------------------------
/// The subscription handles that are closed, in order.
pub open spec fn closed_subscriptions(effects: Seq<Effect>) -> Seq<i64>
    decreases effects.len(),
{
    if effects.len() == 0 {
        Seq::empty()
    } else {
        let before = closed_subscriptions(effects.drop_last());
        match effects.last() {
            Effect::CloseSubscription(handle) => before.push(handle),
            _ => before,
        }
    }
}

/// The subscription handle that a channel holds, as a list of at most one.
pub open spec fn held(state: ChannelState) -> Seq<i64> {
    match state.subscription_handle {
        Some(handle) => seq![handle],
        None => Seq::empty(),
    }
}

/// Closing one list of handles after another closes both.
pub proof fn closed_subscriptions_of_a_concatenation(a: Seq<Effect>, b: Seq<Effect>)
    ensures
        closed_subscriptions(a + b) == closed_subscriptions(a) + closed_subscriptions(b),
    decreases b.len(),
{
    if b.len() == 0 {
        assert(a + b =~= a);
        assert(closed_subscriptions(a) + closed_subscriptions(b) =~= closed_subscriptions(a));
    } else {
        assert((a + b).drop_last() =~= a + b.drop_last());
        closed_subscriptions_of_a_concatenation(a, b.drop_last());
        assert(closed_subscriptions(a + b) =~= closed_subscriptions(a) + closed_subscriptions(b));
    }
}

proof fn lemma_closes(state: ChannelState, notice: Effect, rest: Seq<Effect>)
    requires
        notice is Notify,
        closed_subscriptions(rest) == Seq::<i64>::empty(),
    ensures
        closed_subscriptions(state.close_effects()) == held(state),
        closed_subscriptions(state.close_effects().push(notice)) == held(state),
        closed_subscriptions(state.close_effects() + rest) == held(state),
        closed_subscriptions(state.close_effects().push(notice) + rest) == held(state),
        closed_subscriptions(seq![notice]) == Seq::<i64>::empty(),
{
    reveal_with_fuel(closed_subscriptions, 3);
    let close = state.close_effects();
    if state.subscription_handle is Some {
        assert(close.drop_last() =~= Seq::<Effect>::empty());
    }
    assert(closed_subscriptions(close) =~= held(state));
    assert(close.push(notice).drop_last() =~= close);
    assert(seq![notice].drop_last() =~= Seq::<Effect>::empty());
    closed_subscriptions_of_a_concatenation(close, rest);
    closed_subscriptions_of_a_concatenation(close.push(notice), rest);
    assert(held(state) + Seq::<i64>::empty() =~= held(state));
}

/// A live subscription survives the failure of its proactive replacement: the
/// channel keeps the same handle, stays in service, and closes nothing.
pub proof fn live_subscription_survives_a_failed_replacement(
    channel: ChannelView,
    at: usize,
    code: u32,
    origin: QueryOrigin,
    cause: Cause,
    now: Tick,
    utc: Timestamp,
)
    requires
        channel.state.subscription_handle is Some,
    ensures
        ({
            let failed = channel.rebuild_failed(
                at,
                code,
                origin,
                RebuildKind::Proactive,
                cause,
                now,
                utc,
            );
            &&& failed.0.state.subscription_handle == channel.state.subscription_handle
            &&& failed.0.state.skipped_this_generation == channel.state.skipped_this_generation
            &&& failed.0.state.resume == channel.state.resume
            &&& failed.0.gaps == channel.gaps
            &&& closed_subscriptions(failed.1) == Seq::<i64>::empty()
        }),
{
    reveal(ChannelView::rebuild_failed);
    let notice = Effect::Notify(at, Notice::ProactiveRebuildFailed { cause, code });
    lemma_closes(channel.state, notice, Seq::empty());
}

/// Every subscription handle is closed once or still held: a successful rebuild
/// closes exactly the handle that it replaces, and a failed one either keeps the
/// handle or closes it.
pub proof fn rebuilds_conserve_subscription_handles(
    channel: ChannelView,
    at: usize,
    handle: i64,
    code: u32,
    origin: QueryOrigin,
    kind: RebuildKind,
    cause: Cause,
    now: Tick,
    utc: Timestamp,
)
    ensures
        ({
            let done = channel.resubscribed(at, handle, origin, cause);
            &&& closed_subscriptions(done.1) == held(channel.state)
            &&& held(done.0.state) == seq![handle]
        }),
        ({
            let failed = channel.rebuild_failed(at, code, origin, kind, cause, now, utc);
            closed_subscriptions(failed.1) + held(failed.0.state) == held(channel.state)
        }),
{
    reveal(ChannelView::resubscribed);
    reveal(ChannelView::rebuild_failed);
    let state = channel.state;
    let done = channel.resubscribed(at, handle, origin, cause);
    lemma_closes(state, done.1.last(), Seq::empty());
    let failed = channel.rebuild_failed(at, code, origin, kind, cause, now, utc);
    if kind == RebuildKind::Proactive && state.subscription_handle is Some {
        lemma_closes(state, failed.1.last(), Seq::empty());
        assert(Seq::<i64>::empty() + held(state) =~= held(state));
    } else {
        let last = failed.1.last();
        lemma_closes(state, last, Seq::empty());
        lemma_closes(state, last, seq![last]);
        assert(held(state) + held(failed.0.state) =~= held(state));
        match crate::win32_errors::subscribe_outcome(code, origin) {
            SubscribeOutcome::BookmarkDead => {
                lemma_closes(state, failed.1[state.close_effects().len() as int], seq![last]);
            },
            SubscribeOutcome::GeneratedQueryInvalid => {
                lemma_closes(state, failed.1[state.close_effects().len() as int], seq![last]);
            },
            _ => {},
        }
    }
}

/// A channel that is torn down or skipped closes the handle it held, once.
pub proof fn leaving_service_closes_the_subscription(
    channel: ChannelView,
    at: usize,
    code: u32,
    reason: SkipReason,
    now: Tick,
    utc: Timestamp,
)
    ensures
        closed_subscriptions(channel.torn_down(at, code, now, utc).1) == held(channel.state),
        channel.torn_down(at, code, now, utc).0.state.subscription_handle is None,
        closed_subscriptions(channel.skipped(at, reason, code).1) == held(channel.state),
        channel.skipped(at, reason, code).0.state.subscription_handle is None,
{
    reveal(ChannelView::torn_down);
    let state = channel.state;
    let skip = channel.skipped(at, reason, code).1;
    lemma_closes(state, skip.last(), Seq::empty());
    let down = channel.torn_down(at, code, now, utc).1;
    let last = down.last();
    lemma_closes(state, last, Seq::empty());
    lemma_closes(state, last, seq![last]);
    let noted = state.resume.after_rebuild();
    if noted.is_stuck() {
        let escape = seq![down[0]];
        lemma_closes(state, down[0], Seq::empty());
        closed_subscriptions_of_a_concatenation(escape, state.close_effects() + seq![last]);
        assert(down =~= escape + (state.close_effects() + seq![last]));
        assert(Seq::<i64>::empty() + held(state) =~= held(state));
    } else {
        assert(down =~= state.close_effects() + seq![last]);
    }
}

/// No channel is silently lost: one that comes out of a failure without a
/// subscription is either marked skipped or has a retry armed.
pub proof fn failed_channels_are_skipped_or_retried(
    channel: ChannelView,
    at: usize,
    code: u32,
    origin: QueryOrigin,
    kind: RebuildKind,
    cause: Cause,
    now: Tick,
    utc: Timestamp,
)
    ensures
        ({
            let state = channel.rebuild_failed(at, code, origin, kind, cause, now, utc).0.state;
            state.subscription_handle is Some || state.skipped_this_generation is Some
                || state.retry_at is Some
        }),
        channel.torn_down(at, code, now, utc).0.state.retry_at is Some,
{
    reveal(ChannelView::rebuild_failed);
    reveal(ChannelView::torn_down);
}

/// A failure never moves the position of the last event, whatever rung reading
/// resumes on.
pub proof fn failures_never_move_the_position(
    channel: ChannelView,
    at: usize,
    code: u32,
    origin: QueryOrigin,
    kind: RebuildKind,
    cause: Cause,
    now: Tick,
    utc: Timestamp,
)
    ensures
        channel.rebuild_failed(at, code, origin, kind, cause, now, utc).0.state.resume.position()
            == channel.state.resume.position(),
        channel.torn_down(at, code, now, utc).0.state.resume.position()
            == channel.state.resume.position(),
{
    reveal(ChannelView::rebuild_failed);
    reveal(ChannelView::torn_down);
}

/// A channel that is back in service is out of its episode, its backoff starts
/// over, and it is no longer skipped.
pub proof fn success_ends_the_episode(
    channel: ChannelView,
    at: usize,
    handle: i64,
    origin: QueryOrigin,
    cause: Cause,
)
    ensures
        ({
            let state = channel.resubscribed(at, handle, origin, cause).0.state;
            &&& state.live()
            &&& state.episode == EpisodeState::calm()
            &&& state.backoff.attempt == 0
            &&& state.resume == channel.state.resume
        }),
{
    reveal(ChannelView::resubscribed);
}

/// What a checkpoint stores is what a restart resumes from: the time and the
/// record id of the last event, for times in the years that the stored text can
/// express.
pub proof fn checkpoints_restore_the_position(
    channel: ChannelView,
    bookmark_xml: Seq<char>,
    stored: ChannelPosition,
    restored: ResumeState,
)
    requires
        is_position(stored, channel, bookmark_xml),
        channel.state.resume.position() matches Some((t, _)) && crate::time::in_rfc3339_years(
            t.secs(),
        ),
        resumes_at(
            restored,
            stored_position(
                crate::status::opt_chars(stored.last_event_time),
                stored.last_record_id,
            ),
        ),
    ensures
        restored.position() matches Some((t, id)) && {
            let (before, before_id) = channel.state.resume.position()->0;
            &&& t.secs() == before.secs()
            &&& t.nanos() == before.nanos()
            &&& id == before_id
        },
{
}

} // verus!
