//! Pulls against a host with made-up logs.

use std::collections::{HashMap, HashSet, VecDeque};

use windows_event_log::channel::{
    Cause, ChannelSeed, Effect, EventFacts, Notice, RebuildKind, Severity,
};
use windows_event_log::checkpoint::{Checkpointer, DirectoryOutcome, LoadOutcome};
use windows_event_log::config::{Resource, WindowsEventLogConfig};
use windows_event_log::error::WindowsEventLogError;
use windows_event_log::query::{
    EVT_SUBSCRIBE_START_AFTER_BOOKMARK, EVT_SUBSCRIBE_START_AT_OLDEST_RECORD, EVT_SUBSCRIBE_STRICT,
    EVT_SUBSCRIBE_TO_FUTURE_EVENTS,
};
use windows_event_log::recovery::{evaluate_gap, GapVerdict, Rung};
use windows_event_log::status::ChannelRecordStats;
use windows_event_log::subscription::{
    EventLogSubscription, PublisherHandle, Request, WaitResult, WAIT_OBJECT_0, WAIT_TIMEOUT,
};
use windows_event_log::time::{Tick, Timestamp};

/// The time of the first record of every log.
const EPOCH: i64 = 1_786_104_000;

#[derive(Clone, Copy)]
struct Record {
    id: u64,
    event_id: u32,
    /// Nanoseconds from the epoch.
    at: i64,
    forwarded: bool,
}

impl Record {
    fn time(&self) -> Timestamp {
        Timestamp::new(
            EPOCH + self.at.div_euclid(1_000_000_000),
            self.at.rem_euclid(1_000_000_000) as u32,
        )
        .unwrap()
    }
}

/// A host with one log per channel.
struct Host {
    names: Vec<String>,
    logs: Vec<Vec<Record>>,
    /// Open subscriptions, with the records that each will still return.
    subscriptions: HashMap<i64, VecDeque<Record>>,
    /// Open event handles. A made-up one stands for no record.
    events: HashMap<i64, Option<Record>>,
    next_handle: i64,
    /// The record that each channel's bookmark marks.
    bookmarks: Vec<Option<u64>>,
    signals: Vec<bool>,
    shutdown: bool,
    now: Tick,
    reads: VecDeque<(u32, usize)>,
    subscribes: VecDeque<u32>,
    fail_renders: bool,
    fail_bookmarks: bool,
    signal_while_reading: bool,
    in_hand: Option<Record>,
    // What was observed.
    flags: Vec<u32>,
    queries: Vec<String>,
    requests: Vec<(usize, usize)>,
    returned: usize,
    sent: Vec<Record>,
    notices: Vec<(usize, Notice)>,
    record_updates: usize,
    subscription_closes: usize,
    event_closes: usize,
}

fn hresult(code: u32) -> i32 {
    (0x8007_0000u32 | code) as i32
}

impl Host {
    fn new(names: &[&str], records: u64) -> Host {
        let mut logs = Vec::new();
        for channel in 0..names.len() as u64 {
            logs.push(
                (0..records)
                    .map(|i| Record {
                        id: 1000 * channel + i + 1,
                        event_id: 100 + (i % 3) as u32,
                        at: i as i64 * 1_000_000_000,
                        forwarded: false,
                    })
                    .collect(),
            );
        }
        Host {
            names: names.iter().map(|n| n.to_string()).collect(),
            logs,
            subscriptions: HashMap::new(),
            events: HashMap::new(),
            next_handle: 1,
            bookmarks: vec![None; names.len()],
            signals: vec![true; names.len()],
            shutdown: false,
            now: Tick {
                nanos: 1_000_000_000_000,
            },
            reads: VecDeque::new(),
            subscribes: VecDeque::new(),
            fail_renders: false,
            fail_bookmarks: false,
            signal_while_reading: false,
            in_hand: None,
            flags: Vec::new(),
            queries: Vec::new(),
            requests: Vec::new(),
            returned: 0,
            sent: Vec::new(),
            notices: Vec::new(),
            record_updates: 0,
            subscription_closes: 0,
            event_closes: 0,
        }
    }

    fn handle(&mut self) -> i64 {
        self.next_handle += 1;
        self.next_handle
    }

    fn utc(&self) -> Timestamp {
        Timestamp::new(EPOCH + 1_000_000, 0).unwrap()
    }

    fn advance(&mut self, millis: u64) {
        self.now.nanos += millis * 1_000_000;
    }

    /// The time bound that a query carries, in nanoseconds from the epoch.
    fn floor(query: &str) -> Option<i64> {
        let start = query
            .find("@SystemTime>='")
            .map(|i| i + 14)
            .or_else(|| query.find("@SystemTime&lt;'").map(|i| i + 16))?;
        let rest = &query[start..];
        let stamp = &rest[..rest.find('\'').unwrap()];
        let time = chrono::DateTime::parse_from_rfc3339(stamp).unwrap();
        Some(
            (time.timestamp() - EPOCH) * 1_000_000_000 + i64::from(time.timestamp_subsec_nanos()),
        )
    }

    fn subscribe(
        &mut self,
        channel: usize,
        query: &str,
        use_bookmark: bool,
        flags: u32,
    ) -> Result<i64, i32> {
        self.flags.push(flags);
        self.queries.push(query.to_string());
        if let Some(code) = self.subscribes.pop_front() {
            if code != 0 {
                return Err(hresult(code));
            }
        }
        let log = &self.logs[channel];
        let records: VecDeque<Record> = match flags {
            EVT_SUBSCRIBE_TO_FUTURE_EVENTS => VecDeque::new(),
            EVT_SUBSCRIBE_START_AT_OLDEST_RECORD => {
                let floor = Host::floor(query).unwrap_or(i64::MIN);
                log.iter().filter(|r| r.at >= floor).copied().collect()
            }
            _ => {
                assert!(use_bookmark);
                let mark = self.bookmarks[channel].expect("a strict resume needs a position");
                log.iter().filter(|r| r.id > mark).copied().collect()
            }
        };
        let handle = self.handle();
        self.subscriptions.insert(handle, records);
        Ok(handle)
    }

    fn read(&mut self, handle: i64, size: usize) -> Result<Vec<i64>, (i32, Vec<i64>)> {
        if self.signal_while_reading {
            self.signals[0] = true;
        }
        if let Some((code, count)) = self.reads.pop_front() {
            let mut handles = Vec::new();
            for _ in 0..count {
                let event = self.handle();
                self.events.insert(event, None);
                handles.push(event);
            }
            return if code == 0 {
                Ok(handles)
            } else {
                Err((hresult(code), handles))
            };
        }
        let mut handles = Vec::new();
        while handles.len() < size {
            let queue = self.subscriptions.get_mut(&handle).expect("an open handle");
            match queue.pop_front() {
                Some(record) => {
                    let event = self.handle();
                    self.events.insert(event, Some(record));
                    handles.push(event);
                }
                None => break,
            }
        }
        self.returned += handles.len();
        if handles.is_empty() {
            return Err((hresult(259), handles));
        }
        Ok(handles)
    }

    fn apply(&mut self, effects: &mut Vec<Effect>) {
        for effect in effects.drain(..) {
            match effect {
                Effect::CloseSubscription(handle) => {
                    assert!(self.subscriptions.remove(&handle).is_some(), "closed twice");
                    self.subscription_closes += 1;
                }
                Effect::CloseEvent(handle) => {
                    assert!(self.events.remove(&handle).is_some(), "closed twice");
                    self.event_closes += 1;
                }
                Effect::ResetSignal(channel) => self.signals[channel] = false,
                Effect::SetSignal(channel) => self.signals[channel] = true,
                Effect::UpdateRecords(_) => self.record_updates += 1,
                Effect::Send => self.sent.push(self.in_hand.expect("an event in hand")),
                Effect::Notify(channel, notice) => self.notices.push((channel, notice)),
            }
        }
    }

    /// Serialized bookmarks, for the channels whose bookmark marks a record.
    fn bookmark_xml(&self, channel: usize) -> Option<String> {
        self.bookmarks[channel].map(|id| {
            format!(
                "<BookmarkList><Bookmark Channel='{}' RecordId='{id}'/></BookmarkList>",
                self.names[channel]
            )
        })
    }

    /// Make the bookmarks anew from a checkpoint, as a start does.
    fn seeds(&mut self, checkpointer: &Checkpointer) -> Vec<ChannelSeed> {
        let mut seeds = Vec::new();
        for channel in 0..self.names.len() {
            let checkpoint = checkpointer.get(&self.names[channel]);
            self.bookmarks[channel] = checkpoint.as_ref().and_then(|c| {
                let start = c.bookmark_xml.find("RecordId='")? + 10;
                let rest = &c.bookmark_xml[start..];
                rest[..rest.find('\'')?].parse().ok()
            });
            seeds.push(ChannelSeed::from_checkpoint(
                checkpoint.as_ref(),
                self.bookmarks[channel].is_some(),
                7 + channel as i64,
            ));
        }
        seeds
    }

    fn wait(&self) -> u32 {
        if self.shutdown {
            return WAIT_OBJECT_0;
        }
        match self.signals.iter().position(|s| *s) {
            Some(channel) => 1 + channel as u32,
            None => WAIT_TIMEOUT,
        }
    }

    /// Warnings and errors so far.
    fn warnings(&self) -> Vec<Notice> {
        self.notices
            .iter()
            .map(|(_, notice)| *notice)
            .filter(|notice| notice.severity() != Severity::Debug)
            .collect()
    }

    fn sizes(&self) -> Vec<usize> {
        self.requests.iter().map(|(_, size)| *size).collect()
    }
}

struct Source {
    host: Host,
    subscription: EventLogSubscription,
}

fn no_checkpoint() -> Checkpointer {
    Checkpointer::new(DirectoryOutcome::Created, LoadOutcome::NotFound).unwrap()
}

fn config_for(host: &Host) -> WindowsEventLogConfig {
    WindowsEventLogConfig {
        channels: host.names.clone(),
        read_existing_events: true,
        ..Default::default()
    }
}

impl Source {
    fn open(mut host: Host, config: &WindowsEventLogConfig, checkpointer: &Checkpointer) -> Source {
        let seeds = host.seeds(checkpointer);
        let subscription = EventLogSubscription::new(config, &seeds, host.now).unwrap();
        let mut source = Source { host, subscription };
        let mut effects = Vec::new();
        let now = source.host.now;
        let request = source.subscription.start(now, &mut effects);
        source.run(request, effects);
        source
    }

    fn application(records: u64) -> Source {
        let host = Host::new(&["Application"], records);
        let config = config_for(&host);
        Source::open(host, &config, &no_checkpoint())
    }

    fn with_config(records: u64, change: impl Fn(&mut WindowsEventLogConfig)) -> Source {
        let host = Host::new(&["Application"], records);
        let mut config = config_for(&host);
        change(&mut config);
        Source::open(host, &config, &no_checkpoint())
    }

    /// Answer requests until there is none left.
    fn run(&mut self, mut request: Request, mut effects: Vec<Effect>) {
        loop {
            self.host.apply(&mut effects);
            let (now, utc) = (self.host.now, self.host.utc());
            request = match request {
                Request::Done => return,
                Request::Subscribe {
                    channel,
                    query,
                    use_bookmark,
                    flags,
                } => match self.host.subscribe(channel, &query, use_bookmark, flags) {
                    Ok(handle) => self.subscription.subscribed(handle, now, &mut effects),
                    Err(code) => self
                        .subscription
                        .subscribe_failed(code, now, utc, &mut effects),
                },
                Request::ReadBatch {
                    channel,
                    handle,
                    size,
                } => {
                    self.host.requests.push((channel, size));
                    match self.host.read(handle, size) {
                        Ok(handles) => self.subscription.read(handles, now, utc, &mut effects),
                        Err((code, handles)) => self
                            .subscription
                            .read_failed(code, &handles, now, utc, &mut effects),
                    }
                }
                Request::Render { handle } => {
                    let record = self.host.events[&handle];
                    self.host.in_hand = record;
                    match record {
                        Some(record) if !self.host.fail_renders => {
                            self.subscription
                                .rendered(record.event_id, now, &mut effects)
                        }
                        _ => self.subscription.render_failed(),
                    }
                }
                Request::Resolve { handle } => {
                    let record = self.host.events[&handle].unwrap();
                    let facts = EventFacts {
                        time: record.time(),
                        record_id: record.id,
                    };
                    self.subscription.resolved(
                        record.forwarded,
                        0,
                        Some(facts),
                        now,
                        &mut effects,
                    )
                }
                Request::UpdateBookmark { channel, handle } => {
                    let ok = !self.host.fail_bookmarks;
                    if let (true, Some(record)) = (ok, self.host.events[&handle]) {
                        self.host.bookmarks[channel] = Some(record.id);
                    }
                    self.subscription.bookmarked(ok, now, &mut effects)
                }
            };
        }
    }

    fn pull(&mut self, max_events: usize) -> Vec<u64> {
        let before = self.host.sent.len();
        let mut effects = Vec::new();
        let now = self.host.now;
        let request = self.subscription.pull_events(max_events, now, &mut effects);
        self.run(request, effects);
        self.host.sent[before..].iter().map(|r| r.id).collect()
    }

    fn pull_speculative(&mut self, max_events: usize) {
        let mut effects = Vec::new();
        let now = self.host.now;
        let request = self
            .subscription
            .pull_events_speculative(max_events, now, &mut effects);
        self.run(request, effects);
    }

    fn drain_all(&mut self) -> Vec<u64> {
        let mut seen = Vec::new();
        for _ in 0..64 {
            let batch = self.pull(usize::MAX);
            if batch.is_empty() {
                break;
            }
            seen.extend(batch);
        }
        seen
    }

    fn pull_with(&mut self, script: &[(u32, usize)], max_events: usize) -> Vec<u64> {
        self.host.reads = script.iter().copied().collect();
        let events = self.pull(max_events);
        self.host.reads.clear();
        events
    }

    /// Rebuild every channel at once, whatever it waits for.
    fn rebuild(&mut self, kind: RebuildKind) {
        let mut effects = Vec::new();
        for at in 0..self.subscription.channels.len() {
            let (now, utc) = (self.host.now, self.host.utc());
            let channel = &mut self.subscription.channels[at];
            let mut attempt = channel.begin_rebuild();
            let mut result =
                self.host
                    .subscribe(at, &attempt.query, attempt.use_bookmark, attempt.flags);
            if result.is_err() && attempt.falls_back {
                attempt = channel
                    .factory
                    .build_fallback(attempt.use_bookmark, attempt.flags);
                result =
                    self.host
                        .subscribe(at, &attempt.query, attempt.use_bookmark, attempt.flags);
            }
            match result {
                Ok(handle) => {
                    channel.finish_rebuild(at, handle, attempt.origin, Cause::Retry, &mut effects)
                }
                Err(code) => channel.fail_rebuild(
                    at,
                    (code as u32) & 0xFFFF,
                    attempt.origin,
                    kind,
                    Cause::Retry,
                    now,
                    utc,
                    &mut effects,
                ),
            }
            self.host.apply(&mut effects);
        }
    }

    fn rebuild_with(&mut self, kind: RebuildKind, codes: &[u32]) {
        for code in codes {
            self.host.subscribes = VecDeque::from(vec![*code]);
            self.rebuild(kind);
        }
        self.host.subscribes.clear();
    }

    fn is_live(&self) -> bool {
        self.subscription.channels[0].is_live()
    }

    fn rung(&self) -> Rung {
        self.subscription.channels[0].state.resume.rung
    }

    fn resumes_by_time(&self) -> bool {
        matches!(self.rung(), Rung::TimeAdvance(_))
    }

    fn reports_gaps(&self) -> bool {
        matches!(
            evaluate_gap(
                Some(1),
                5,
                self.subscription.channels[0].gap_detection(),
                false
            ),
            GapVerdict::Gap { .. }
        )
    }

    fn can_skip_one_record(&self) -> bool {
        let mut probe = self.subscription.channels[0].state.resume;
        probe.advance_rung();
        probe.advance_rung() == Rung::SkipRecord
    }

    fn wait(&self) -> WaitResult {
        self.subscription.wait_for_events_blocking(self.host.wait())
    }

    /// Write the positions to a checkpoint.
    fn flush(&self, checkpointer: &mut Checkpointer) {
        let bookmarks = (0..self.host.names.len())
            .map(|channel| self.host.bookmark_xml(channel))
            .collect();
        let positions = self.subscription.flush_bookmarks(bookmarks);
        checkpointer.set_batch(&positions, self.host.utc());
    }

    /// Stop, and hand the host back.
    fn stop(mut self) -> Host {
        let mut effects = Vec::new();
        self.subscription.close_all(&mut effects);
        self.host.apply(&mut effects);
        assert!(self.host.subscriptions.is_empty());
        self.host
    }
}

#[test]
fn test_rate_limiter_configuration() {
    let mut config = WindowsEventLogConfig::default();
    assert_eq!(config.events_per_second, 0);
    assert_eq!(config.rate_limit(), None);

    config.events_per_second = 1000;
    assert_eq!(config.events_per_second, 1000);
    assert_eq!(config.rate_limit(), Some(1000));
}

#[test]
fn test_rate_limiter_disabled_by_default() {
    let config = WindowsEventLogConfig::default();
    assert_eq!(
        config.events_per_second, 0,
        "Rate limiting should be disabled by default"
    );
    assert_eq!(config.rate_limit(), None);
}

#[test]
fn channels_are_claimed_and_acknowledgements_are_possible() {
    let config = WindowsEventLogConfig {
        channels: vec!["System".to_string(), "Setup".to_string()],
        ..Default::default()
    };
    assert_eq!(
        config.resources(),
        vec![
            Resource::DiskBuffer("System".to_string()),
            Resource::DiskBuffer("Setup".to_string())
        ]
    );
    assert!(config.can_acknowledge());
}

#[test]
fn test_pull_subscription_creation() {
    let source = Source::application(3);
    assert_eq!(
        source.subscription.channels.len(),
        1,
        "Should have one channel subscription"
    );
}

#[test]
fn a_configuration_without_channels_is_an_error() {
    let result = EventLogSubscription::new(
        &WindowsEventLogConfig::default(),
        &Vec::new(),
        Tick { nanos: 0 },
    );
    match result {
        Err(WindowsEventLogError::ConfigError { message }) => assert_eq!(
            message,
            "No channels could be subscribed to. All channels may be inaccessible or \
             direct/analytic channels."
        ),
        Ok(_) => panic!("there is nothing to subscribe to"),
    }
}

#[test]
fn test_wait_for_events_timeout() {
    let mut source = Source::application(0);
    // Signals start out set, so that the first round reads.
    assert_eq!(source.wait(), WaitResult::EventsAvailable);
    source.pull(100);
    assert_eq!(source.wait(), WaitResult::Timeout);
    // A failed wait counts as a timeout.
    assert_eq!(
        source.subscription.wait_for_events_blocking(u32::MAX),
        WaitResult::Timeout
    );
    assert_eq!(
        source.subscription.wait_for_events_blocking(2),
        WaitResult::Timeout
    );
}

#[test]
fn test_shutdown_signal_wakes_wait() {
    let mut source = Source::application(0);
    source.pull(100);
    source.host.shutdown = true;
    assert_eq!(source.wait(), WaitResult::Shutdown);
}

#[test]
fn test_shutdown_signal_takes_priority_over_channel_signal() {
    let mut source = Source::application(3);
    assert!(source.host.signals[0]);
    source.host.shutdown = true;
    assert_eq!(source.wait(), WaitResult::Shutdown);
}

#[test]
fn test_pull_events_returns_events() {
    let mut source = Source::application(3);
    assert_eq!(source.wait(), WaitResult::EventsAvailable);
    assert_eq!(source.pull(100), vec![1, 2, 3]);
}

/// A container is parked and handed out again as long as it is not outsized.
#[test]
fn batch_buffer_is_recycled_across_pulls() {
    let source = Source::application(0);
    assert!(source.subscription.recycle_event_buffer(64, 0));
    assert!(source.subscription.recycle_event_buffer(64, 64));
    assert!(!source.subscription.recycle_event_buffer(63, 64));
}

#[test]
fn an_outsized_batch_container_is_not_parked_between_pulls() {
    let source = Source::with_config(0, |config| config.batch_size = 100);
    assert_eq!(source.subscription.recycle_capacity_limit(), 400);
    // Four batches' worth is kept; anything past it is not.
    assert!(source.subscription.recycle_event_buffer(400, 0));
    assert!(!source.subscription.recycle_event_buffer(4_001, 400));
    let source = Source::with_config(0, |config| config.batch_size = 0);
    assert_eq!(source.subscription.recycle_capacity_limit(), 1);
}

#[test]
fn test_multiple_concurrent_subscriptions() {
    let open = |name: &str| {
        let host = Host::new(&[name], 0);
        let config = config_for(&host);
        Source::open(host, &config, &no_checkpoint())
    };
    let (first, second) = (open("Application"), open("System"));
    assert_eq!(first.subscription.channels.len(), 1);
    assert_eq!(second.subscription.channels.len(), 1);
    assert_eq!(first.subscription.channels[0].channel, "Application");
    assert_eq!(second.subscription.channels[0].channel, "System");
}

#[test]
fn test_read_existing_events_false_only_receives_future_events() {
    let mut source = Source::with_config(5, |config| config.read_existing_events = false);
    assert!(source.pull(100).is_empty());
}

/// A checkpoint whose bookmark cannot be restored starts with a fresh one.
#[test]
fn test_checkpoint_with_invalid_bookmark_falls_back_gracefully() {
    let host = Host::new(&["Application"], 5);
    let config = config_for(&host);
    let mut checkpointer = no_checkpoint();
    checkpointer.set(
        "Application".to_string(),
        "not a bookmark".to_string(),
        host.utc(),
    );
    let mut source = Source::open(host, &config, &checkpointer);
    assert_eq!(source.pull(100).len(), 5);
}

/// Reading does not depend on the signal.
#[test]
fn test_pull_events_works_with_cleared_signal() {
    let mut source = Source::application(3);
    source.host.signals[0] = false;
    assert_eq!(source.wait(), WaitResult::Timeout);
    assert!(!source.pull(100).is_empty());
}

/// A signal that is set while a channel is being read survives the pull.
#[test]
fn test_pull_events_preserves_setevent_during_drain() {
    let mut source = Source::application(3);
    source.host.signal_while_reading = true;
    source.pull(usize::MAX);
    assert_eq!(source.wait(), WaitResult::EventsAvailable);
    // Without one, a drained channel is quiet.
    source.host.signal_while_reading = false;
    source.pull(usize::MAX);
    assert_eq!(source.wait(), WaitResult::Timeout);
}

#[test]
fn a_failed_proactive_rebuild_keeps_the_live_subscription() {
    let mut source = Source::application(5);
    assert!(source.is_live());
    let handle = source.subscription.channels[0].state.subscription_handle;

    source.rebuild_with(RebuildKind::Proactive, &[1722]);

    assert!(
        source.is_live(),
        "a failed proactive rebuild must not close the working subscription"
    );
    assert_eq!(
        source.subscription.channels[0].state.subscription_handle, handle,
        "the live handle must still be the one we started with"
    );
    assert!(!source.pull(usize::MAX).is_empty());
}

#[test]
fn a_failed_rebuild_from_dead_leaves_the_channel_down() {
    let mut source = Source::application(5);
    source.pull_with(&[(15007, 0)], 100);
    assert!(!source.is_live());
    source.rebuild_with(RebuildKind::FromDead, &[15007]);
    assert!(
        !source.is_live(),
        "nothing was live to preserve; the channel stays down and retries"
    );
}

#[test]
fn a_skipped_unrenderable_event_is_not_redelivered_after_a_restart() {
    let mut checkpointer = no_checkpoint();
    let host = Host::new(&["Application"], 5);
    let config = config_for(&host);
    let mut skipping = Source::open(host, &config, &checkpointer);
    skipping.host.fail_renders = true;
    assert!(
        skipping.pull(usize::MAX).is_empty(),
        "unprocessable events are not delivered"
    );
    assert!(
        skipping.is_live(),
        "one bad event must never tear down the subscription"
    );
    skipping.flush(&mut checkpointer);
    let mut host = skipping.stop();
    host.fail_renders = false;

    let mut restarted = Source::open(host, &config, &checkpointer);
    assert!(restarted.pull(usize::MAX).is_empty());
}

#[test]
fn one_episode_produces_exactly_one_onset_and_one_recovery() {
    let mut source = Source::application(5);

    source.pull_with(&[(15007, 0)], 100);
    assert!(!source.is_live());
    for _ in 0..6 {
        source.rebuild_with(RebuildKind::FromDead, &[15007]);
        assert!(!source.is_live());
    }
    source.rebuild(RebuildKind::FromDead);
    assert!(source.is_live());

    let lines = source.host.warnings();
    assert_eq!(
        lines.len(),
        2,
        "one episode must produce exactly one onset and one recovery, got: {lines:#?}"
    );
    assert_eq!(lines[0].severity(), Severity::Error);
    assert_eq!(lines[1].severity(), Severity::Warn);
    assert!(matches!(lines[1], Notice::Recovered { .. }));
}

#[test]
fn handle_count_returns_to_baseline_after_forced_rebuilds() {
    let mut source = Source::application(5);
    assert_eq!(source.host.subscriptions.len(), 1);
    for _ in 0..8 {
        source.rebuild(RebuildKind::FromDead);
        assert!(source.is_live());
        assert_eq!(source.host.subscriptions.len(), 1);
    }
}

#[test]
fn evt_next_error_with_populated_handles_discards_them() {
    let mut source = Source::application(5);
    let events = source.pull_with(&[(15011, 4)], 100);
    assert!(events.is_empty());
    assert_eq!(
        source.host.event_closes, 4,
        "all four slots returned alongside the error must be discarded"
    );
    assert!(source.host.events.is_empty());
    assert!(!source.is_live());
}

/// A read that says "nothing left" and still brings handles closes them all, and
/// leaves the subscription alone.
#[test]
fn handles_beside_the_end_of_a_channel_are_closed() {
    let mut source = Source::application(5);
    let events = source.pull_with(&[(259, 3)], 100);
    assert!(events.is_empty());
    assert_eq!(source.host.event_closes, 3);
    assert!(source.host.events.is_empty());
    assert!(source.is_live());
}

#[test]
fn benign_invalid_operation_does_not_tear_down() {
    let mut source = Source::application(5);
    source.pull_with(&[(4317, 0)], 100);
    assert!(
        source.is_live(),
        "4317 with a zero returned count must leave the subscription alone"
    );
    assert_eq!(source.host.event_closes, 0);
}

#[test]
fn unknown_codes_rebuild_and_recover() {
    let mut source = Source::application(5);
    source.pull_with(&[(60123, 0)], 100);
    assert!(
        !source.is_live(),
        "an unknown code must rebuild rather than retry the same handle"
    );
    source.rebuild(RebuildKind::FromDead);
    assert!(source.is_live(), "the channel must come back on its own");
}

#[test]
fn rebuild_does_not_redeliver_events() {
    let mut source = Source::application(5);
    let first = source.pull(3);
    assert_eq!(first, vec![1, 2, 3]);
    source.rebuild(RebuildKind::FromDead);
    assert_eq!(source.pull(usize::MAX), vec![4, 5]);
}

#[test]
fn bookmark_resume_passes_start_after_bookmark_and_strict() {
    let mut source = Source::application(5);
    assert!(!source.drain_all().is_empty());
    source.host.flags.clear();
    source.rebuild(RebuildKind::FromDead);
    assert_eq!(
        source.host.flags,
        vec![EVT_SUBSCRIBE_START_AFTER_BOOKMARK | EVT_SUBSCRIBE_STRICT],
        "a bookmark resume must subscribe with StartAfterBookmark AND Strict"
    );
    assert_ne!(source.host.flags[0] & EVT_SUBSCRIBE_STRICT, 0);
}

#[test]
fn oldest_and_future_only_resume_modes_pass_their_exact_flag() {
    let source = Source::application(5);
    assert_eq!(
        source.host.flags,
        vec![EVT_SUBSCRIBE_START_AT_OLDEST_RECORD]
    );
    let source = Source::with_config(5, |config| config.read_existing_events = false);
    assert_eq!(source.host.flags, vec![EVT_SUBSCRIBE_TO_FUTURE_EVENTS]);
}

#[test]
fn a_failed_rebuild_from_dead_closes_a_live_subscription() {
    let mut source = Source::application(5);
    assert!(source.is_live());
    source.rebuild_with(RebuildKind::FromDead, &[15007]);
    assert!(!source.is_live());
    assert!(source.host.subscriptions.is_empty());
}

#[test]
fn a_failed_proactive_rebuild_with_no_live_handle_still_classifies() {
    let mut source = Source::application(5);
    source.pull_with(&[(15007, 0)], 100);
    assert!(!source.is_live());
    source.host.notices.clear();
    source.rebuild_with(RebuildKind::Proactive, &[15000]);
    let lines = source.host.warnings();
    assert_eq!(lines.len(), 1, "{lines:#?}");
    assert!(matches!(lines[0], Notice::Skipped { code: 15000, .. }));
    assert_eq!(lines[0].severity(), Severity::Error);
}

#[test]
fn a_failed_proactive_rebuild_defers_the_next_refresh() {
    let mut source = Source::application(5);
    source.host.flags.clear();
    source.rebuild_with(RebuildKind::Proactive, &[1722; 7]);
    assert_eq!(source.host.flags.len(), 7, "the failed attempts themselves");
    assert!(source.is_live());
    source.pull(1);
    assert_eq!(
        source.host.flags.len(),
        7,
        "the deferred refresh is a capped backoff away, not immediate"
    );
    source.host.advance(60_000);
    source.pull(1);
    assert_eq!(source.host.flags.len(), 8);
}

#[test]
fn an_invalid_generated_query_at_subscribe_isolates_the_batch() {
    let mut source = Source::application(5);
    source.rebuild_with(RebuildKind::FromDead, &[15001]);
    source.rebuild(RebuildKind::FromDead);
    assert!(source.is_live());
    source.pull_with(&[(259, 0)], usize::MAX);
    assert_eq!(
        source.host.sizes(),
        vec![1],
        "the isolate rung must ask the API for exactly one record"
    );
}

fn three_channels() -> Source {
    let host = Host::new(&["Application", "System", "Setup"], 0);
    let config = config_for(&host);
    Source::open(host, &config, &no_checkpoint())
}

#[test]
fn the_per_channel_budget_divides_the_max_across_channels() {
    let mut source = three_channels();
    source.pull_with(&[(259, 0); 3], 60);
    assert_eq!(
        source.host.sizes().first().copied(),
        Some(20),
        "60 events across 3 channels is 20 per channel, not 60 and not 180"
    );
}

#[test]
fn a_small_budget_spread_thin_still_asks_for_a_worthwhile_batch() {
    let mut source = three_channels();
    source.pull_with(&[(259, 0); 3], 7);
    assert_eq!(
        source.host.sizes().first().copied(),
        Some(7),
        "the floor lifts a 2-per-channel share to 8, and the pull's own \
         remaining allowance of 7 caps the first request"
    );
}

#[test]
fn channels_are_drained_in_rotating_order() {
    let host = Host::new(&["Application", "System"], 0);
    let config = config_for(&host);
    let mut source = Source::open(host, &config, &no_checkpoint());
    for _ in 0..4 {
        source.pull(usize::MAX);
    }
    let channels: Vec<usize> = source.host.requests.iter().map(|(at, _)| *at).collect();
    assert_eq!(
        channels,
        vec![0, 1, 1, 0, 0, 1, 1, 0],
        "each call must start at the next channel and then wrap"
    );
}

#[test]
fn the_periodic_refresh_fires_when_due_and_then_reschedules_forward() {
    let mut source = Source::with_config(5, |config| {
        config.read_existing_events = false;
        config.subscription_refresh_secs = 1;
    });
    source.host.flags.clear();
    source.pull(1);
    assert_eq!(source.host.flags.len(), 0, "the refresh is not due yet");
    source.host.advance(1200);
    source.pull(1);
    assert_eq!(source.host.flags.len(), 1, "the refresh is due");
    source.pull(1);
    assert_eq!(
        source.host.flags.len(),
        1,
        "the next refresh is a full interval away"
    );
}

#[test]
fn a_down_channel_waits_out_its_backoff_then_recovers_and_drains() {
    let mut source = Source::application(5);
    source.pull_with(&[(15007, 0)], usize::MAX);
    assert!(!source.is_live());

    source.host.flags.clear();
    source.pull(usize::MAX);
    assert_eq!(source.host.flags.len(), 0, "the backoff has not passed");

    source.host.advance(1300);
    let events = source.pull(usize::MAX);
    assert_eq!(source.host.flags.len(), 1);
    assert!(source.is_live());
    assert!(
        !events.is_empty(),
        "a recovered channel must be drained in the SAME pull"
    );
}

#[test]
fn the_only_event_ids_prefilter_keeps_the_configured_ids() {
    let mut source = Source::with_config(6, |config| config.only_event_ids = Some(vec![101]));
    assert_eq!(source.drain_all(), vec![2, 5]);
    let mut source = Source::with_config(6, |config| config.ignore_event_ids = vec![101]);
    assert_eq!(source.drain_all(), vec![1, 3, 4, 6]);
    assert!(source.host.events.is_empty());
}

#[test]
fn reading_local_events_leaves_record_id_gap_detection_active() {
    let mut source = Source::application(5);
    assert!(!source.drain_all().is_empty());
    assert!(source.reports_gaps());
}

#[test]
fn the_admission_gate_emits_every_record_evtnext_returns() {
    let mut source = Source::application(250);
    let delivered = source.drain_all();
    assert_eq!(delivered.len(), source.host.returned);
    assert_eq!(delivered, (1..=250).collect::<Vec<u64>>());
}

#[test]
fn a_mid_batch_bookmark_failure_closes_each_handle_exactly_once() {
    let mut source = Source::application(5);
    source.host.fail_bookmarks = true;
    let delivered = source.pull(2);
    assert!(
        delivered.is_empty(),
        "an event whose position cannot be recorded is not delivered"
    );
    assert_eq!(source.host.event_closes, 2);
    assert!(source.host.events.is_empty());
}

#[test]
fn the_signal_is_rearmed_only_when_the_drain_exited_early() {
    let mut source = Source::application(5);
    assert_eq!(source.pull(1).len(), 1);
    assert_eq!(
        source.wait(),
        WaitResult::EventsAvailable,
        "an early exit must re-arm the signal"
    );
    source.pull_with(&[(259, 0)], usize::MAX);
    assert_eq!(
        source.wait(),
        WaitResult::Timeout,
        "a fully drained channel must not re-arm its own signal"
    );
}

#[test]
fn record_count_queries_are_skipped_on_idle_speculative_pulls() {
    let mut source = Source::application(0);
    source.pull_speculative(10);
    assert_eq!(source.host.record_updates, 0);
    source.pull(10);
    assert_eq!(source.host.record_updates, 1);
}

#[test]
fn the_deliberate_skip_drops_one_record_and_survives_a_restart() {
    let mut checkpointer = no_checkpoint();
    let host = Host::new(&["Application"], 8);
    let config = config_for(&host);
    let mut source = Source::open(host, &config, &checkpointer);
    assert_eq!(source.pull(3), vec![1, 2, 3]);
    let (poisoned, next_good) = (4, 5);

    // Two stuck detections: Bookmark -> IsolateOne -> SkipRecord.
    for _ in 0..6 {
        source.pull_with(&[(15011, 0)], usize::MAX);
        source.rebuild(RebuildKind::FromDead);
    }
    assert!(source.is_live());
    assert_eq!(source.rung(), Rung::SkipRecord);

    source.host.notices.clear();
    let delivered = source.drain_all();
    assert!(!delivered.contains(&poisoned));
    assert_eq!(delivered, vec![5, 6, 7, 8]);
    assert!(source.host.warnings().iter().any(|notice| matches!(
        notice,
        Notice::PoisonRecordSkipped { record_id: 4, .. }
    )));
    assert!(delivered.contains(&next_good));

    let gaps = &source.subscription.channels[0].gaps;
    let skip = gaps.iter().find(|gap| gap.cause == "skip_record").unwrap();
    assert!(skip.exact, "one record is an exact count");
    assert_eq!(skip.missing_records, Some(1));
    assert_eq!(
        skip.to, None,
        "the hole is bounded by a record, not by a time"
    );

    source.flush(&mut checkpointer);
    let host = source.stop();
    let mut restarted = Source::open(host, &config, &checkpointer);
    assert!(!restarted.drain_all().contains(&poisoned));
}

#[test]
fn the_periodic_refresh_is_what_un_skips_a_skipped_channel() {
    let mut source = Source::with_config(5, |config| config.subscription_refresh_secs = 1);
    source.pull_with(&[(15000, 0)], usize::MAX);
    assert!(!source.is_live());
    source.pull(usize::MAX);
    assert!(
        !source.is_live(),
        "the pull path must not retry a skipped channel"
    );
    source.host.advance(1200);
    source.pull(usize::MAX);
    assert!(
        source.is_live(),
        "the refresh must clear the skip and rebuild"
    );
}

#[test]
fn an_oversized_read_halves_the_batch_and_reopens_from_the_bookmark() {
    let mut source = Source::application(5);
    assert!(!source.drain_all().is_empty());
    source.host.requests.clear();
    source.host.flags.clear();

    source.pull_with(&[(1734, 0)], usize::MAX);
    assert_eq!(source.host.sizes(), vec![100]);
    assert_eq!(
        source.host.flags,
        vec![EVT_SUBSCRIBE_START_AFTER_BOOKMARK | EVT_SUBSCRIBE_STRICT]
    );
    assert!(source.is_live());
    assert_eq!(source.host.subscriptions.len(), 1);

    source.host.requests.clear();
    source.pull(usize::MAX);
    assert_eq!(
        source.host.sizes().first().copied(),
        Some(50),
        "the next read must ask for half as much"
    );
}

#[test]
fn repeated_oversized_reads_halve_the_batch_to_a_floor_of_one() {
    let mut source = Source::application(5);
    for _ in 0..8 {
        source.pull_with(&[(1734, 0)], usize::MAX);
    }
    assert_eq!(
        source.host.sizes(),
        vec![100, 50, 25, 12, 6, 3, 1, 1],
        "the batch halves on every oversized read and floors at one"
    );
}

#[test]
fn recovery_after_a_plain_batch_reduction_is_gradual() {
    let mut source = Source::application(5);
    source.pull_with(&[(1734, 0)], usize::MAX);
    source.host.requests.clear();

    // Nine clean batches: one short of the recovery threshold.
    let mut script = vec![(0u32, 1usize); 9];
    script.push((259, 0));
    source.pull_with(&script, usize::MAX);
    assert_eq!(
        source.host.sizes(),
        vec![50; 10],
        "nine clean batches is not enough; the size must not step up early"
    );

    source.host.requests.clear();
    source.pull_with(&[(0, 1), (259, 0)], usize::MAX);
    assert_eq!(
        source.host.sizes(),
        vec![50, 100],
        "the tenth consecutive clean batch steps the size back up"
    );
}

#[test]
fn recovery_after_a_poison_escape_rung_is_immediate() {
    let mut source = Source::application(5);
    assert!(!source.drain_all().is_empty());
    for _ in 0..3 {
        source.pull_with(&[(15011, 0)], usize::MAX);
        source.rebuild(RebuildKind::FromDead);
    }
    assert!(source.is_live());

    source.host.requests.clear();
    source.pull_with(&[(0, 1), (259, 0)], usize::MAX);
    assert_eq!(
        source.host.sizes(),
        vec![1, 100],
        "the first clean batch restores the configured size immediately"
    );
}

#[test]
fn no_events_are_lost_or_duplicated_across_the_halve_and_recover_cycle() {
    let mut source = Source::application(120);
    let mut delivered = Vec::new();
    for _ in 0..4 {
        source.pull_with(&[(1734, 0)], usize::MAX);
        delivered.extend(source.pull(30));
    }
    delivered.extend(source.drain_all());
    assert_eq!(delivered, (1..=120).collect::<Vec<u64>>());
}

#[test]
fn every_event_handle_evtnext_returns_is_closed_at_the_api() {
    let mut source = Source::application(120);
    let mut delivered = 0;
    for _ in 0..3 {
        delivered += source.pull(37).len();
        source.rebuild(RebuildKind::FromDead);
        assert!(source.is_live());
    }
    assert_eq!(delivered, 111);
    assert_eq!(source.host.event_closes, source.host.returned);
    assert!(source.host.events.is_empty());
}

/// A publisher handle is released exactly where there is one.
#[test]
fn a_dropped_publisher_handle_is_released_at_the_api() {
    assert!(PublisherHandle(42).is_open());
    assert!(!PublisherHandle(0).is_open());
}

#[test]
fn dropping_the_subscription_releases_every_handle_it_holds() {
    let source = Source::application(5);
    assert!(source.is_live());
    let host = source.stop();
    assert_eq!(host.subscription_closes, 1);
}

#[test]
fn a_checkpoint_position_belongs_to_the_channel_it_was_asked_for() {
    let host = Host::new(&["Application", "System"], 5);
    let config = config_for(&host);
    let mut source = Source::open(host, &config, &no_checkpoint());
    assert_eq!(source.drain_all().len(), 10);

    let position = |name: &str| {
        let bookmark = source
            .subscription
            .find_channel(name)
            .and_then(|at| source.host.bookmark_xml(at));
        source.subscription.channel_position(name, bookmark)
    };
    let first = position("Application").unwrap();
    let second = position("System").unwrap();
    assert_eq!(first.channel, "Application");
    assert_eq!(second.channel, "System");
    assert_ne!(first.bookmark_xml, second.bookmark_xml);
    assert_eq!(first.last_record_id, Some(5));
    assert_eq!(second.last_record_id, Some(1005));
    assert_eq!(
        first.last_event_time.as_deref(),
        Some("2026-08-07T12:00:04.000000000Z")
    );
    assert!(position("Channel-That-Is-Not-Configured").is_none());
    assert!(source
        .subscription
        .channel_position("Channel-That-Is-Not-Configured", Some("x".to_string()))
        .is_none());
}

/// Of two channels with one name, the first has the position.
#[test]
fn a_name_configured_twice_means_its_first_channel() {
    let host = Host::new(&["Application", "Application"], 5);
    let config = config_for(&host);
    let mut source = Source::open(host, &config, &no_checkpoint());
    assert_eq!(source.drain_all().len(), 10);
    assert_eq!(source.subscription.find_channel("Application"), Some(0));
    let position = source
        .subscription
        .channel_position("Application", Some("mark".to_string()))
        .unwrap();
    assert_eq!(position.last_record_id, Some(5));
    assert_eq!(position.bookmark_xml, "mark");
}

#[test]
fn a_bookmark_marking_no_position_is_never_checkpointed() {
    let mut source = Source::application(5);
    assert!(source
        .subscription
        .channel_position("Application", source.host.bookmark_xml(0))
        .is_none());
    let mut checkpointer = no_checkpoint();
    source.flush(&mut checkpointer);
    assert!(checkpointer.list().is_empty());

    assert!(!source.drain_all().is_empty());
    let position = source
        .subscription
        .channel_position("Application", source.host.bookmark_xml(0))
        .unwrap();
    assert!(position.bookmark_xml.contains("RecordId"));
    source.flush(&mut checkpointer);
    assert_eq!(checkpointer.list().len(), 1);
}

#[test]
fn the_terminal_resume_rung_is_an_error_and_the_others_are_warnings() {
    let mut fresh = Source::application(5);
    fresh.rebuild_with(RebuildKind::FromDead, &[15011]);
    let advanced = |source: &Source| {
        source
            .host
            .warnings()
            .into_iter()
            .find(|notice| matches!(notice, Notice::RungAdvanced { .. }))
            .unwrap()
    };
    let terminal = advanced(&fresh);
    assert!(matches!(
        terminal,
        Notice::RungAdvanced {
            rung: Rung::FutureOnly,
            ..
        }
    ));
    assert_eq!(terminal.severity(), Severity::Error);

    let mut positioned = Source::application(5);
    assert!(!positioned.drain_all().is_empty());
    positioned.rebuild_with(RebuildKind::FromDead, &[15011]);
    let time_rung = advanced(&positioned);
    assert_eq!(time_rung.severity(), Severity::Warn);
    assert!(positioned.resumes_by_time());
}

#[test]
fn last_event_at_reads_never_until_an_event_arrives_and_a_timestamp_after() {
    let mut source = Source::application(5);
    assert_eq!(
        source.subscription.channels[0].last_event_at_rfc3339(),
        "never"
    );
    assert!(!source.drain_all().is_empty());
    let reported = source.subscription.channels[0].last_event_at_rfc3339();
    assert_eq!(reported, "2026-08-07T12:00:04+00:00");
    let parsed = chrono::DateTime::parse_from_rfc3339(&reported).unwrap();
    assert!(parsed.timestamp() > 0);
}

#[test]
fn the_health_summary_counts_configured_and_live_channels() {
    let host = Host::new(&["Application", "System"], 5);
    let config = config_for(&host);
    let mut source = Source::open(host, &config, &no_checkpoint());
    assert_eq!(source.subscription.channel_health_summary(), (2, 2));
    source.pull_with(&[(15007, 0)], 100);
    assert_eq!(source.subscription.channel_health_summary(), (2, 1));
}

#[test]
fn an_event_delivered_as_rendered_text_revokes_record_id_trust() {
    let mut control = Source::application(5);
    assert!(control.drain_all().len() >= 2);
    assert!(control.reports_gaps());
    assert!(control.can_skip_one_record());

    let mut host = Host::new(&["Application"], 5);
    host.logs[0][0].forwarded = true;
    let config = config_for(&host);
    let mut source = Source::open(host, &config, &no_checkpoint());
    assert_eq!(source.drain_all().len(), 5);
    assert!(!source.reports_gaps());
    assert!(!source.can_skip_one_record());
}

/// Read a log of 60 records whose times are these offsets, in microseconds.
fn assert_loses_nothing(batch_size: u32, offset_us: impl Fn(usize) -> i64) {
    let mut host = Host::new(&["Application"], 60);
    for (index, record) in host.logs[0].iter_mut().enumerate() {
        record.at = offset_us(index) * 1000;
    }
    let mut config = config_for(&host);
    config.batch_size = batch_size;
    let mut source = Source::open(host, &config, &no_checkpoint());
    let delivered = source.drain_all();
    assert_eq!(delivered, (1..=60).collect::<Vec<u64>>());
    assert_eq!(source.host.returned, 60);
    assert!(source.host.warnings().is_empty());
    assert!(source.host.sizes().contains(&(batch_size as usize)));
}

/// Times of consecutive records whose order is not that of the records, as
/// microseconds from the first one.
const CAPTURED_OFFSETS_US: [i64; 38] = [
    0,
    30_035_549,
    30_035_549,
    1_288_896_284,
    1_289_240_520,
    1_288_986_321,
    1_289_186_612,
    1_289_731_755,
    1_289_731_958,
    1_289_775_632,
    1_292_214_698,
    1_292_589_706,
    1_292_589_706,
    1_292_589_706,
    1_296_714_704,
    1_296_702_787,
    1_296_703_142,
    1_296_705_045,
    1_296_731_724,
    1_423_089_927,
    1_423_105_529,
    1_424_158_472,
    1_424_191_833,
    1_424_363_158,
    1_426_701_762,
    1_426_905_897,
    1_426_905_897,
    1_426_937_112,
    1_427_798_132,
    1_426_927_745,
    1_426_929_626,
    1_800_043_802,
    1_800_348_576,
    1_800_379_744,
    1_800_379_744,
    1_800_395_368,
    1_830_483_883,
    1_830_593_477,
];

#[test]
fn the_captured_out_of_order_backlog_loses_no_events() {
    assert_loses_nothing(100, |index| {
        CAPTURED_OFFSETS_US
            .get(index)
            .copied()
            .unwrap_or_else(|| CAPTURED_OFFSETS_US[37] + (index as i64) * 1_000_000)
    });
}

#[test]
fn times_decreasing_across_a_whole_batch_lose_no_events() {
    assert_loses_nothing(100, |index| -(index as i64) * 1_000_000);
}

#[test]
fn times_decreasing_across_a_batch_boundary_lose_no_events() {
    assert_loses_nothing(4, |index| {
        let index = index as i64;
        (index % 4) * 1_000 - (index / 4) * 1_000_000
    });
}

#[test]
fn events_sharing_one_time_lose_no_events() {
    assert_loses_nothing(100, |_| 0);
}

#[test]
fn times_far_in_the_future_then_back_to_normal_lose_no_events() {
    assert_loses_nothing(100, |index| {
        let thirty_days: i64 = 30 * 24 * 60 * 60 * 1_000_000;
        if (10..20).contains(&index) {
            thirty_days + (index as i64) * 1_000_000
        } else {
            (index as i64) * 1_000_000
        }
    });
}

#[test]
fn events_older_than_the_stored_resume_time_are_still_sent() {
    let mut checkpointer = no_checkpoint();
    let host = Host::new(&["Application"], 20);
    let config = config_for(&host);
    let mut first = Source::open(host, &config, &checkpointer);
    assert_eq!(first.pull(5).len(), 5);
    let stored = first.subscription.channels[0].last_event_at_rfc3339();
    assert_ne!(stored, "never");
    first.flush(&mut checkpointer);

    let mut host = first.stop();
    for record in host.logs[0].iter_mut().skip(5) {
        // A day behind the stored position, ascending among themselves.
        record.at -= 86_400_000_000_000;
    }
    let mut restarted = Source::open(host, &config, &checkpointer);
    assert_eq!(
        restarted.subscription.channels[0].last_event_at_rfc3339(),
        stored
    );
    assert_eq!(restarted.drain_all(), (6..=20).collect::<Vec<u64>>());
    assert!(restarted.host.warnings().is_empty());
}

#[test]
fn a_first_start_with_no_stored_position_is_quiet() {
    assert!(!WindowsEventLogConfig::default().read_existing_events);
    let mut source = Source::with_config(5, |config| config.read_existing_events = false);
    source.pull(usize::MAX);
    assert!(source.host.warnings().is_empty());
}

#[test]
fn a_time_rung_under_an_operator_query_rereads_from_the_oldest_record() {
    let mut source = Source::with_config(10, |config| {
        config.event_query = Some("*[System[Level<=5]]".to_string())
    });
    assert!(!source.pull(5).is_empty());
    source.rebuild_with(RebuildKind::FromDead, &[15011]);
    assert!(source.resumes_by_time());
    source.host.flags.clear();
    source.rebuild(RebuildKind::FromDead);
    assert_eq!(
        source.host.flags,
        vec![EVT_SUBSCRIBE_START_AT_OLDEST_RECORD]
    );
}

#[test]
fn the_boundary_tick_rung_loses_no_records() {
    let mut source = Source::application(120);
    let first = source.pull(50);
    assert_eq!(first.len(), 50, "this test resumes mid-backlog");
    source.rebuild_with(RebuildKind::FromDead, &[15011]);
    assert!(source.resumes_by_time());
    source.rebuild(RebuildKind::FromDead);

    let after = source.drain_all();
    let seen: HashSet<u64> = first.iter().chain(after.iter()).copied().collect();
    assert_eq!(seen.len(), 120);
    assert_eq!(after[0], 50, "the last event's own time is read again");
}

#[test]
fn the_terminal_rung_subscribes_to_future_events_only() {
    let mut source = Source::application(5);
    assert_eq!(source.pull(1).len(), 1);
    source.rebuild_with(RebuildKind::FromDead, &[15011; 7]);
    assert_eq!(source.rung(), Rung::FutureOnly);
    source.host.flags.clear();
    source.rebuild(RebuildKind::FromDead);
    assert_eq!(source.host.flags, vec![EVT_SUBSCRIBE_TO_FUTURE_EVENTS]);
}

#[test]
fn a_rejected_composed_query_falls_back_instead_of_advancing_the_rung() {
    let drive_to_time_rung = |event_query: Option<&str>| {
        let mut source = Source::with_config(5, |config| {
            config.event_query = event_query.map(str::to_string)
        });
        assert_eq!(source.pull(1).len(), 1);
        source.rebuild_with(RebuildKind::FromDead, &[15011]);
        assert!(source.resumes_by_time());
        source
    };

    let mut composed = drive_to_time_rung(Some("*[System[Level=4]]"));
    let rung = composed.rung();
    // The retry falls due and is rejected once.
    composed.host.advance(61_000);
    composed.host.subscribes = VecDeque::from(vec![15001]);
    composed.pull(1);
    assert!(
        composed.is_live(),
        "the fallback must recover the channel with the operator query"
    );
    assert_eq!(
        composed.host.queries.last().map(String::as_str),
        Some("*[System[Level=4]]")
    );
    assert!(composed
        .host
        .notices
        .iter()
        .any(|(_, notice)| *notice == Notice::QueryRejected { code: 15001 }));
    assert_eq!(rung, Rung::TimeAdvance(windows_event_log::recovery::TimeRung::BoundaryTick));
    assert!(composed.rung() != Rung::FutureOnly);

    let mut plain = drive_to_time_rung(None);
    plain.rebuild_with(RebuildKind::FromDead, &[15001]);
    assert!(
        !plain.is_live(),
        "without a composed structured query there is nothing to fall back to"
    );
}

#[test]
fn an_unpositioned_bookmark_starts_from_the_configured_point() {
    for (read_existing, expected) in [
        (false, EVT_SUBSCRIBE_TO_FUTURE_EVENTS),
        (true, EVT_SUBSCRIBE_START_AT_OLDEST_RECORD),
    ] {
        let source = Source::with_config(5, |config| config.read_existing_events = read_existing);
        assert_eq!(source.host.flags, vec![expected]);
    }
}

#[test]
fn the_boundary_tick_rung_records_no_gap() {
    let mut source = Source::application(10);
    assert!(!source.pull(5).is_empty());
    source.rebuild_with(RebuildKind::FromDead, &[15011]);
    assert!(source.resumes_by_time());
    assert!(source.subscription.channels[0].gaps.is_empty());
}

#[test]
fn each_lossy_rung_records_its_own_gap() {
    let mut source = Source::application(10);
    assert!(!source.pull(5).is_empty());
    source.rebuild_with(RebuildKind::FromDead, &[15011; 8]);
    assert_eq!(source.rung(), Rung::FutureOnly);

    let gaps = &source.subscription.channels[0].gaps;
    let causes: Vec<&str> = gaps.iter().map(|gap| gap.cause.as_str()).collect();
    assert_eq!(
        causes,
        vec!["+1s", "+10s", "+60s", "+5m", "+30m", "future_only"]
    );
    for gap in gaps {
        assert!(!gap.exact);
        assert_eq!(gap.missing_records, None);
        assert_eq!(gap.from.as_deref(), Some("2026-08-07T12:00:04.000Z"));
        assert!(gap.to.is_some());
    }
}

#[test]
fn the_status_snapshot_reports_live_per_channel_facts() {
    let mut source = Source::application(30);
    let delivered = source.pull(20);
    assert_eq!(delivered.len(), 20);

    let stats = vec![Some(ChannelRecordStats {
        count: 30,
        oldest: 1,
    })];
    let snapshot = source
        .subscription
        .status_snapshot(&stats, source.host.utc());
    assert_eq!(snapshot.schema, 1);
    let channel = snapshot.channels.get("Application").unwrap();
    assert!(channel.subscribed);
    assert_eq!(channel.skipped_reason, None);
    assert_eq!(channel.rung, "bookmark");
    assert_eq!(channel.retry_attempt, 0);
    assert!(channel.last_event_at.is_some());
    assert!(channel.gaps.is_empty(), "a clean read punches no holes");
    assert_eq!(channel.last_drained_at, None);
    assert_eq!(channel.last_record_id, delivered.last().copied());
    assert_eq!(channel.newest_record_id, Some(30));

    source.drain_all();
    let drained = source
        .subscription
        .status_snapshot(&stats, source.host.utc());
    let channel = drained.channels.get("Application").unwrap();
    assert!(channel.last_drained_at.is_some());
    assert_eq!(channel.last_record_id, Some(30));
}

/// A hole in the record ids is reported with its size.
#[test]
fn overwritten_records_are_reported() {
    let mut host = Host::new(&["Application"], 5);
    host.logs[0].remove(2);
    let config = config_for(&host);
    let mut source = Source::open(host, &config, &no_checkpoint());
    assert_eq!(source.drain_all(), vec![1, 2, 4, 5]);
    assert_eq!(
        source.host.warnings(),
        vec![Notice::RecordIdGap {
            missing: 1,
            record_id: 4
        }]
    );
}

/// A busy channel takes no more than its share of a pull.
#[test]
fn a_busy_channel_leaves_room_for_the_others() {
    let mut host = Host::new(&["Application", "System"], 40);
    host.logs[1].truncate(3);
    let config = config_for(&host);
    let mut source = Source::open(host, &config, &no_checkpoint());
    let events = source.pull(40);
    assert_eq!(events.iter().filter(|id| **id < 1000).count(), 20);
    assert_eq!(events.iter().filter(|id| **id > 1000).count(), 3);
    assert_eq!(source.host.signals, vec![true, false]);
}
