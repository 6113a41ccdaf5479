//! The per-channel status file: facts from which another process decides
//! whether each channel is being kept up with. Nothing here is a verdict.

use std::collections::VecDeque;

use vstd::prelude::*;

use crate::atomic_file::WritePolicy;
use crate::recovery::{Rung, TimeRung};
use crate::table::NameTable;
use crate::text::to_decimal;
use crate::time::{Deadline, Span, Tick, Timestamp};

verus! {

/// Wire version of the file.
pub const STATUS_SCHEMA_VERSION: u32 = 1;

/// Name of the file inside the data directory, where the reader looks for it.
pub const STATUS_FILE_NAME: &'static str = "windows_event_log_status.json";

/// Gaps kept per channel, the oldest dropped first.
pub const MAX_RETAINED_GAPS: usize = 16;

/// The characters of an optional text.
pub open spec fn opt_chars(text: Option<String>) -> Option<Seq<char>> {
    match text {
        Some(t) => Some(t@),
        None => None,
    }
}

/// The status-file text of a time.
pub open spec fn status_time(time: Timestamp) -> Seq<char> {
    crate::time::rfc3339_zulu(time.secs(), time.nanos(), false)
}

/// The status-file text of an optional time.
pub open spec fn opt_status_time(time: Option<Timestamp>) -> Option<Seq<char>> {
    match time {
        Some(t) => Some(status_time(t)),
        None => None,
    }
}

/// The parts of an optional time.
pub open spec fn time_parts(time: Option<Timestamp>) -> Option<(int, int)> {
    match time {
        Some(t) => Some((t.secs(), t.nanos())),
        None => None,
    }
}

/// Format of every time in the file.
pub fn rfc3339(time: Timestamp) -> (text: String)
    ensures
        text@ == status_time(time),
{
    time.to_rfc3339_zulu(false)
}

/// The status-file text of an optional time.
pub fn opt_rfc3339(time: Option<Timestamp>) -> (text: Option<String>)
    ensures
        opt_chars(text) == opt_status_time(time),
{
    match time {
        Some(t) => Some(rfc3339(t)),
        None => None,
    }
}

/// One hole in a channel's data, recorded when the resume ladder made it.
#[derive(Debug, PartialEq, Eq)]
pub struct GapRecord {
    /// Time of the last event before the hole.
    pub from: Option<String>,
    /// Time at which reading resumed, where a time bounds the hole.
    pub to: Option<String>,
    /// When the hole was made.
    pub at: String,
    /// The ladder step that made it.
    pub cause: String,
    /// Whether the number of lost records is known.
    pub exact: bool,
    /// Records lost, where that is known.
    pub missing_records: Option<u64>,
}

/// The contents of a gap record.
pub struct GapView {
    pub from: Option<Seq<char>>,
    pub to: Option<Seq<char>>,
    pub at: Seq<char>,
    pub cause: Seq<char>,
    pub exact: bool,
    pub missing_records: Option<u64>,
}

impl View for GapRecord {
    type V = GapView;

    open spec fn view(&self) -> GapView {
        GapView {
            from: opt_chars(self.from),
            to: opt_chars(self.to),
            at: self.at@,
            cause: self.cause@,
            exact: self.exact,
            missing_records: self.missing_records,
        }
    }
}

impl Clone for GapRecord {
    fn clone(&self) -> (copy: GapRecord)
        ensures
            copy == *self,
    {
        GapRecord {
            from: self.from.clone(),
            to: self.to.clone(),
            at: self.at.clone(),
            cause: self.cause.clone(),
            exact: self.exact,
            missing_records: self.missing_records,
        }
    }
}

/// Whether landing on a rung loses data, and if so, whether the number of lost
/// records is known and what it is. The first time rung reads the last event's
/// own millisecond again, so it can repeat but never skip.
pub open spec fn rung_loss(rung: Rung) -> Option<(bool, Option<u64>)> {
    match rung {
        Rung::SkipRecord => Some((true, Some(1u64))),
        Rung::TimeAdvance(t) => if t == TimeRung::BoundaryTick {
            None
        } else {
            Some((false, None))
        },
        Rung::FutureOnly => Some((false, None)),
        _ => None,
    }
}

/// Whether landing on a rung loses data, and whether the loss is countable.
pub fn gap_shape(rung: Rung) -> (shape: Option<(bool, Option<u64>)>)
    ensures
        shape == rung_loss(rung),
{
    match rung {
        Rung::Bookmark | Rung::IsolateOne => None,
        Rung::TimeAdvance(TimeRung::BoundaryTick) => None,
        Rung::SkipRecord => Some((true, Some(1))),
        Rung::TimeAdvance(_) | Rung::FutureOnly => Some((false, None)),
    }
}

/// The gap that a ladder step makes, if it makes one.
pub open spec fn rung_gap(
    rung: Rung,
    from: Option<Timestamp>,
    resume_at: Option<(int, int)>,
    at: Timestamp,
) -> Option<GapView> {
    match rung_loss(rung) {
        None => None,
        Some(loss) => Some(
            GapView {
                from: opt_status_time(from),
                to: match resume_at {
                    Some(parts) => Some(crate::time::rfc3339_zulu(parts.0, parts.1, false)),
                    None => None,
                },
                at: status_time(at),
                cause: crate::recovery::rung_name(rung),
                exact: loss.0,
                missing_records: loss.1,
            },
        ),
    }
}

/// Build the gap record for a ladder step, or `None` where the step loses
/// nothing. `from` is the last event before the step and `resume_at` where
/// reading starts again; a record skip has no time for the latter.
pub fn gap_for_rung(
    rung: Rung,
    from: Option<Timestamp>,
    resume_at: Option<Timestamp>,
    at: Timestamp,
) -> (gap: Option<GapRecord>)
    ensures
        gap is Some <==> rung_gap(rung, from, time_parts(resume_at), at) is Some,
        gap matches Some(g) ==> rung_gap(rung, from, time_parts(resume_at), at) == Some(g@),
{
    match gap_shape(rung) {
        None => None,
        Some((exact, missing_records)) => Some(
            GapRecord {
                from: opt_rfc3339(from),
                to: opt_rfc3339(resume_at),
                at: rfc3339(at),
                cause: rung.as_str().to_owned(),
                exact,
                missing_records,
            },
        ),
    }
}

/// A gap history with one more gap: the newest [`MAX_RETAINED_GAPS`], newest
/// last.
pub open spec fn with_gap<T>(gaps: Seq<T>, gap: T) -> Seq<T> {
    let all = gaps.push(gap);
    if all.len() <= MAX_RETAINED_GAPS {
        all
    } else {
        all.skip(all.len() - MAX_RETAINED_GAPS)
    }
}

/// The contents of a gap history.
pub open spec fn gap_views(gaps: Seq<GapRecord>) -> Seq<GapView> {
    gaps.map_values(|g: GapRecord| g@)
}

/// Append a gap to a channel's bounded history.
pub fn push_gap(gaps: &mut VecDeque<GapRecord>, gap: GapRecord)
    ensures
        final(gaps)@ == with_gap(old(gaps)@, gap),
        gap_views(final(gaps)@) == with_gap(gap_views(old(gaps)@), gap@),
        1 <= final(gaps)@.len() <= MAX_RETAINED_GAPS,
{
    let ghost before = gaps@;
    while gaps.len() >= MAX_RETAINED_GAPS
        invariant
            gaps@.len() <= before.len(),
            gaps@ == before.skip(before.len() - gaps@.len()),
            gaps@.len() >= MAX_RETAINED_GAPS - 1 || gaps@ == before,
        decreases gaps.len(),
    {
        let _ = gaps.pop_front();
        assert(gaps@ =~= before.skip(before.len() - gaps@.len()));
    }
    gaps.push_back(gap);
    assert(gaps@ =~= with_gap(before, gap));
    assert(gap_views(gaps@) =~= with_gap(gap_views(before), gap@));
}

/// A full walk of the ladder from the bookmark to the top makes at most seven
/// gaps, so the history holds the current walk and the one before it.
pub proof fn one_walk_makes_at_most_seven_gaps(rungs: Seq<Rung>)
    requires
        forall|i: int, j: int|
            0 <= i < j < rungs.len() ==> crate::recovery::rung_height(#[trigger] rungs[i])
                < crate::recovery::rung_height(#[trigger] rungs[j]),
    ensures
        rungs.filter(|r: Rung| rung_loss(r) is Some).len() <= 7,
{
    let lossy = |r: Rung| rung_loss(r) is Some;
    lemma_lossy_count(rungs, lossy);
    if rungs.len() > 0 {
        assert(crate::recovery::rung_height(rungs.last()) <= 9);
    }
}

spec fn lossy_below(height: nat) -> nat {
    if height < 2 {
        0
    } else if height <= 3 {
        1
    } else {
        (height - 2) as nat
    }
}

proof fn lemma_lossy_count(rungs: Seq<Rung>, lossy: spec_fn(Rung) -> bool)
    requires
        forall|r: Rung| #[trigger] lossy(r) == (rung_loss(r) is Some),
        forall|i: int, j: int|
            0 <= i < j < rungs.len() ==> crate::recovery::rung_height(#[trigger] rungs[i])
                < crate::recovery::rung_height(#[trigger] rungs[j]),
    ensures
        rungs.len() == 0 ==> rungs.filter(lossy).len() == 0,
        rungs.len() > 0 ==> rungs.filter(lossy).len() <= lossy_below(
            crate::recovery::rung_height(rungs.last()),
        ),
    decreases rungs.len(),
{
    reveal(Seq::filter);
    if rungs.len() > 0 {
        let rest = rungs.drop_last();
        lemma_lossy_count(rest, lossy);
        if rest.len() > 0 {
            assert(crate::recovery::rung_height(rungs[rungs.len() - 2])
                < crate::recovery::rung_height(rungs[rungs.len() - 1]));
            assert(rest.last() == rungs[rungs.len() - 2]);
        }
        assert(lossy(rungs.last()) == (rung_loss(rungs.last()) is Some));
    }
}

/// Record counts read from the channel itself.
#[derive(Debug, Clone, Copy, PartialEq, Eq, Structural)]
pub struct ChannelRecordStats {
    pub count: u64,
    pub oldest: u64,
}

/// The newest record id that the counts suggest, where it is credible.
pub open spec fn newest_estimate(
    stats: Option<ChannelRecordStats>,
    last_record_id: Option<u64>,
) -> Option<u64> {
    match stats {
        None => None,
        Some(s) => {
            let newest = s.oldest + s.count - 1;
            if s.count == 0 || s.oldest + s.count > u64::MAX || (last_record_id is Some && newest
                < last_record_id->0) {
                None
            } else {
                Some(newest as u64)
            }
        },
    }
}

/// Estimate the newest record id in a channel. It is withheld for an empty
/// channel, and where it would lie below a record that was already delivered:
/// absent is honest, a clamped value would read as caught up.
pub fn newest_record_estimate(
    stats: Option<ChannelRecordStats>,
    last_record_id: Option<u64>,
) -> (newest: Option<u64>)
    ensures
        newest == newest_estimate(stats, last_record_id),
{
    let stats: ChannelRecordStats = match stats {
        Some(s) => s,
        None => {
            return None;
        },
    };
    if stats.count == 0 {
        return None;
    }
    let newest: u64 = match stats.oldest.checked_add(stats.count) {
        Some(sum) => sum - 1,
        None => {
            return None;
        },
    };
    if let Some(delivered) = last_record_id {
        if newest < delivered {
            return None;
        }
    }
    Some(newest)
}

/// An estimate never reports a channel as further along than it is delivered,
/// and lies `count` records from the oldest.
pub proof fn estimates_never_claim_to_be_caught_up_wrongly(
    stats: ChannelRecordStats,
    last_record_id: Option<u64>,
)
    ensures
        newest_estimate(Some(stats), last_record_id) matches Some(newest) ==> {
            &&& stats.count > 0
            &&& newest + 1 == stats.oldest + stats.count
            &&& last_record_id matches Some(delivered) ==> delivered <= newest
        },
{
}

/// Everything the file says about one channel.
#[derive(Debug, PartialEq, Eq)]
pub struct ChannelStatus {
    /// A live subscription exists.
    pub subscribed: bool,
    /// Why the channel is skipped for this subscription generation.
    pub skipped_reason: Option<String>,
    /// Current rung of the resume ladder.
    pub rung: String,
    /// Time of the last event delivered.
    pub last_event_at: Option<String>,
    /// When a read last came back empty.
    pub last_drained_at: Option<String>,
    /// Record id of the last event delivered.
    pub last_record_id: Option<u64>,
    /// Estimated newest record id in the channel.
    pub newest_record_id: Option<u64>,
    /// Whether the query selects a subset of events.
    pub query_filters: bool,
    /// Whether the stored bookmark marks a position.
    pub bookmark_positioned: bool,
    /// Consecutive failed rebuild attempts.
    pub retry_attempt: u32,
    /// Names that were absent from a publisher's table.
    pub name_table_misses: u64,
    /// Holes that the resume ladder made, newest last.
    pub gaps: Vec<GapRecord>,
}

/// The whole file.
#[derive(Debug)]
pub struct StatusSnapshot {
    pub schema: u32,
    /// When the file was written.
    pub as_of: String,
    pub channels: NameTable<ChannelStatus>,
}

impl StatusSnapshot {
    /// A snapshot without channels.
    pub fn new(as_of: Timestamp) -> (snapshot: StatusSnapshot)
        ensures
            snapshot.schema == STATUS_SCHEMA_VERSION,
            snapshot.as_of@ == status_time(as_of),
            snapshot.channels.wf(),
            snapshot.channels@ == Map::<Seq<char>, ChannelStatus>::empty(),
    {
        StatusSnapshot {
            schema: STATUS_SCHEMA_VERSION,
            as_of: rfc3339(as_of),
            channels: NameTable::new(),
        }
    }
}

/// Where the status file goes.
#[derive(Debug, PartialEq, Eq)]
pub enum StatusPath {
    /// The configured path, taken as it is.
    Configured(String),
    /// A file of this name in this directory.
    InDirectory { directory: String, file_name: String },
}

/// The characters of a temporary file's name.
pub open spec fn temp_name(file_name: Option<Seq<char>>, process_id: u32) -> Seq<char> {
    let base = match file_name {
        Some(name) => name,
        None => "status.json"@,
    };
    base + "."@ + crate::text::decimal(process_id as nat) + ".tmp"@
}

/// The name of the temporary file that is renamed over the target. The process
/// id keeps two writers of one path apart.
pub fn temp_file_name(file_name: Option<&str>, process_id: u32) -> (name: String)
    ensures
        name@ == temp_name(
            match file_name {
                Some(n) => Some(n@),
                None => None,
            },
            process_id,
        ),
{
    let mut name = match file_name {
        Some(n) => n.to_owned(),
        None => "status.json".to_owned(),
    };
    name.append(".");
    name.append(to_decimal(process_id as u64).as_str());
    name.append(".tmp");
    name
}

/// How the status file in a directory is replaced: by a rename within the
/// directory, which is made where it is not the current one. A temporary file
/// that cannot be put in place is removed, so that none accumulate.
pub fn write_atomic(directory: &str) -> (policy: WritePolicy)
    ensures
        policy == (WritePolicy {
            make_directory: directory@.len() > 0,
            replace_first: false,
            remove_temp: true,
        }),
{
    let make_directory = directory.unicode_len() > 0;
    WritePolicy { make_directory, replace_first: false, remove_temp: true }
}

/// What to say about a write of the status file.
#[derive(Debug, Clone, Copy, PartialEq, Eq, Structural)]
pub enum WriteNotice {
    /// Nothing.
    Quiet,
    /// The file can be written again.
    WritableAgain,
    /// The first failure of a run of failures: a warning.
    Failed,
    /// A repeated failure.
    FailedAgain,
}

/// Cadence and failure state of the status file.
#[derive(Debug)]
pub struct StatusWriter {
    pub path: StatusPath,
    pub interval: Span,
    pub next_due: Deadline,
    /// Whether the last write failed.
    pub failing: bool,
}

impl StatusWriter {
    /// A writer that is due at once. The interval is at least one second.
    pub fn new(path: StatusPath, interval_secs: u64, now: Tick) -> (writer: StatusWriter)
        ensures
            writer.path == path,
            writer.interval@ == if interval_secs == 0 {
                1_000_000_000
            } else {
                interval_secs * 1_000_000_000
            },
            writer.next_due.nanos == now.nanos,
            !writer.failing,
    {
        let secs: u64 = if interval_secs > 1 {
            interval_secs
        } else {
            1
        };
        StatusWriter {
            path,
            interval: Span::from_secs(secs),
            next_due: Deadline { nanos: now.nanos as u128 },
            failing: false,
        }
    }

    /// Where the file goes: the configured path, or the fixed name in the data
    /// directory.
    pub fn resolve_path(configured: Option<&str>, data_dir: &str) -> (path: StatusPath)
        ensures
            match configured {
                Some(c) => path matches StatusPath::Configured(p) && p@ == c@,
                None => path matches StatusPath::InDirectory { directory, file_name } && directory@
                    == data_dir@ && file_name@ == STATUS_FILE_NAME@,
            },
    {
        match configured {
            Some(c) => StatusPath::Configured(c.to_owned()),
            None => StatusPath::InDirectory {
                directory: data_dir.to_owned(),
                file_name: STATUS_FILE_NAME.to_owned(),
            },
        }
    }

    /// Whether a write is due.
    pub fn is_due(&self, now: Tick) -> (due: bool)
        ensures
            due == (now.nanos >= self.next_due.nanos),
    {
        self.next_due.reached(now)
    }

    /// The notice that an outcome calls for.
    pub open spec fn notice(self, written: bool) -> WriteNotice {
        if written && self.failing {
            WriteNotice::WritableAgain
        } else if written {
            WriteNotice::Quiet
        } else if self.failing {
            WriteNotice::FailedAgain
        } else {
            WriteNotice::Failed
        }
    }

    /// Account for an attempt to write a snapshot that began at `now`. The next
    /// interval is armed whatever the outcome, so a failing write cannot turn
    /// into a hot loop.
    pub fn write(&mut self, written: bool, now: Tick) -> (notice: WriteNotice)
        ensures
            notice == old(self).notice(written),
            final(self).next_due.nanos == now.nanos + old(self).interval@,
            final(self).failing == !written,
            final(self).path == old(self).path,
            final(self).interval == old(self).interval,
    {
        self.next_due = now.plus(self.interval);
        let was_failing = self.failing;
        self.failing = !written;
        match (written, was_failing) {
            (true, true) => WriteNotice::WritableAgain,
            (true, false) => WriteNotice::Quiet,
            (false, true) => WriteNotice::FailedAgain,
            (false, false) => WriteNotice::Failed,
        }
    }
}

} // verus!
