//! What the status file says, and when it is written.

use vstd::prelude::*;

use crate::status::{ChannelRecordStats, StatusPath, StatusWriter, WriteNotice};
use crate::time::{Tick, Timestamp};

verus! {

/// Of the rungs of the ladder, from the bottom, the third loses exactly one record;
/// those from the fifth on lose an unknown number; the others lose nothing.
pub proof fn rungs_lose(i: int)
    requires
        0 <= i < 10,
    ensures
        crate::status::rung_loss(crate::laws::ladder::rungs()[i]) == if i == 2 {
            Some((true, Some(1u64)))
        } else if i >= 4 {
            Some((false, None::<u64>))
        } else {
            None
        },
{
}

/// A step of the ladder makes a gap exactly where it loses something: from the last
/// event, to where reading starts again, at the time of the step, under the name of
/// the rung.
pub proof fn steps_make_gaps(
    i: int,
    from: Option<Timestamp>,
    resume_at: Option<(int, int)>,
    at: Timestamp,
)
    requires
        0 <= i < 10,
    ensures
        ({
            let rung = crate::laws::ladder::rungs()[i];
            let made = crate::status::rung_gap(rung, from, resume_at, at);
            &&& made is Some <==> i == 2 || i >= 4
            &&& made matches Some(gap) ==> {
                &&& gap.exact <==> i == 2
                &&& i == 2 ==> gap.missing_records == Some(1u64)
                &&& i != 2 ==> gap.missing_records is None
                &&& gap.cause == crate::recovery::rung_name(rung)
                &&& gap.at == crate::time::rfc3339_zulu(at.secs(), at.nanos(), false)
                &&& from is None <==> gap.from is None
                &&& from matches Some(t) ==> gap.from == Some(
                    crate::time::rfc3339_zulu(t.secs(), t.nanos(), false),
                )
                &&& resume_at is None <==> gap.to is None
                &&& resume_at matches Some(parts) ==> gap.to == Some(
                    crate::time::rfc3339_zulu(parts.0, parts.1, false),
                )
            }
        }),
{
}

/// The history keeps the newest sixteen gaps, the newest last and all in order.
pub proof fn histories_keep_the_newest(gaps: Seq<int>, gap: int, age: int)
    ensures
        ({
            let kept = crate::status::with_gap(gaps, gap);
            &&& kept.last() == gap
            &&& kept.len() <= 16
            &&& gaps.len() < 16 ==> kept.len() == gaps.len() + 1
            &&& gaps.len() >= 16 ==> kept.len() == 16
            &&& 1 <= age < kept.len() ==> kept[kept.len() - 1 - age] == gaps[gaps.len() - age]
        }),
{
}

/// Appending to a history does that.
pub proof fn appending_keeps_the_newest(
    gaps: &mut std::collections::VecDeque<crate::status::GapRecord>,
    gap: crate::status::GapRecord,
    age: int,
)
    requires
        call_ensures(crate::status::push_gap, (gaps, gap), ()),
    ensures
        final(gaps)@.last() == gap,
        old(gaps)@.len() < 16 ==> final(gaps)@.len() == old(gaps)@.len() + 1,
        old(gaps)@.len() >= 16 ==> final(gaps)@.len() == 16,
        1 <= age < final(gaps)@.len() ==> final(gaps)@[final(gaps)@.len() - 1 - age] == old(gaps)@[
            old(gaps)@.len() - age],
{
}

/// The newest record is estimated as the last of as many as there are from the
/// oldest on; there is an estimate exactly where there are records, their ids fit,
/// and it does not lie below what was delivered.
pub proof fn estimates_count_from_the_oldest(
    stats: ChannelRecordStats,
    delivered: Option<u64>,
    newest: Option<u64>,
)
    requires
        call_ensures(crate::status::newest_record_estimate, (Some(stats), delivered), newest),
    ensures
        ({
            let last = stats.oldest + stats.count - 1;
            let credible = stats.count > 0 && last + 1 <= u64::MAX && (delivered is None
                || delivered->0 <= last);
            &&& credible ==> newest == Some(last as u64)
            &&& !credible ==> newest is None
        }),
{
}

/// Without counts there is no estimate.
pub proof fn no_counts_no_estimate(delivered: Option<u64>, newest: Option<u64>)
    requires
        call_ensures(crate::status::newest_record_estimate, (None, delivered), newest),
    ensures
        newest is None,
{
}

/// The temporary file is named after the file and the process, and two processes
/// never share one.
pub proof fn temporary_files_are_kept_apart(name: Seq<char>, first: u32, second: u32)
    ensures
        crate::status::temp_name(Some(name), first) == name + seq!['.'] + crate::text::decimal(
            first as nat,
        ) + seq!['.', 't', 'm', 'p'],
        crate::status::temp_name(None, first) == crate::status::temp_name(
            Some("status.json"@),
            first,
        ),
        crate::status::temp_name(Some(name), first) == crate::status::temp_name(Some(name), second)
            ==> first == second,
{
    reveal_strlit(".");
    reveal_strlit(".tmp");
    assert("."@ =~= seq!['.']);
    assert(".tmp"@ =~= seq!['.', 't', 'm', 'p']);
    let a = crate::status::temp_name(Some(name), first);
    let b = crate::status::temp_name(Some(name), second);
    let n = name.len() as int;
    if a == b {
        let x = crate::text::decimal(first as nat);
        let y = crate::text::decimal(second as nat);
        assert(a.len() == n + 1 + x.len() + 4 && b.len() == n + 1 + y.len() + 4);
        assert(a.subrange(n + 1, n + 1 + x.len()) =~= x);
        assert(b.subrange(n + 1, n + 1 + y.len()) =~= y);
        crate::laws::texts::numerals_differ(first as nat, second as nat);
    }
}

/// A writer is due from the start, and from then on one interval, of at least a
/// second, after each attempt, however that ended; it speaks of the first failure
/// and of the first success after one, and of others softly or not at all.
pub proof fn writes_come_an_interval_apart(
    path: StatusPath,
    secs: u64,
    start: Tick,
    writer: StatusWriter,
    later: &mut StatusWriter,
    written: bool,
    now: Tick,
    notice: WriteNotice,
    probe: Tick,
    due: bool,
)
    requires
        call_ensures(StatusWriter::new, (path, secs, start), writer),
        call_ensures(StatusWriter::write, (later, written, now), notice),
        call_ensures(StatusWriter::is_due, (&*old(later), probe), due),
    ensures
        writer.next_due.nanos == start.nanos,
        !writer.failing,
        secs >= 1 ==> writer.interval@ == secs * 1_000_000_000,
        secs == 0 ==> writer.interval@ == 1_000_000_000,
        due <==> probe.nanos >= old(later).next_due.nanos,
        final(later).next_due.nanos == now.nanos + old(later).interval@,
        final(later).interval@ == old(later).interval@,
        final(later).failing <==> !written,
        notice == WriteNotice::Failed <==> !written && !old(later).failing,
        notice == WriteNotice::FailedAgain <==> !written && old(later).failing,
        notice == WriteNotice::WritableAgain <==> written && old(later).failing,
        notice == WriteNotice::Quiet <==> written && !old(later).failing,
{
}

/// The file has the fixed name in the data directory, unless a path is configured.
pub proof fn status_files_have_a_fixed_name(dir: &str, path: StatusPath)
    requires
        call_ensures(StatusWriter::resolve_path, (None, dir), path),
    ensures
        path matches StatusPath::InDirectory { directory, file_name } && directory@ == dir@
            && file_name@ == "windows_event_log_status.json"@,
        crate::status::STATUS_SCHEMA_VERSION == 1,
{
}

} // verus!
