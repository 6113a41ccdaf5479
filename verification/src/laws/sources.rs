//! What the loop around a subscription does.

use vstd::prelude::*;

use crate::checkpoint::ChannelPosition;
use crate::source::{
    BatchAction, BatchStatus, BatchTally, EventOutcome, FinalizeAction, Finalizer, LoopAction,
    LoopEvent, LoopStage, SourceLoop,
};
use crate::subscription::WaitResult;
use crate::time::Tick;

verus! {

// ---------------------------------------------------------------------------
// Acknowledgements
// ---------------------------------------------------------------------------
/// Positions are written at once without acknowledgements, and with the batch that
/// is acknowledged with them; only a delivered batch counts as that.
pub proof fn positions_follow_the_acknowledgements(
    acknowledgements: bool,
    finalizer: Finalizer,
    has_receiver: bool,
    action: FinalizeAction,
    status: BatchStatus,
    write: bool,
)
    requires
        call_ensures(Finalizer::new, (acknowledgements,), finalizer),
        call_ensures(Finalizer::finalize, (finalizer, has_receiver), action),
        call_ensures(crate::source::apply_ack, (status,), write),
    ensures
        action == FinalizeAction::WriteCheckpoint <==> !acknowledgements && !has_receiver,
        action == FinalizeAction::Register <==> acknowledgements && has_receiver,
        action == FinalizeAction::WarnReceiverIgnored <==> !acknowledgements && has_receiver,
        action == FinalizeAction::WarnNoReceiver <==> acknowledgements && !has_receiver,
        write <==> status == BatchStatus::Delivered,
{
}

/// Channels are listed in order with a comma between any two: a list of two parts is
/// the one, a comma and the other.
pub proof fn channels_are_listed(a: Seq<ChannelPosition>, b: Seq<ChannelPosition>)
    requires
        a.len() > 0,
        b.len() > 0,
    ensures
        crate::source::joined_channels(a + b) == crate::source::joined_channels(a) + seq![',', ' ']
            + crate::source::joined_channels(b),
        a.len() == 1 ==> crate::source::joined_channels(a) == a[0].channel@,
        crate::source::joined_channels(Seq::empty()).len() == 0,
    decreases b.len(),
{
    reveal_with_fuel(crate::source::joined_channels, 2);
    reveal_strlit(", ");
    assert(", "@ =~= seq![',', ' ']);
    let rest = b.drop_last();
    assert((a + b).drop_last() =~= a + rest);
    assert((a + b).last() == b.last());
    if b.len() == 1 {
        assert(a + rest =~= a);
    } else {
        channels_are_listed(a, rest);
    }
    assert(crate::source::joined_channels(a + b) =~= crate::source::joined_channels(a) + seq![
        ',',
        ' ',
    ] + crate::source::joined_channels(b));
}

// ---------------------------------------------------------------------------
// Batches
// ---------------------------------------------------------------------------
/// Every event that was converted counts once, with its size, and no other.
pub proof fn tallies_add_up(a: Seq<EventOutcome>, b: Seq<EventOutcome>, one: EventOutcome)
    ensures
        crate::source::converted(a + b) == crate::source::converted(a) + crate::source::converted(
            b,
        ),
        crate::source::converted_bytes(a + b) == crate::source::converted_bytes(a)
            + crate::source::converted_bytes(b),
        one.byte_size matches Some(size) ==> crate::source::converted(seq![one]) == 1
            && crate::source::converted_bytes(seq![one]) == size,
        one.byte_size is None ==> crate::source::converted(seq![one]) == 0
            && crate::source::converted_bytes(seq![one]) == 0,
    decreases b.len(),
{
    reveal_with_fuel(crate::source::converted, 2);
    reveal_with_fuel(crate::source::converted_bytes, 2);
    assert(seq![one].drop_last() =~= Seq::<EventOutcome>::empty());
    if b.len() == 0 {
        assert(a + b =~= a);
    } else {
        tallies_add_up(a, b.drop_last(), one);
        assert((a + b).drop_last() =~= a + b.drop_last());
        assert((a + b).last() == b.last());
    }
}

/// A tally lists the channel of every event of the batch, converted or not, and no
/// channel twice.
pub proof fn tallies_list_every_channel(
    outcomes: Vec<EventOutcome>,
    tally: BatchTally,
    i: int,
    a: int,
    b: int,
)
    requires
        call_ensures(crate::source::tally_batch, (&outcomes,), tally),
    ensures
        tally.events == crate::source::converted(outcomes@),
        tally.bytes == crate::source::converted_bytes(outcomes@),
        0 <= i < outcomes@.len() ==> exists|k: int|
            0 <= k < tally.channels@.len() && (#[trigger] tally.channels@[k])@
                == outcomes@[i].channel@,
        0 <= a < b < tally.channels@.len() ==> tally.channels@[a]@ != tally.channels@[b]@,
        0 <= a < tally.channels@.len() ==> exists|k: int|
            0 <= k < outcomes@.len() && (#[trigger] outcomes@[k]).channel@ == tally.channels@[a]@,
{
    if 0 <= i < outcomes@.len() {
        assert(crate::source::is_listed(tally.channels@, outcomes@[i].channel@));
    }
    if 0 <= a < b < tally.channels@.len() {
        assert(tally.channels@[a]@ != tally.channels@[b]@);
    }
    if 0 <= a < tally.channels@.len() {
        let name = tally.channels@[a]@;
        assert(exists|j: int|
            0 <= j < outcomes@.len() && (#[trigger] outcomes@[j]).channel@
                == tally.channels@[a]@);
    }
}

/// A batch is sent where it has events; once it is sent its positions are finalized
/// where there are any; and one that cannot be sent ends the loop.
pub proof fn batches_are_sent_and_finalized(
    tally: BatchTally,
    begun: BatchAction,
    sent: bool,
    positions: usize,
    next: BatchAction,
)
    requires
        call_ensures(crate::source::begin_batch, (&tally,), begun),
        call_ensures(crate::source::batch_sent, (sent, positions), next),
    ensures
        begun == BatchAction::Send <==> tally.events > 0,
        begun == BatchAction::Nothing <==> tally.events == 0,
        next == BatchAction::Close <==> !sent,
        next == BatchAction::Finalize <==> sent && positions > 0,
        next == BatchAction::Nothing <==> sent && positions == 0,
{
}

// ---------------------------------------------------------------------------
// The loop
// ---------------------------------------------------------------------------
/// The loop starts with the acknowledgements, the shortest pause and a fresh
/// checkpoint; the health is reported as often as a wait fits into half a minute.
pub proof fn loops_start_fresh(
    acknowledgements: bool,
    secs: u64,
    timeout_ms: u64,
    now: Tick,
    source: SourceLoop,
)
    requires
        timeout_ms > 0,
        call_ensures(SourceLoop::run_internal, (acknowledgements, secs, timeout_ms, now), source),
    ensures
        source.acknowledgements == acknowledgements,
        source.checkpoint_interval@ == secs * 1_000_000_000,
        source.stage == LoopStage::Acks,
        source.error_backoff == 100,
        source.timeout_count == 0,
        source.last_checkpoint == now,
        source.health_interval >= 1,
        source.health_interval > 1 ==> source.health_interval * timeout_ms <= 30_000,
        30_000 < (source.health_interval + 1) * timeout_ms,
{
    let q = 30_000int / timeout_ms as int;
    assert(0 <= q <= 30_000 && q * timeout_ms <= 30_000 < (q + 1) * timeout_ms) by (nonlinear_arith)
        requires
            timeout_ms > 0,
            q == 30_000int / timeout_ms as int,
    ;
    assert((source.health_interval + 1) * timeout_ms >= (q + 1) * timeout_ms) by (nonlinear_arith)
        requires
            source.health_interval >= q,
            timeout_ms > 0,
    ;
}

/// A round applies the acknowledgements, writes the status file where it is due,
/// and waits.
pub proof fn rounds_begin_with_acknowledgements(source: SourceLoop, due: bool)
    ensures
        source.stage == LoopStage::Acks && due ==> source.after(
            LoopEvent::AcksApplied { status_due: due },
        ).1 == LoopAction::WriteStatus,
        source.stage == LoopStage::Acks && !due ==> source.after(
            LoopEvent::AcksApplied { status_due: due },
        ).1 == LoopAction::Wait,
        source.stage == LoopStage::Status ==> source.after(LoopEvent::Finished).1
            == LoopAction::Wait,
{
}

/// Events are pulled; a stop ends the loop, after the positions were written where
/// there are no acknowledgements to wait for.
pub proof fn waits_lead_on(source: SourceLoop, now: Tick)
    requires
        source.stage == LoopStage::Waiting,
    ensures
        source.after(
            LoopEvent::Waited { result: WaitResult::EventsAvailable, now },
        ).1 == (LoopAction::Pull { speculative: false }),
        source.acknowledgements ==> source.after(
            LoopEvent::Waited { result: WaitResult::Shutdown, now },
        ).1 == LoopAction::DrainAcks,
        !source.acknowledgements ==> ({
            let next = source.after(LoopEvent::Waited { result: WaitResult::Shutdown, now });
            &&& next.1 == LoopAction::FlushBookmarks
            &&& next.0.after(LoopEvent::Flushed { now }).1 == LoopAction::DrainAcks
        }),
{
}

/// A wait without events, where no acknowledgements are waited for: the positions
/// are written first once the interval has passed since they last were. With
/// acknowledgements they never are.
pub proof fn quiet_waits_write_positions_in_time(source: SourceLoop, now: Tick)
    requires
        source.stage == LoopStage::Waiting,
        now.nanos >= source.last_checkpoint.nanos,
    ensures
        ({
            let next = source.after(LoopEvent::Waited { result: WaitResult::Timeout, now });
            &&& next.1 == LoopAction::FlushBookmarks <==> !source.acknowledgements && now.nanos
                - source.last_checkpoint.nanos >= source.checkpoint_interval@
            &&& next.1 == LoopAction::FlushBookmarks ==> next.0.after(
                LoopEvent::Flushed { now },
            ).0.last_checkpoint == now
        }),
{
}

/// Where the clock stands before the last write, no time counts as passed: the
/// positions are written only where no interval is kept.
pub proof fn clocks_may_stand_back(source: SourceLoop, now: Tick)
    requires
        source.stage == LoopStage::Waiting,
        now.nanos < source.last_checkpoint.nanos,
    ensures
        source.after(LoopEvent::Waited { result: WaitResult::Timeout, now }).1
            == LoopAction::FlushBookmarks <==> !source.acknowledgements
            && source.checkpoint_interval@ == 0,
{
}

/// The count of quiet waits since the last report, after a number of them in a row.
pub open spec fn quiet_rounds(source: SourceLoop, n: nat) -> nat
    decreases n,
{
    if n == 0 {
        source.timeout_count as nat
    } else {
        let before = quiet_rounds(source, (n - 1) as nat);
        SourceLoop { timeout_count: before as u32, ..source }.idle().0.timeout_count as nat
    }
}

/// The health is reported with every so manieth quiet wait and with no other: the
/// count of quiet waits goes up by one and starts over there. Each ends with a pull
/// on speculation.
pub proof fn health_is_reported_in_its_turn(source: SourceLoop)
    requires
        source.wf(),
    ensures
        ({
            let (next, action) = source.idle();
            let reports = source.timeout_count + 1 == source.health_interval;
            &&& action == LoopAction::ReportHealth <==> reports
            &&& reports ==> next.timeout_count == 0 && next.after(LoopEvent::Finished).1 == (
            LoopAction::Pull { speculative: true })
            &&& !reports ==> next.timeout_count == source.timeout_count + 1 && action == (
            LoopAction::Pull { speculative: true })
        }),
{
}

/// Counted that way, the quiet waits since the last report are the remainder of all
/// quiet waits.
pub proof fn quiet_waits_are_counted_round(source: SourceLoop, n: nat)
    requires
        source.wf(),
        source.timeout_count == 0,
    ensures
        quiet_rounds(source, n) == n % (source.health_interval as nat),
    decreases n,
{
    let h = source.health_interval as nat;
    if n == 0 {
        vstd::arithmetic::div_mod::lemma_small_mod(0, h);
    } else {
        let m = (n - 1) as nat;
        quiet_waits_are_counted_round(source, m);
        lemma_next_remainder(m as int, h as int);
    }
}

proof fn lemma_next_remainder(m: int, h: int)
    requires
        m >= 0,
        h >= 1,
    ensures
        0 <= m % h < h,
        (m + 1) % h == if m % h + 1 == h {
            0
        } else {
            m % h + 1
        },
{
    let q = m / h;
    let r = m % h;
    vstd::arithmetic::div_mod::lemma_fundamental_div_mod(m, h);
    vstd::arithmetic::div_mod::lemma_mod_bound(m, h);
    if r + 1 == h {
        assert(h * (q + 1) == h * q + h) by (nonlinear_arith);
        assert(m + 1 == (q + 1) * h + 0) by (nonlinear_arith)
            requires
                m + 1 == h * q + h,
        ;
        vstd::arithmetic::div_mod::lemma_fundamental_div_mod_converse_mod(m + 1, h, q + 1, 0);
    } else {
        assert(m + 1 == q * h + (r + 1)) by (nonlinear_arith)
            requires
                m == h * q + r,
        ;
        vstd::arithmetic::div_mod::lemma_fundamental_div_mod_converse_mod(m + 1, h, q, r + 1);
    }
}

/// What comes of a pull: its events are processed, and its container is handed back;
/// then a new round begins, unless there is nobody to send to.
pub proof fn pulls_are_processed(source: SourceLoop, events: usize, closed: bool)
    requires
        source.stage == LoopStage::Pulling,
    ensures
        ({
            let pulled = source.after(LoopEvent::Pulled { events });
            let processed = pulled.0.after(LoopEvent::Processed { closed });
            &&& events > 0 ==> pulled.1 == LoopAction::ProcessBatch
            &&& events > 0 ==> processed.1 == LoopAction::RecycleBuffer
            &&& events > 0 && closed ==> processed.0.after(LoopEvent::Finished).1
                == LoopAction::DrainAcks
            &&& events > 0 && !closed ==> processed.0.after(LoopEvent::Finished).1
                == LoopAction::ApplyReadyAcks
            &&& events == 0 ==> pulled.1 == LoopAction::RecycleBuffer
            &&& events == 0 ==> pulled.0.after(LoopEvent::Finished).1
                == LoopAction::ApplyReadyAcks
            &&& pulled.0.error_backoff == 100
        }),
{
}

/// Pauses after failures in a row: the first is a tenth of a second, each one is
/// twice the one before, and none is longer than five seconds.
pub open spec fn pause_after(failures: nat) -> int
    decreases failures,
{
    if failures == 0 {
        100
    } else if 2 * pause_after((failures - 1) as nat) <= 5000 {
        2 * pause_after((failures - 1) as nat)
    } else {
        5000
    }
}

/// A pull that fails and may succeed again is followed by its pause and a new round;
/// one that cannot ends the loop. The pauses in a row are as told.
pub proof fn failed_pulls_pause(source: SourceLoop, failures: nat)
    requires
        source.stage == LoopStage::Pulling,
        source.error_backoff == pause_after(failures),
    ensures
        ({
            let failed = source.after(LoopEvent::PullFailed { recoverable: true });
            &&& failed.1 == (LoopAction::BackOff { millis: pause_after(failures) as u64 })
            &&& failed.0.error_backoff == pause_after(failures + 1)
            &&& failed.0.after(LoopEvent::Finished).1 == LoopAction::ApplyReadyAcks
        }),
        source.after(LoopEvent::PullFailed { recoverable: false }).1 == LoopAction::ReportAndDrain,
        100 <= pause_after(failures) <= 5000,
{
    lemma_pauses(failures);
}

proof fn lemma_pauses(failures: nat)
    ensures
        100 <= pause_after(failures) <= 5000,
    decreases failures,
{
    if failures > 0 {
        lemma_pauses((failures - 1) as nat);
    }
}

/// The end waits for the outstanding acknowledgements, and then there is nothing
/// more, whatever comes.
pub proof fn loops_end(source: SourceLoop, event: LoopEvent)
    ensures
        source.stage == LoopStage::Draining ==> source.after(LoopEvent::Finished).1
            == LoopAction::Done && source.after(LoopEvent::Finished).0.stage == LoopStage::Over,
        source.stage == LoopStage::Over ==> source.after(event).1 == LoopAction::Done
            && source.after(event).0.stage == LoopStage::Over,
        source.after(event).0.acknowledgements == source.acknowledgements,
        source.after(event).0.checkpoint_interval == source.checkpoint_interval,
        source.after(event).0.health_interval == source.health_interval,
{
}

} // verus!
