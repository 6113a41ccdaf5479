//! Spans, clock readings and calendar times.

use vstd::prelude::*;

use crate::time::{Deadline, Span, Tick, Timestamp};

verus! {

/// Spans count nanoseconds, add up, and stop at the longest.
pub proof fn spans_add_up(secs: u64, whole: Span, nanos: u64, part: Span, other: Span, sum: Span)
    requires
        call_ensures(Span::from_secs, (secs,), whole),
        call_ensures(Span::from_nanos, (nanos,), part),
        call_ensures(Span::saturating_add, (whole, other), sum),
    ensures
        whole@ == secs * 1_000_000_000,
        part@ == nanos,
        whole@ + other@ <= 18_446_744_073_709_551_615_999_999_999 ==> sum@ == whole@ + other@,
        whole@ + other@ > 18_446_744_073_709_551_615_999_999_999 ==> sum@
            == 18_446_744_073_709_551_615_999_999_999,
{
}

/// A deadline lies its span after the reading that it was set from, is reached from
/// then on and not before, and time passes forward alone.
pub proof fn deadlines_are_reached_after_their_span(
    start: Tick,
    span: Span,
    deadline: Deadline,
    now: Tick,
    due: bool,
    passed: Span,
)
    requires
        call_ensures(Tick::plus, (start, span), deadline),
        call_ensures(Deadline::reached, (deadline, now), due),
        call_ensures(Tick::since, (now, start), passed),
    ensures
        due <==> now.nanos - start.nanos >= span@,
        now.nanos >= start.nanos ==> passed@ == now.nanos - start.nanos,
        now.nanos < start.nanos ==> passed@ == 0,
        now.nanos >= start.nanos ==> (due <==> passed@ >= span@),
{
}

/// A calendar time has the parts that it is made from, and there is one for every
/// second of the calendar and every nanosecond in it; a leap second only at the end
/// of a minute.
pub proof fn calendar_times_keep_their_parts(secs: i64, nanos: u32, time: Option<Timestamp>)
    requires
        call_ensures(Timestamp::new, (secs, nanos), time),
    ensures
        -8_334_601_228_800 <= secs <= 8_210_266_876_799 && nanos < 1_000_000_000 ==> time is Some,
        time matches Some(t) ==> t.secs() == secs && t.nanos() == nanos,
        secs < -8_334_601_228_800 || secs > 8_210_266_876_799 || nanos >= 2_000_000_000
            ==> time is None,
        1_000_000_000 <= nanos < 2_000_000_000 && secs % 60 != 59 ==> time is None,
        -8_334_601_228_800 <= secs <= 8_210_266_876_799 && nanos < 2_000_000_000 && secs % 60 == 59
            ==> time is Some,
{
}

/// A time that is no leap second moves by as many nanoseconds as it is told, and
/// moves back again. One inside a leap second stays in its second while it moves
/// inside it; past its end it is as far on as if the leap second were not there.
pub proof fn times_move_by_their_delta(secs: int, nanos: int, delta: int)
    requires
        0 <= nanos < 2_000_000_000,
    ensures
        ({
            let moved = crate::time::shifted(secs, nanos, delta);
            &&& 0 <= moved.1 < 2_000_000_000
            &&& nanos < 1_000_000_000 ==> {
                &&& moved.1 < 1_000_000_000
                &&& moved.0 * 1_000_000_000 + moved.1 - delta == secs * 1_000_000_000 + nanos
                &&& crate::time::shifted(moved.0, moved.1, -delta) == (secs, nanos)
            }
            &&& nanos >= 1_000_000_000 && 0 <= delta < 2_000_000_000 - nanos ==> moved.0 == secs
                && moved.1 - nanos == delta
            &&& nanos >= 1_000_000_000 && -nanos <= delta < 0 ==> moved.0 == secs && nanos
                - moved.1 == -delta
            &&& nanos >= 1_000_000_000 && delta >= 2_000_000_000 - nanos ==> moved.0
                * 1_000_000_000 + moved.1 == (secs + 1) * 1_000_000_000 + (delta - (2_000_000_000
                - nanos))
        }),
{
}

} // verus!
