//! What error codes mean, by their numbers.

use vstd::prelude::*;

use crate::win32_errors::{
    DrainOutcome, QueryOrigin, RenderDisposition, SkipReason, SubscribeOutcome,
};

verus! {

/// A failed read is drained on 259, and on 4317 with nothing returned; it skips
/// the channel on 15000, 15009 and 5, and on 15001 where the query is the
/// operator's; it halves the batch on 1734; on every other number, known or not,
/// the subscription is rebuilt.
pub proof fn failed_reads_mean(code: u32, returned: u32, origin: QueryOrigin)
    ensures
        ({
            let outcome = crate::win32_errors::drain_outcome(code, returned, origin);
            &&& outcome == DrainOutcome::Drained <==> code == 259 || (code == 4317 && returned
                == 0)
            &&& outcome == DrainOutcome::SkipChannel(SkipReason::InvalidChannelPath) <==> code
                == 15000
            &&& outcome == DrainOutcome::SkipChannel(SkipReason::DirectChannel) <==> code == 15009
            &&& outcome == DrainOutcome::SkipChannel(SkipReason::AccessDenied) <==> code == 5
            &&& outcome == DrainOutcome::SkipChannel(SkipReason::OperatorQueryInvalid) <==> code
                == 15001 && origin == QueryOrigin::Operator
            &&& outcome == DrainOutcome::ReduceBatch <==> code == 1734
        }),
{
}

/// A failed subscribe skips the channel on 15000, 15009 and 5, and on 15001 where
/// the query is the operator's; 15001 of a generated query asks for another rung;
/// 1168, 15011, 15012 and 16953 say that the position is gone; everything else is
/// retried as it is.
pub proof fn failed_subscribes_mean(code: u32, origin: QueryOrigin)
    ensures
        ({
            let outcome = crate::win32_errors::subscribe_outcome(code, origin);
            &&& outcome == SubscribeOutcome::SkipChannel(SkipReason::InvalidChannelPath) <==> code
                == 15000
            &&& outcome == SubscribeOutcome::SkipChannel(SkipReason::DirectChannel) <==> code
                == 15009
            &&& outcome == SubscribeOutcome::SkipChannel(SkipReason::AccessDenied) <==> code == 5
            &&& outcome == SubscribeOutcome::SkipChannel(SkipReason::OperatorQueryInvalid) <==> code
                == 15001 && origin == QueryOrigin::Operator
            &&& outcome == SubscribeOutcome::GeneratedQueryInvalid <==> code == 15001 && origin
                == QueryOrigin::Generated
            &&& outcome == SubscribeOutcome::BookmarkDead <==> code == 1168 || code == 15011
                || code == 15012 || code == 16953
        }),
{
}

/// A code that skips a channel at one call skips it at the other, for the same
/// reason.
pub proof fn calls_agree_on_what_to_skip(
    code: u32,
    returned: u32,
    origin: QueryOrigin,
    reason: SkipReason,
)
    ensures
        crate::win32_errors::drain_outcome(code, returned, origin) == DrainOutcome::SkipChannel(
            reason,
        ) <==> crate::win32_errors::subscribe_outcome(code, origin)
            == SubscribeOutcome::SkipChannel(reason),
{
}

/// A rendering grows its buffer on 122, keeps the text on 15029 to 15031, and
/// costs the one event on every other number.
pub proof fn failed_renders_mean(code: u32)
    ensures
        crate::win32_errors::render_disposition(code) == RenderDisposition::GrowBuffer <==> code
            == 122,
        crate::win32_errors::render_disposition(code) == RenderDisposition::UseBuffer <==> 15029
            <= code <= 15031,
        crate::win32_errors::render_disposition(code) == RenderDisposition::DropEvent <==> code
            != 122 && !(15029 <= code <= 15031),
{
}

/// The codes that have a name for the log, by their numbers.
pub proof fn named_codes(a: u32)
    ensures
        crate::win32_errors::code_name(a) is Some <==> (a == 5 || a == 6 || a == 87 || a == 259
            || a == 1223 || a == 1168 || a == 4317 || a == 1717 || a == 1722 || a == 1726 || a
            == 1818 || a == 1734 || a == 15000 || a == 15001 || a == 15007 || a == 15009 || a
            == 15011 || a == 15012 || a == 16953),
{
}

/// The names of those codes.
pub proof fn codes_have_their_names(a: u32)
    ensures
        a == 5 ==> crate::win32_errors::code_name(a) == Some("ERROR_ACCESS_DENIED"@),
        a == 6 ==> crate::win32_errors::code_name(a) == Some("ERROR_INVALID_HANDLE"@),
        a == 87 ==> crate::win32_errors::code_name(a) == Some("ERROR_INVALID_PARAMETER"@),
        a == 259 ==> crate::win32_errors::code_name(a) == Some("ERROR_NO_MORE_ITEMS"@),
        a == 1223 ==> crate::win32_errors::code_name(a) == Some("ERROR_CANCELLED"@),
        a == 1168 ==> crate::win32_errors::code_name(a) == Some("ERROR_NOT_FOUND"@),
        a == 4317 ==> crate::win32_errors::code_name(a) == Some("ERROR_INVALID_OPERATION"@),
        a == 1717 ==> crate::win32_errors::code_name(a) == Some("RPC_S_UNKNOWN_IF"@),
        a == 1722 ==> crate::win32_errors::code_name(a) == Some("RPC_S_SERVER_UNAVAILABLE"@),
        a == 1726 ==> crate::win32_errors::code_name(a) == Some("RPC_S_CALL_FAILED"@),
        a == 1818 ==> crate::win32_errors::code_name(a) == Some("RPC_S_CALL_CANCELLED"@),
        a == 1734 ==> crate::win32_errors::code_name(a) == Some("RPC_S_INVALID_BOUND"@),
        a == 15000 ==> crate::win32_errors::code_name(a) == Some(
            "ERROR_EVT_INVALID_CHANNEL_PATH"@,
        ),
        a == 15001 ==> crate::win32_errors::code_name(a) == Some("ERROR_EVT_INVALID_QUERY"@),
        a == 15007 ==> crate::win32_errors::code_name(a) == Some("ERROR_EVT_CHANNEL_NOT_FOUND"@),
{
}

/// The code of a failed call is the low word of its result.
pub proof fn codes_are_low_words(hresult: i32, code: u32)
    requires
        call_ensures(crate::win32_errors::win32_code, (hresult,), code),
    ensures
        code == (hresult as u32) % 65536,
        code <= 65535,
        0 <= hresult <= 65535 ==> code == hresult,
{
    let bits = hresult as u32;
    assert(bits & 0xFFFF == bits % 65536) by (bit_vector);
}

} // verus!
