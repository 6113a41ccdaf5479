//! Win32 error codes and what each means at the call that returned it.
//!
//! The same number means different things at different call sites, so there is
//! one classifier per call site. A code that no classifier knows costs a
//! rebuild or a retry, never a reuse of the failed handle.

use vstd::prelude::*;

verus! {

pub const ERROR_ACCESS_DENIED: u32 = 5;

pub const ERROR_INVALID_HANDLE: u32 = 6;

pub const ERROR_INVALID_PARAMETER: u32 = 87;

pub const ERROR_INSUFFICIENT_BUFFER: u32 = 122;

pub const ERROR_NO_MORE_ITEMS: u32 = 259;

pub const ERROR_NOT_FOUND: u32 = 1168;

pub const ERROR_CANCELLED: u32 = 1223;

pub const RPC_S_UNKNOWN_IF: u32 = 1717;

pub const RPC_S_SERVER_UNAVAILABLE: u32 = 1722;

pub const RPC_S_CALL_FAILED: u32 = 1726;

pub const RPC_S_INVALID_BOUND: u32 = 1734;

pub const RPC_S_CALL_CANCELLED: u32 = 1818;

pub const ERROR_INVALID_OPERATION: u32 = 4317;

pub const ERROR_EVT_INVALID_CHANNEL_PATH: u32 = 15000;

pub const ERROR_EVT_INVALID_QUERY: u32 = 15001;

pub const ERROR_EVT_CHANNEL_NOT_FOUND: u32 = 15007;

pub const ERROR_EVT_SUBSCRIPTION_TO_DIRECT_CHANNEL: u32 = 15009;

pub const ERROR_EVT_QUERY_RESULT_STALE: u32 = 15011;

pub const ERROR_EVT_QUERY_RESULT_INVALID_POSITION: u32 = 15012;

pub const ERROR_EVT_UNRESOLVED_VALUE_INSERT: u32 = 15029;

pub const ERROR_EVT_UNRESOLVED_PARAMETER_INSERT: u32 = 15030;

pub const ERROR_EVT_MAX_INSERTS_REACHED: u32 = 15031;

/// An undocumented code that was once taken for a dead position. A dead branch
/// costs one branch; deleting a live one costs a wedged channel, so it is kept.
pub const INHERITED_UNDOCUMENTED_16953: u32 = 16953;

/// Whether the active query on a channel came from the operator or was
/// generated here.
#[derive(Debug, Clone, Copy, PartialEq, Eq, Structural)]
pub enum QueryOrigin {
    /// The configured query. Invalid means that the configuration is wrong and
    /// will stay wrong.
    Operator,
    /// A predicate generated here. Invalid means that another rung of the resume
    /// ladder may do better.
    Generated,
}

/// Why a channel is skipped for a subscription generation.
#[derive(Debug, Clone, Copy, PartialEq, Eq, Structural)]
pub enum SkipReason {
    /// The channel path is not a valid path.
    InvalidChannelPath,
    /// Direct (analytic and debug) channels cannot be subscribed to.
    DirectChannel,
    /// The operator's query is invalid.
    OperatorQueryInvalid,
    /// No read access. The periodic refresh tries again.
    AccessDenied,
}

/// The wire name of a skip reason.
pub open spec fn skip_reason_slug(reason: SkipReason) -> Seq<char> {
    match reason {
        SkipReason::InvalidChannelPath => "invalid_channel_path"@,
        SkipReason::DirectChannel => "direct_channel"@,
        SkipReason::OperatorQueryInvalid => "operator_query_invalid"@,
        SkipReason::AccessDenied => "access_denied"@,
    }
}

impl SkipReason {
    /// The stable slug for this reason, a wire vocabulary that consumers key on.
    pub fn as_str(self) -> (slug: &'static str)
        ensures
            slug@ == skip_reason_slug(self),
    {
        match self {
            SkipReason::InvalidChannelPath => "invalid_channel_path",
            SkipReason::DirectChannel => "direct_channel",
            SkipReason::OperatorQueryInvalid => "operator_query_invalid",
            SkipReason::AccessDenied => "access_denied",
        }
    }
}

/// What the drain loop does about a failed `EvtNext`.
#[derive(Debug, Clone, Copy, PartialEq, Eq, Structural)]
pub enum DrainOutcome {
    /// No error: the channel is drained for now.
    Drained,
    /// Stop reading this channel for this subscription generation.
    SkipChannel(SkipReason),
    /// Halve the batch and reopen from the bookmark.
    ReduceBatch,
    /// Discard what was returned, tear down and resubscribe with backoff.
    Rebuild,
}

/// What a failed `EvtSubscribe` means.
#[derive(Debug, Clone, Copy, PartialEq, Eq, Structural)]
pub enum SubscribeOutcome {
    /// Stop asking for this channel this generation.
    SkipChannel(SkipReason),
    /// The stored position no longer resolves.
    BookmarkDead,
    /// The generated predicate is invalid: advance one rung.
    GeneratedQueryInvalid,
    /// Retry the same rung after backoff.
    Retry,
}

/// What to do about an error while rendering one event. There is no way to ask
/// for a rebuild here: one unprocessable event costs one event.
#[derive(Debug, Clone, Copy, PartialEq, Eq, Structural)]
pub enum RenderDisposition {
    /// The buffer holds usable text despite the status.
    UseBuffer,
    /// Grow the buffer and render again.
    GrowBuffer,
    /// Give up on this one event.
    DropEvent,
}

/// The reason to skip a channel that a code gives wherever it occurs.
pub open spec fn skip_reason_for(code: u32, origin: QueryOrigin) -> Option<SkipReason> {
    if code == ERROR_EVT_INVALID_CHANNEL_PATH {
        Some(SkipReason::InvalidChannelPath)
    } else if code == ERROR_EVT_SUBSCRIPTION_TO_DIRECT_CHANNEL {
        Some(SkipReason::DirectChannel)
    } else if code == ERROR_ACCESS_DENIED {
        Some(SkipReason::AccessDenied)
    } else if code == ERROR_EVT_INVALID_QUERY && origin == QueryOrigin::Operator {
        Some(SkipReason::OperatorQueryInvalid)
    } else {
        None
    }
}

/// Whether a failed `EvtNext` only says that nothing is left to read.
pub open spec fn is_benign_drain(code: u32, returned: u32) -> bool {
    code == ERROR_NO_MORE_ITEMS || (code == ERROR_INVALID_OPERATION && returned == 0)
}

/// The meaning of a failed `EvtNext`.
pub open spec fn drain_outcome(code: u32, returned: u32, origin: QueryOrigin) -> DrainOutcome {
    match skip_reason_for(code, origin) {
        Some(reason) => DrainOutcome::SkipChannel(reason),
        None => if is_benign_drain(code, returned) {
            DrainOutcome::Drained
        } else if code == RPC_S_INVALID_BOUND {
            DrainOutcome::ReduceBatch
        } else {
            DrainOutcome::Rebuild
        },
    }
}

/// Whether a failed `EvtSubscribe` says that the stored position is gone.
pub open spec fn is_bookmark_death(code: u32) -> bool {
    code == ERROR_NOT_FOUND || code == ERROR_EVT_QUERY_RESULT_STALE || code
        == ERROR_EVT_QUERY_RESULT_INVALID_POSITION || code == INHERITED_UNDOCUMENTED_16953
}

/// The meaning of a failed `EvtSubscribe`.
pub open spec fn subscribe_outcome(code: u32, origin: QueryOrigin) -> SubscribeOutcome {
    match skip_reason_for(code, origin) {
        Some(reason) => SubscribeOutcome::SkipChannel(reason),
        None => if code == ERROR_EVT_INVALID_QUERY {
            SubscribeOutcome::GeneratedQueryInvalid
        } else if is_bookmark_death(code) {
            SubscribeOutcome::BookmarkDead
        } else {
            SubscribeOutcome::Retry
        },
    }
}

/// The meaning of an error while rendering an event.
pub open spec fn render_disposition(code: u32) -> RenderDisposition {
    if code == ERROR_INSUFFICIENT_BUFFER {
        RenderDisposition::GrowBuffer
    } else if code == ERROR_EVT_UNRESOLVED_VALUE_INSERT || code
        == ERROR_EVT_UNRESOLVED_PARAMETER_INSERT || code == ERROR_EVT_MAX_INSERTS_REACHED {
        RenderDisposition::UseBuffer
    } else {
        RenderDisposition::DropEvent
    }
}

/// The name of a code, for the codes that have one here.
pub open spec fn code_name(code: u32) -> Option<Seq<char>> {
    if code == ERROR_ACCESS_DENIED {
        Some("ERROR_ACCESS_DENIED"@)
    } else if code == ERROR_INVALID_HANDLE {
        Some("ERROR_INVALID_HANDLE"@)
    } else if code == ERROR_INVALID_PARAMETER {
        Some("ERROR_INVALID_PARAMETER"@)
    } else if code == ERROR_NO_MORE_ITEMS {
        Some("ERROR_NO_MORE_ITEMS"@)
    } else if code == ERROR_CANCELLED {
        Some("ERROR_CANCELLED"@)
    } else if code == ERROR_NOT_FOUND {
        Some("ERROR_NOT_FOUND"@)
    } else if code == ERROR_INVALID_OPERATION {
        Some("ERROR_INVALID_OPERATION"@)
    } else if code == RPC_S_UNKNOWN_IF {
        Some("RPC_S_UNKNOWN_IF"@)
    } else if code == RPC_S_SERVER_UNAVAILABLE {
        Some("RPC_S_SERVER_UNAVAILABLE"@)
    } else if code == RPC_S_CALL_FAILED {
        Some("RPC_S_CALL_FAILED"@)
    } else if code == RPC_S_CALL_CANCELLED {
        Some("RPC_S_CALL_CANCELLED"@)
    } else if code == RPC_S_INVALID_BOUND {
        Some("RPC_S_INVALID_BOUND"@)
    } else if code == ERROR_EVT_INVALID_CHANNEL_PATH {
        Some("ERROR_EVT_INVALID_CHANNEL_PATH"@)
    } else if code == ERROR_EVT_INVALID_QUERY {
        Some("ERROR_EVT_INVALID_QUERY"@)
    } else if code == ERROR_EVT_CHANNEL_NOT_FOUND {
        Some("ERROR_EVT_CHANNEL_NOT_FOUND"@)
    } else if code == ERROR_EVT_SUBSCRIPTION_TO_DIRECT_CHANNEL {
        Some("ERROR_EVT_SUBSCRIPTION_TO_DIRECT_CHANNEL"@)
    } else if code == ERROR_EVT_QUERY_RESULT_STALE {
        Some("ERROR_EVT_QUERY_RESULT_STALE"@)
    } else if code == ERROR_EVT_QUERY_RESULT_INVALID_POSITION {
        Some("ERROR_EVT_QUERY_RESULT_INVALID_POSITION"@)
    } else if code == INHERITED_UNDOCUMENTED_16953 {
        Some("inherited-undocumented-16953"@)
    } else {
        None
    }
}

/// The Win32 code inside an HRESULT: its low 16 bits.
pub fn win32_code(hresult: i32) -> (code: u32)
    ensures
        code == (hresult as u32) & 0xFFFF,
        code <= 0xFFFF,
{
    let code: u32 = (hresult as u32) & 0xFFFF;
    assert(code <= 0xFFFF) by (bit_vector)
        requires
            code == (hresult as u32) & 0xFFFF,
    ;
    code
}

/// Classify an `EvtNext` failure. `returned` is the count that the call wrote
/// out: with handles populated, a code that is benign on an empty batch is a
/// real failure.
pub fn classify_evt_next(code: u32, returned: u32, query_origin: QueryOrigin) -> (outcome:
    DrainOutcome)
    ensures
        outcome == drain_outcome(code, returned, query_origin),
{
    match code {
        ERROR_NO_MORE_ITEMS => DrainOutcome::Drained,
        // Benign only with a zero count.
        ERROR_INVALID_OPERATION => {
            if returned == 0 {
                DrainOutcome::Drained
            } else {
                DrainOutcome::Rebuild
            }
        },
        // Nobody here cancels a drain in flight, so a cancel is the service's.
        ERROR_CANCELLED => DrainOutcome::Rebuild,
        ERROR_EVT_INVALID_CHANNEL_PATH => DrainOutcome::SkipChannel(
            SkipReason::InvalidChannelPath,
        ),
        ERROR_EVT_SUBSCRIPTION_TO_DIRECT_CHANNEL => DrainOutcome::SkipChannel(
            SkipReason::DirectChannel,
        ),
        ERROR_ACCESS_DENIED => DrainOutcome::SkipChannel(SkipReason::AccessDenied),
        ERROR_EVT_INVALID_QUERY => match query_origin {
            QueryOrigin::Operator => DrainOutcome::SkipChannel(SkipReason::OperatorQueryInvalid),
            QueryOrigin::Generated => DrainOutcome::Rebuild,
        },
        RPC_S_INVALID_BOUND => DrainOutcome::ReduceBatch,
        // Everything else, named or not, rebuilds.
        _ => DrainOutcome::Rebuild,
    }
}

/// Classify an `EvtSubscribe` failure.
pub fn classify_subscribe(code: u32, query_origin: QueryOrigin) -> (outcome: SubscribeOutcome)
    ensures
        outcome == subscribe_outcome(code, query_origin),
{
    match code {
        ERROR_EVT_INVALID_CHANNEL_PATH => SubscribeOutcome::SkipChannel(
            SkipReason::InvalidChannelPath,
        ),
        ERROR_EVT_SUBSCRIPTION_TO_DIRECT_CHANNEL => SubscribeOutcome::SkipChannel(
            SkipReason::DirectChannel,
        ),
        ERROR_ACCESS_DENIED => SubscribeOutcome::SkipChannel(SkipReason::AccessDenied),
        ERROR_EVT_INVALID_QUERY => match query_origin {
            QueryOrigin::Operator => SubscribeOutcome::SkipChannel(
                SkipReason::OperatorQueryInvalid,
            ),
            QueryOrigin::Generated => SubscribeOutcome::GeneratedQueryInvalid,
        },
        // With a strict subscription a dead bookmark reports "not found" rather
        // than silently repositioning.
        ERROR_NOT_FOUND
        | ERROR_EVT_QUERY_RESULT_STALE
        | ERROR_EVT_QUERY_RESULT_INVALID_POSITION
        | INHERITED_UNDOCUMENTED_16953 => SubscribeOutcome::BookmarkDead,
        // Channel absent, RPC trouble, handle churn, unknown: retry.
        _ => SubscribeOutcome::Retry,
    }
}

/// The name of a documented code, for log attribution. No behavior keys off it.
pub fn describe(code: u32) -> (name: Option<&'static str>)
    ensures
        name is Some <==> code_name(code) is Some,
        name matches Some(text) ==> code_name(code) == Some(text@),
{
    let name = match code {
        ERROR_ACCESS_DENIED => "ERROR_ACCESS_DENIED",
        ERROR_INVALID_HANDLE => "ERROR_INVALID_HANDLE",
        ERROR_INVALID_PARAMETER => "ERROR_INVALID_PARAMETER",
        ERROR_NO_MORE_ITEMS => "ERROR_NO_MORE_ITEMS",
        ERROR_CANCELLED => "ERROR_CANCELLED",
        ERROR_NOT_FOUND => "ERROR_NOT_FOUND",
        ERROR_INVALID_OPERATION => "ERROR_INVALID_OPERATION",
        RPC_S_UNKNOWN_IF => "RPC_S_UNKNOWN_IF",
        RPC_S_SERVER_UNAVAILABLE => "RPC_S_SERVER_UNAVAILABLE",
        RPC_S_CALL_FAILED => "RPC_S_CALL_FAILED",
        RPC_S_CALL_CANCELLED => "RPC_S_CALL_CANCELLED",
        RPC_S_INVALID_BOUND => "RPC_S_INVALID_BOUND",
        ERROR_EVT_INVALID_CHANNEL_PATH => "ERROR_EVT_INVALID_CHANNEL_PATH",
        ERROR_EVT_INVALID_QUERY => "ERROR_EVT_INVALID_QUERY",
        ERROR_EVT_CHANNEL_NOT_FOUND => "ERROR_EVT_CHANNEL_NOT_FOUND",
        ERROR_EVT_SUBSCRIPTION_TO_DIRECT_CHANNEL => "ERROR_EVT_SUBSCRIPTION_TO_DIRECT_CHANNEL",
        ERROR_EVT_QUERY_RESULT_STALE => "ERROR_EVT_QUERY_RESULT_STALE",
        ERROR_EVT_QUERY_RESULT_INVALID_POSITION => "ERROR_EVT_QUERY_RESULT_INVALID_POSITION",
        INHERITED_UNDOCUMENTED_16953 => "inherited-undocumented-16953",
        _ => {
            return None;
        },
    };
    Some(name)
}

/// Classify an error from rendering or sizing a buffer.
pub fn classify_render(code: u32) -> (disposition: RenderDisposition)
    ensures
        disposition == render_disposition(code),
{
    match code {
        ERROR_INSUFFICIENT_BUFFER => RenderDisposition::GrowBuffer,
        ERROR_EVT_UNRESOLVED_VALUE_INSERT
        | ERROR_EVT_UNRESOLVED_PARAMETER_INSERT
        | ERROR_EVT_MAX_INSERTS_REACHED => RenderDisposition::UseBuffer,
        _ => RenderDisposition::DropEvent,
    }
}

/// A failed read counts as drained only for "no more items", or for "invalid
/// operation" with nothing returned. Every other failure gives the handle up.
pub proof fn only_benign_codes_drain(code: u32, returned: u32, origin: QueryOrigin)
    ensures
        drain_outcome(code, returned, origin) == DrainOutcome::Drained <==> code
            == ERROR_NO_MORE_ITEMS || (code == ERROR_INVALID_OPERATION && returned == 0),
{
}

/// A code that the drain classifier has no arm for rebuilds.
pub proof fn unknown_drain_codes_rebuild(code: u32, returned: u32, origin: QueryOrigin)
    requires
        code != ERROR_NO_MORE_ITEMS,
        code != ERROR_INVALID_OPERATION,
        code != ERROR_EVT_INVALID_CHANNEL_PATH,
        code != ERROR_EVT_SUBSCRIPTION_TO_DIRECT_CHANNEL,
        code != ERROR_ACCESS_DENIED,
        code != ERROR_EVT_INVALID_QUERY,
        code != RPC_S_INVALID_BOUND,
    ensures
        drain_outcome(code, returned, origin) == DrainOutcome::Rebuild,
{
}

/// A code that the subscribe classifier has no arm for is retried.
pub proof fn unknown_subscribe_codes_retry(code: u32, origin: QueryOrigin)
    requires
        code != ERROR_EVT_INVALID_CHANNEL_PATH,
        code != ERROR_EVT_SUBSCRIPTION_TO_DIRECT_CHANNEL,
        code != ERROR_ACCESS_DENIED,
        code != ERROR_EVT_INVALID_QUERY,
        code != ERROR_NOT_FOUND,
        code != ERROR_EVT_QUERY_RESULT_STALE,
        code != ERROR_EVT_QUERY_RESULT_INVALID_POSITION,
        code != INHERITED_UNDOCUMENTED_16953,
    ensures
        subscribe_outcome(code, origin) == SubscribeOutcome::Retry,
{
}

/// A query generated here never skips a channel for being invalid: only the
/// operator's own query does.
pub proof fn generated_queries_never_skip_a_channel(code: u32, returned: u32, origin: QueryOrigin)
    ensures
        drain_outcome(code, returned, origin) == DrainOutcome::SkipChannel(
            SkipReason::OperatorQueryInvalid,
        ) ==> origin == QueryOrigin::Operator,
        subscribe_outcome(code, origin) == SubscribeOutcome::SkipChannel(
            SkipReason::OperatorQueryInvalid,
        ) ==> origin == QueryOrigin::Operator,
{
}

} // verus!
