//! What an error code means at each call.

use windows_event_log::win32_errors::{
    classify_evt_next, classify_render, classify_subscribe, describe, win32_code, DrainOutcome,
    QueryOrigin, RenderDisposition, SkipReason, SubscribeOutcome, ERROR_EVT_CHANNEL_NOT_FOUND,
    ERROR_EVT_INVALID_CHANNEL_PATH, ERROR_EVT_INVALID_QUERY,
    ERROR_EVT_QUERY_RESULT_INVALID_POSITION, ERROR_EVT_QUERY_RESULT_STALE,
    ERROR_EVT_SUBSCRIPTION_TO_DIRECT_CHANNEL, ERROR_INSUFFICIENT_BUFFER, ERROR_INVALID_OPERATION,
    ERROR_NOT_FOUND, INHERITED_UNDOCUMENTED_16953, RPC_S_INVALID_BOUND,
};

#[test]
fn skip_reason_slugs_are_the_exact_wire_strings() {
    assert_eq!(
        SkipReason::InvalidChannelPath.as_str(),
        "invalid_channel_path"
    );
    assert_eq!(SkipReason::DirectChannel.as_str(), "direct_channel");
    assert_eq!(
        SkipReason::OperatorQueryInvalid.as_str(),
        "operator_query_invalid"
    );
    assert_eq!(SkipReason::AccessDenied.as_str(), "access_denied");
}

#[test]
fn bound_constants_have_their_real_values() {
    assert_eq!(ERROR_EVT_INVALID_CHANNEL_PATH, 15000);
    assert_eq!(ERROR_EVT_INVALID_QUERY, 15001);
    assert_eq!(ERROR_EVT_CHANNEL_NOT_FOUND, 15007);
    assert_eq!(ERROR_EVT_SUBSCRIPTION_TO_DIRECT_CHANNEL, 15009);
    assert_eq!(ERROR_EVT_QUERY_RESULT_STALE, 15011);
    assert_eq!(ERROR_EVT_QUERY_RESULT_INVALID_POSITION, 15012);
    assert_eq!(ERROR_INVALID_OPERATION, 4317);
    assert_eq!(ERROR_NOT_FOUND, 1168);
    assert_eq!(RPC_S_INVALID_BOUND, 1734);
}

#[test]
fn no_more_items_is_a_benign_drain_terminator() {
    assert_eq!(
        classify_evt_next(259, 0, QueryOrigin::Operator),
        DrainOutcome::Drained
    );
}

#[test]
fn invalid_operation_is_discriminated_on_the_returned_count() {
    assert_eq!(
        classify_evt_next(4317, 0, QueryOrigin::Operator),
        DrainOutcome::Drained
    );
    assert_eq!(
        classify_evt_next(4317, 3, QueryOrigin::Operator),
        DrainOutcome::Rebuild
    );
}

#[test]
fn unknown_codes_rebuild_rather_than_retrying_the_same_handle() {
    for code in [6u32, 87, 1717, 1722, 1726, 1818, 15007, 15011, 15012, 60123] {
        assert_eq!(
            classify_evt_next(code, 0, QueryOrigin::Operator),
            DrainOutcome::Rebuild,
            "code {code} must rebuild"
        );
    }
}

#[test]
fn oversized_batch_reduces_rather_than_rebuilding_blindly() {
    assert_eq!(
        classify_evt_next(1734, 0, QueryOrigin::Operator),
        DrainOutcome::ReduceBatch
    );
}

#[test]
fn a_cancel_at_evt_next_is_always_service_side_and_rebuilds() {
    assert_eq!(
        classify_evt_next(1223, 0, QueryOrigin::Operator),
        DrainOutcome::Rebuild
    );
}

#[test]
fn invalid_query_splits_by_origin() {
    assert_eq!(
        classify_evt_next(15001, 0, QueryOrigin::Operator),
        DrainOutcome::SkipChannel(SkipReason::OperatorQueryInvalid)
    );
    assert_eq!(
        classify_subscribe(15001, QueryOrigin::Operator),
        SubscribeOutcome::SkipChannel(SkipReason::OperatorQueryInvalid)
    );
    assert_eq!(
        classify_subscribe(15001, QueryOrigin::Generated),
        SubscribeOutcome::GeneratedQueryInvalid
    );
}

#[test]
fn access_denied_skips_the_generation_rather_than_looping() {
    assert_eq!(
        classify_evt_next(5, 0, QueryOrigin::Operator),
        DrainOutcome::SkipChannel(SkipReason::AccessDenied)
    );
    assert_eq!(
        classify_subscribe(5, QueryOrigin::Operator),
        SubscribeOutcome::SkipChannel(SkipReason::AccessDenied)
    );
}

#[test]
fn bookmark_death_codes_advance_the_ladder() {
    for code in [1168u32, 15011, 15012, INHERITED_UNDOCUMENTED_16953] {
        assert_eq!(
            classify_subscribe(code, QueryOrigin::Operator),
            SubscribeOutcome::BookmarkDead,
            "code {code} must be treated as bookmark death"
        );
    }
}

#[test]
fn channel_not_found_at_subscribe_retries() {
    assert_eq!(
        classify_subscribe(15007, QueryOrigin::Operator),
        SubscribeOutcome::Retry
    );
}

#[test]
fn insufficient_buffer_cannot_express_a_rebuild() {
    let disposition = classify_render(ERROR_INSUFFICIENT_BUFFER);
    assert_eq!(disposition, RenderDisposition::GrowBuffer);
}

#[test]
fn describe_is_descriptive_only() {
    assert_eq!(describe(15007), Some("ERROR_EVT_CHANNEL_NOT_FOUND"));
    assert_eq!(describe(60123), None);
}

#[test]
fn paths_and_direct_channels_are_skipped_with_their_reason() {
    for (code, reason) in [
        (15000, SkipReason::InvalidChannelPath),
        (15009, SkipReason::DirectChannel),
    ] {
        assert_eq!(
            classify_evt_next(code, 0, QueryOrigin::Generated),
            DrainOutcome::SkipChannel(reason)
        );
        assert_eq!(
            classify_subscribe(code, QueryOrigin::Generated),
            SubscribeOutcome::SkipChannel(reason)
        );
    }
}

/// The low word of a result in the Win32 facility is the code.
#[test]
fn the_code_is_taken_out_of_the_result() {
    assert_eq!(win32_code(0x8007_0005u32 as i32), 5);
    assert_eq!(win32_code(0x8007_3A99u32 as i32), 15001);
    assert_eq!(win32_code(0), 0);
}
