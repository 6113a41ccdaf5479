//! Queries: what a configuration asks for, and what a time rung adds.

use windows_event_log::config::WindowsEventLogConfig;
use windows_event_log::error::WindowsEventLogError;
use windows_event_log::query::{
    build_xpath_query, escape_xml_attr, escape_xml_text, SubscriptionFactory,
    EVT_SUBSCRIBE_START_AT_OLDEST_RECORD, EVT_SUBSCRIBE_TO_FUTURE_EVENTS, STRICT_BOOKMARK_RESUME,
};
use windows_event_log::recovery::{ResumeState, Rung, TimeRung};
use windows_event_log::time::Timestamp;
use windows_event_log::win32_errors::QueryOrigin;

/// 2026-08-07 12:00:00 UTC.
fn noon() -> Timestamp {
    Timestamp::new(1_786_104_000, 0).unwrap()
}

fn factory(base: &str) -> SubscriptionFactory {
    SubscriptionFactory {
        channel: "Application".to_string(),
        base_query: base.to_string(),
        base_origin: QueryOrigin::Operator,
        read_existing_events: true,
    }
}

fn at_boundary_tick(record_id: u64) -> ResumeState {
    let mut resume = ResumeState::new(true);
    resume.observe_event(noon(), record_id);
    resume.rung = Rung::TimeAdvance(TimeRung::BoundaryTick);
    resume
}

#[test]
fn a_time_predicate_is_composed_onto_a_wildcard_base_and_nothing_else() {
    const OPERATOR_QUERY: &str = "*[System[EventID=4624]]";

    let mut resume = ResumeState::new(true);
    resume.observe_event(noon(), 42);

    // Bookmark rung. A time floor exists, and it must not be used: the
    // bookmark is the position.
    assert_eq!(
        factory("*").query_for(&resume),
        ("*".to_string(), QueryOrigin::Operator),
        "a bookmark resume subscribes with the configured query"
    );

    // Time rung over a wildcard base: the predicate IS the resume position.
    resume.rung = Rung::TimeAdvance(TimeRung::BoundaryTick);
    assert_eq!(
        factory("*").query_for(&resume),
        (
            "*[System[TimeCreated[@SystemTime>='2026-08-07T12:00:00.000Z']]]".to_string(),
            QueryOrigin::Generated
        ),
        "a time rung over a wildcard base subscribes with the generated predicate"
    );

    // Time rung over an operator query: the floor in a Suppress clause, and the
    // operator's XPath carried through verbatim.
    let (composed, origin) = factory(OPERATOR_QUERY).query_for(&resume);
    assert_eq!(origin, QueryOrigin::Generated);
    assert_eq!(
        composed,
        "<QueryList><Query Id=\"0\" Path=\"Application\">\
         <Select Path=\"Application\">*[System[EventID=4624]]</Select>\
         <Suppress Path=\"Application\">*[System[TimeCreated[@SystemTime&lt;'2026-08-07T12:00:00.000Z']]]</Suppress>\
         </Query></QueryList>",
        "the floor rides in a Suppress clause and the operator XPath is untouched"
    );
    assert!(composed.contains(OPERATOR_QUERY));
}

#[test]
fn composition_preserves_xpath_string_literals_and_escapes_markup() {
    let resume = at_boundary_tick(1);

    let quoted = "*[System[Provider[@Name='Microsoft-Windows-Security-Auditing']]]";
    let (composed, _) = factory(quoted).query_for(&resume);
    assert!(
        composed.contains(quoted),
        "apostrophes must not be escaped; got {composed}"
    );

    let markup = "*[System[Level<=3]]";
    let (composed, _) = factory(markup).query_for(&resume);
    assert!(
        composed.contains("*[System[Level&lt;=3]]"),
        "a `<` in the operator query must be escaped; got {composed}"
    );
}

#[test]
fn a_structured_operator_query_is_not_wrapped() {
    let resume = at_boundary_tick(1);
    let structured = "<QueryList><Query Id=\"0\"><Select>*</Select></Query></QueryList>";
    assert_eq!(
        factory(structured).query_for(&resume),
        (structured.to_string(), QueryOrigin::Operator),
        "a structured operator query is passed through, not nested"
    );
}

#[test]
fn escaping_replaces_exactly_the_markup() {
    assert_eq!(escape_xml_text("a<b>&'\"c"), "a&lt;b&gt;&amp;'\"c");
    assert_eq!(escape_xml_attr("a<b>&'\"c"), "a&lt;b&gt;&amp;'&quot;c");
    assert_eq!(escape_xml_text("plain"), "plain");
}

#[test]
fn a_configuration_without_filters_asks_for_everything() {
    let config = WindowsEventLogConfig::default();
    assert_eq!(build_xpath_query(&config).unwrap(), "*");
}

#[test]
fn an_operator_query_is_taken_as_it_is() {
    let mut config = WindowsEventLogConfig::default();
    config.event_query = Some("*[System[Level=2]]".to_string());
    config.only_event_ids = Some(vec![1, 2]);
    assert_eq!(build_xpath_query(&config).unwrap(), "*[System[Level=2]]");
}

#[test]
fn event_ids_become_a_query() {
    let mut config = WindowsEventLogConfig::default();
    config.only_event_ids = Some(vec![4624, 4625]);
    assert_eq!(
        build_xpath_query(&config).unwrap(),
        "*[System[EventID=4624 or EventID=4625]]"
    );
}

/// A query that is too long for the system is left to the filter in the reader.
#[test]
fn too_many_event_ids_fall_back_to_everything() {
    let mut config = WindowsEventLogConfig::default();
    config.only_event_ids = Some((10_000..12_000).collect());
    assert_eq!(build_xpath_query(&config).unwrap(), "*");
}

#[test]
fn errors_carry_their_message() {
    let error = WindowsEventLogError::ConfigError {
        message: "x".to_string(),
    };
    assert!(matches!(error, WindowsEventLogError::ConfigError { message } if message == "x"));
}

#[test]
fn start_points_follow_the_rung_and_the_bookmark() {
    let mut resume = ResumeState::new(true);
    let positioned = factory("*").build(true, 7, &resume);
    assert!(positioned.use_bookmark);
    assert_eq!(positioned.flags, STRICT_BOOKMARK_RESUME);

    let unpositioned = factory("*").build(false, 7, &resume);
    assert!(!unpositioned.use_bookmark);
    assert_eq!(unpositioned.flags, EVT_SUBSCRIBE_START_AT_OLDEST_RECORD);

    let mut quiet = factory("*");
    quiet.read_existing_events = false;
    assert_eq!(
        quiet.build(false, 7, &resume).flags,
        EVT_SUBSCRIBE_TO_FUTURE_EVENTS
    );

    resume.rung = Rung::FutureOnly;
    let future = factory("*").build(true, 7, &resume);
    assert!(!future.use_bookmark);
    assert_eq!(future.flags, EVT_SUBSCRIBE_TO_FUTURE_EVENTS);
}
