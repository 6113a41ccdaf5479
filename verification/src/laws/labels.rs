//! The words that other programs read: names of rungs and causes, fields of events,
//! and what a configuration claims.

use vstd::prelude::*;

use crate::config::{Resource, WindowsEventLogConfig};
use crate::recovery::{ResumedFrom, Rung};
use crate::schema::{FieldKind, LogNamespace, SchemaField};
use crate::win32_errors::SkipReason;

verus! {

/// The names of the rungs, from the bottom of the ladder.
pub open spec fn rung_labels() -> Seq<Seq<char>> {
    seq![
        "bookmark"@,
        "isolate_one"@,
        "skip_record"@,
        "boundary_tick"@,
        "+1s"@,
        "+10s"@,
        "+60s"@,
        "+5m"@,
        "+30m"@,
        "future_only"@,
    ]
}

/// Each rung is told by its own name.
pub proof fn rungs_have_their_names(i: int)
    requires
        0 <= i < 10,
    ensures
        crate::recovery::rung_name(crate::laws::ladder::rungs()[i]) == rung_labels()[i],
{
}

/// No two rungs share a name.
pub proof fn rungs_are_told_apart(a: Rung, b: Rung)
    requires
        crate::recovery::rung_name(a) == crate::recovery::rung_name(b),
    ensures
        a == b,
{
    reveal_strlit("bookmark");
    reveal_strlit("isolate_one");
    reveal_strlit("skip_record");
    reveal_strlit("boundary_tick");
    reveal_strlit("+1s");
    reveal_strlit("+10s");
    reveal_strlit("+60s");
    reveal_strlit("+5m");
    reveal_strlit("+30m");
    reveal_strlit("future_only");
    let x = crate::laws::ladder::every_rung_has_its_place(a);
    let y = crate::laws::ladder::every_rung_has_its_place(b);
    rungs_have_their_names(x);
    rungs_have_their_names(y);
    assert("bookmark"@[0] == 'b' && "bookmark"@.len() == 8);
    assert("isolate_one"@[0] == 'i' && "skip_record"@[0] == 's' && "future_only"@[0] == 'f');
    assert("boundary_tick"@.len() == 13);
    assert("+1s"@[1] == '1' && "+10s"@[1] == '1' && "+60s"@[1] == '6' && "+5m"@[1] == '5'
        && "+30m"@[1] == '3');
    assert("+1s"@.len() == 3 && "+10s"@.len() == 4);
    assert("+1s"@[0] == '+' && "+10s"@[0] == '+' && "+60s"@[0] == '+' && "+5m"@[0] == '+'
        && "+30m"@[0] == '+');
    assert("boundary_tick"@[0] == 'b');
}

/// Where a resume comes from, and why a channel is skipped, have names of their own.
pub proof fn sources_and_reasons_have_their_names()
    ensures
        crate::recovery::resumed_from_name(ResumedFrom::Bookmark) == "bookmark"@,
        crate::recovery::resumed_from_name(ResumedFrom::TimeFallback) == "time_fallback"@,
        crate::recovery::resumed_from_name(ResumedFrom::FutureOnly) == "future_only"@,
        crate::win32_errors::skip_reason_slug(SkipReason::InvalidChannelPath)
            == "invalid_channel_path"@,
        crate::win32_errors::skip_reason_slug(SkipReason::DirectChannel) == "direct_channel"@,
        crate::win32_errors::skip_reason_slug(SkipReason::OperatorQueryInvalid)
            == "operator_query_invalid"@,
        crate::win32_errors::skip_reason_slug(SkipReason::AccessDenied) == "access_denied"@,
{
}

/// The layout is the source's own setting where it has one, else that of the whole
/// configuration.
pub proof fn layouts_are_the_nearest_setting(own: Option<bool>, global: LogNamespace)
    ensures
        own == Some(true) ==> crate::schema::namespace_of(own, global) == LogNamespace::Vector,
        own == Some(false) ==> crate::schema::namespace_of(own, global) == LogNamespace::Legacy,
        own is None ==> crate::schema::namespace_of(own, global) == global,
{
}

/// Whether fields name one with a kind.
pub open spec fn has_field(fields: Seq<SchemaField>, name: Seq<char>, kind: FieldKind) -> bool {
    exists|i: int| 0 <= i < fields.len() && (#[trigger] fields[i]).name@ == name && fields[i].kind
        == kind
}

/// Events of the newer layout have twenty-nine fields; of the older one nothing is
/// said.
pub proof fn events_have_their_fields(
    own: Option<bool>,
    global: LogNamespace,
    fields: Option<Vec<SchemaField>>,
)
    requires
        call_ensures(crate::schema::outputs, (own, global), fields),
    ensures
        fields is Some <==> own == Some(true) || (own is None && global == LogNamespace::Vector),
        fields matches Some(list) ==> {
            &&& list@.len() == 29
            &&& has_field(list@, "timestamp"@, FieldKind::Timestamp)
            &&& has_field(list@, "message"@, FieldKind::Bytes)
            &&& has_field(list@, "level"@, FieldKind::Bytes)
            &&& has_field(list@, "source"@, FieldKind::Bytes)
            &&& has_field(list@, "event_id"@, FieldKind::Integer)
            &&& has_field(list@, "provider_name"@, FieldKind::Bytes)
            &&& has_field(list@, "computer"@, FieldKind::Bytes)
            &&& has_field(list@, "user_id"@, FieldKind::Bytes)
            &&& has_field(list@, "user_name"@, FieldKind::Bytes)
            &&& has_field(list@, "record_id"@, FieldKind::Integer)
            &&& has_field(list@, "activity_id"@, FieldKind::Bytes)
            &&& has_field(list@, "related_activity_id"@, FieldKind::Bytes)
            &&& has_field(list@, "process_id"@, FieldKind::Integer)
            &&& has_field(list@, "thread_id"@, FieldKind::Integer)
            &&& has_field(list@, "channel"@, FieldKind::Bytes)
            &&& has_field(list@, "opcode"@, FieldKind::Integer)
            &&& has_field(list@, "task"@, FieldKind::Integer)
            &&& has_field(list@, "keywords"@, FieldKind::Bytes)
            &&& has_field(list@, "level_value"@, FieldKind::Integer)
            &&& has_field(list@, "provider_guid"@, FieldKind::Bytes)
            &&& has_field(list@, "version"@, FieldKind::Integer)
            &&& has_field(list@, "qualifiers"@, FieldKind::Integer)
            &&& has_field(list@, "string_inserts"@, FieldKind::BytesList)
            &&& has_field(list@, "event_data"@, FieldKind::Object)
            &&& has_field(list@, "user_data"@, FieldKind::Object)
            &&& has_field(list@, "message_source"@, FieldKind::Bytes)
            &&& has_field(list@, "task_name"@, FieldKind::Bytes)
            &&& has_field(list@, "opcode_name"@, FieldKind::Bytes)
            &&& has_field(list@, "keyword_names"@, FieldKind::BytesList)
        },
{
    if let Some(list) = fields {
        let shown = crate::schema::listed_fields(list@);
        assert(shown.len() == list@.len());
        assert forall|i: int| 0 <= i < list@.len() implies shown[i] == (
            (#[trigger] list@[i]).name@,
            list@[i].kind,
        ) by {}
        assert(list@[0].name@ == "timestamp"@);
        assert(list@[1].name@ == "message"@);
        assert(list@[2].name@ == "level"@);
        assert(list@[3].name@ == "source"@);
        assert(list@[4].name@ == "event_id"@);
        assert(list@[5].name@ == "provider_name"@);
        assert(list@[6].name@ == "computer"@);
        assert(list@[7].name@ == "user_id"@);
        assert(list@[8].name@ == "user_name"@);
        assert(list@[9].name@ == "record_id"@);
        assert(list@[10].name@ == "activity_id"@);
        assert(list@[11].name@ == "related_activity_id"@);
        assert(list@[12].name@ == "process_id"@);
        assert(list@[13].name@ == "thread_id"@);
        assert(list@[14].name@ == "channel"@);
        assert(list@[15].name@ == "opcode"@);
        assert(list@[16].name@ == "task"@);
        assert(list@[17].name@ == "keywords"@);
        assert(list@[18].name@ == "level_value"@);
        assert(list@[19].name@ == "provider_guid"@);
        assert(list@[20].name@ == "version"@);
        assert(list@[21].name@ == "qualifiers"@);
        assert(list@[22].name@ == "string_inserts"@);
        assert(list@[23].name@ == "event_data"@);
        assert(list@[24].name@ == "user_data"@);
        assert(list@[25].name@ == "message_source"@);
        assert(list@[26].name@ == "task_name"@);
        assert(list@[27].name@ == "opcode_name"@);
        assert(list@[28].name@ == "keyword_names"@);
    }
}

/// A source claims each of its channels, in order, and nothing else; and its rate is
/// limited where a rate is given.
pub proof fn configurations_claim_their_channels(
    config: WindowsEventLogConfig,
    resources: Vec<Resource>,
    limit: Option<u32>,
    i: int,
)
    requires
        call_ensures(WindowsEventLogConfig::resources, (&config,), resources),
        call_ensures(WindowsEventLogConfig::rate_limit, (&config,), limit),
    ensures
        resources@.len() == config.channels@.len(),
        0 <= i < config.channels@.len() ==> (resources@[i] matches Resource::DiskBuffer(name)
            && name@ == config.channels@[i]@),
        config.events_per_second == 0 <==> limit is None,
        limit matches Some(n) ==> n == config.events_per_second,
{
    let names = resources@.map_values(|r: Resource| r.name());
    let channels = crate::text::texts(config.channels@);
    assert(names == channels);
    assert(names.len() == resources@.len() && channels.len() == config.channels@.len());
    if 0 <= i < config.channels@.len() {
        assert(names[i] == resources@[i].name());
        assert(channels[i] == config.channels@[i]@);
    }
}

/// What a configuration holds that says nothing: no channels, no query and no lists,
/// batches of a hundred, new events alone, no limit, and a refresh once a day.
pub proof fn settings_have_their_defaults(config: WindowsEventLogConfig)
    requires
        call_ensures(WindowsEventLogConfig::default, (), config),
    ensures
        config.channels@.len() == 0,
        config.event_query is None,
        config.only_event_ids is None,
        config.ignore_event_ids@.len() == 0,
        config.batch_size == 100,
        !config.read_existing_events,
        config.events_per_second == 0,
        config.subscription_refresh_secs == 24 * 60 * 60,
{
}

} // verus!
