//! The fields of the events that leave the source.

use vstd::prelude::*;

verus! {

/// How events are laid out.
#[derive(Debug, Clone, Copy, PartialEq, Eq, Structural)]
pub enum LogNamespace {
    Vector,
    Legacy,
}

/// What a field holds. Any field may be absent.
#[derive(Debug, Clone, Copy, PartialEq, Eq, Structural)]
pub enum FieldKind {
    Timestamp,
    Bytes,
    Integer,
    /// A list of byte strings.
    BytesList,
    /// An object whose fields are not known.
    Object,
}

/// The layout of a source's events: its own setting, or else that of the whole
/// configuration.
pub open spec fn namespace_of(own: Option<bool>, global: LogNamespace) -> LogNamespace {
    match own {
        Some(true) => LogNamespace::Vector,
        Some(false) => LogNamespace::Legacy,
        None => global,
    }
}

/// The layout of a source's events.
pub fn log_namespace(own: Option<bool>, global: LogNamespace) -> (namespace: LogNamespace)
    ensures
        namespace == namespace_of(own, global),
{
    match own {
        Some(true) => LogNamespace::Vector,
        Some(false) => LogNamespace::Legacy,
        None => global,
    }
}

/// The fields of an event, in order, with what each holds.
pub open spec fn event_fields() -> Seq<(Seq<char>, FieldKind)> {
    seq![
        ("timestamp"@, FieldKind::Timestamp),
        ("message"@, FieldKind::Bytes),
        ("level"@, FieldKind::Bytes),
        ("source"@, FieldKind::Bytes),
        ("event_id"@, FieldKind::Integer),
        ("provider_name"@, FieldKind::Bytes),
        ("computer"@, FieldKind::Bytes),
        ("user_id"@, FieldKind::Bytes),
        ("user_name"@, FieldKind::Bytes),
        ("record_id"@, FieldKind::Integer),
        ("activity_id"@, FieldKind::Bytes),
        ("related_activity_id"@, FieldKind::Bytes),
        ("process_id"@, FieldKind::Integer),
        ("thread_id"@, FieldKind::Integer),
        ("channel"@, FieldKind::Bytes),
        ("opcode"@, FieldKind::Integer),
        ("task"@, FieldKind::Integer),
        ("keywords"@, FieldKind::Bytes),
        ("level_value"@, FieldKind::Integer),
        ("provider_guid"@, FieldKind::Bytes),
        ("version"@, FieldKind::Integer),
        ("qualifiers"@, FieldKind::Integer),
        ("string_inserts"@, FieldKind::BytesList),
        ("event_data"@, FieldKind::Object),
        ("user_data"@, FieldKind::Object),
        ("message_source"@, FieldKind::Bytes),
        ("task_name"@, FieldKind::Bytes),
        ("opcode_name"@, FieldKind::Bytes),
        ("keyword_names"@, FieldKind::BytesList),
    ]
}

/// One field of an event.
#[derive(Debug, Clone, Copy, PartialEq, Eq)]
pub struct SchemaField {
    pub name: &'static str,
    pub kind: FieldKind,
}

/// The fields of a list.
pub open spec fn listed_fields(fields: Seq<SchemaField>) -> Seq<(Seq<char>, FieldKind)> {
    fields.map_values(|f: SchemaField| (f.name@, f.kind))
}

fn field(name: &'static str, kind: FieldKind) -> (field: SchemaField)
    ensures
        field.name@ == name@,
        field.kind == kind,
{
    SchemaField { name, kind }
}

/// What is known of the events that leave the source: their fields, or nothing
/// in the older layout, which allows any.
pub fn outputs(own: Option<bool>, global: LogNamespace) -> (fields: Option<Vec<SchemaField>>)
    ensures
        match fields {
            Some(list) => namespace_of(own, global) == LogNamespace::Vector && listed_fields(list@)
                == event_fields(),
            None => namespace_of(own, global) == LogNamespace::Legacy,
        },
{
    match log_namespace(own, global) {
        LogNamespace::Legacy => None,
        LogNamespace::Vector => {
            let fields: Vec<SchemaField> = vec![
                field("timestamp", FieldKind::Timestamp),
                field("message", FieldKind::Bytes),
                field("level", FieldKind::Bytes),
                field("source", FieldKind::Bytes),
                field("event_id", FieldKind::Integer),
                field("provider_name", FieldKind::Bytes),
                field("computer", FieldKind::Bytes),
                field("user_id", FieldKind::Bytes),
                field("user_name", FieldKind::Bytes),
                field("record_id", FieldKind::Integer),
                field("activity_id", FieldKind::Bytes),
                field("related_activity_id", FieldKind::Bytes),
                field("process_id", FieldKind::Integer),
                field("thread_id", FieldKind::Integer),
                field("channel", FieldKind::Bytes),
                field("opcode", FieldKind::Integer),
                field("task", FieldKind::Integer),
                field("keywords", FieldKind::Bytes),
                field("level_value", FieldKind::Integer),
                field("provider_guid", FieldKind::Bytes),
                field("version", FieldKind::Integer),
                field("qualifiers", FieldKind::Integer),
                field("string_inserts", FieldKind::BytesList),
                field("event_data", FieldKind::Object),
                field("user_data", FieldKind::Object),
                field("message_source", FieldKind::Bytes),
                field("task_name", FieldKind::Bytes),
                field("opcode_name", FieldKind::Bytes),
                field("keyword_names", FieldKind::BytesList),
            ];
            assert(listed_fields(fields@) =~= event_fields());
            Some(fields)
        },
    }
}

} // verus!
