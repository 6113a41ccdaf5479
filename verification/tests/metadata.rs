//! Naming and displaying events.

use windows_event_log::format_cache::{FormatCache, PublisherNames, SYSTEM_DEFAULT_LOCALE};
use windows_event_log::metadata::{
    display_names, enumerate_publisher_names, look_up_names, message_to_format, no_names,
    prepare_names, publisher_enumerated, publisher_opened, publisher_taken, resolve_event_display,
    resolve_event_metadata, sized_variant, ArrayWalk, DisplayPlan, EventNumbers, FieldAnswers,
    FormatAction, MessageFormat, MetadataRow, NamePreparation, Variant, WalkAction, WalkEvent,
};
use windows_event_log::rendering_info;
use windows_event_log::shared_cache::PublisherEntry;
use windows_event_log::subscription::PublisherHandle;
use windows_event_log::time::{Span, Tick};
use windows_event_log::win32_errors::{classify_render, RenderDisposition};

const FORWARDED_FIXTURE: &str = r#"<Event><System><Provider Name="Service Control Manager"/>
  <EventID>7036</EventID></System>
  <RenderingInfo Culture="en-US">
    <Message>The Windows Firewall service entered the running state.</Message>
    <Level>Information</Level><Task>Service state change</Task><Opcode>Info</Opcode>
    <Keywords><Keyword>Classic</Keyword></Keywords>
  </RenderingInfo></Event>"#;

const LOCAL_FIXTURE: &str = r#"<Event><System><Provider Name="Service Control Manager"/>
  <EventID>7036</EventID></System></Event>"#;

const PROVIDER: &str = "Service Control Manager";

fn at(secs: u64) -> Tick {
    Tick {
        nanos: (1_000 + secs) * 1_000_000_000,
    }
}

/// An event carrying `<RenderingInfo>` takes the XML path and asks for no
/// formatting call and no publisher.
#[test]
fn rendering_info_event_makes_zero_evtformatmessage_calls() {
    let plan = resolve_event_display(FORWARDED_FIXTURE, PROVIDER, true);
    let display = match plan {
        DisplayPlan::Known(display) => display,
        DisplayPlan::AskPublisher => panic!("the publisher must be left alone"),
    };
    assert!(display.rendered_delivery);
    assert_eq!(
        display.rendered_message.as_deref(),
        Some("The Windows Firewall service entered the running state.")
    );
    assert_eq!(display.task_name.as_deref(), Some("Service state change"));
    assert_eq!(display.opcode_name.as_deref(), Some("Info"));
    assert_eq!(display.keyword_names, vec!["Classic".to_string()]);
    assert_eq!(display.table_misses, 0);
    assert_eq!(display.level_name, None);
}

/// The element counts however late it stands.
#[test]
fn a_late_rendering_info_keeps_the_publisher_out() {
    let xml = format!(
        "<Event><EventData>{}</EventData><RenderingInfo><Message>m</Message></RenderingInfo></Event>",
        "<Data>x</Data>".repeat(2000)
    );
    match resolve_event_display(&xml, PROVIDER, true) {
        DisplayPlan::Known(display) => assert!(display.rendered_delivery),
        DisplayPlan::AskPublisher => panic!("the publisher must be left alone"),
    }
}

#[test]
fn local_event_routes_to_publisher_path() {
    assert!(
        rendering_info::parse(LOCAL_FIXTURE).is_none(),
        "a locally-read event must route to the publisher path"
    );
    assert!(
        rendering_info::parse(FORWARDED_FIXTURE).is_some(),
        "a forwarded rendered-text event must route to the parse path"
    );
    assert!(matches!(
        resolve_event_display(LOCAL_FIXTURE, PROVIDER, true),
        DisplayPlan::AskPublisher
    ));
}

#[test]
fn rendering_info_respects_render_message_disabled() {
    match resolve_event_display(FORWARDED_FIXTURE, PROVIDER, false) {
        DisplayPlan::Known(display) => {
            assert!(display.rendered_message.is_none());
            assert_eq!(display.task_name.as_deref(), Some("Service state change"));
        }
        DisplayPlan::AskPublisher => panic!("the publisher must be left alone"),
    }
}

#[test]
fn partial_render_statuses_keep_their_buffer() {
    for code in [15029u32, 15030, 15031] {
        assert_eq!(classify_render(code), RenderDisposition::UseBuffer);
    }
    // A real failure must still discard, and a buffer probe must not.
    assert_eq!(classify_render(2), RenderDisposition::DropEvent);
    assert_eq!(classify_render(122), RenderDisposition::GrowBuffer);
}

#[test]
fn an_event_without_a_provider_has_nothing_to_display() {
    match resolve_event_display(LOCAL_FIXTURE, "", true) {
        DisplayPlan::Known(display) => {
            assert!(!display.rendered_delivery);
            assert_eq!(display.rendered_message, None);
            assert_eq!(display.task_name, None);
        }
        DisplayPlan::AskPublisher => panic!("there is no publisher to ask"),
    }
}

fn units(text: &str, len: usize) -> Vec<u16> {
    let mut buffer: Vec<u16> = text.encode_utf16().collect();
    buffer.resize(len, 0);
    buffer
}

#[test]
fn a_message_is_probed_then_filled() {
    let mut format = MessageFormat::format_event_message(7);
    assert_eq!(format.action, FormatAction::Probe);
    assert_eq!(format.probed(12), FormatAction::Fill(12));
    format.filled(None, &units("Hello", 12));
    assert_eq!(format.action, FormatAction::Done);
    assert_eq!(format.text.as_deref(), Some("Hello"));
    assert_eq!(format.calls, 2);

    // Unresolved inserts keep the text, other failures do not.
    for (code, text) in [(15029, Some("Hi")), (15030, Some("Hi")), (15027, None)] {
        let mut format = MessageFormat::format_message_id();
        format.probed(3);
        format.filled(Some(code), &units("Hi", 3));
        assert_eq!(format.text.as_deref(), text);
    }
    let mut format = MessageFormat::format_message_id();
    format.probed(1);
    format.filled(None, &vec![0]);
    assert_eq!(format.text, None);
}

#[test]
fn nothing_is_formatted_without_handles_or_beyond_the_limits() {
    assert_eq!(
        MessageFormat::format_event_message(0).action,
        FormatAction::Done
    );
    assert_eq!(MessageFormat::format_event_message(0).calls, 0);
    for (metadata, event) in [(0, 1), (1, 0), (0, 0)] {
        let format = MessageFormat::format_metadata_field(metadata, event);
        assert_eq!(format.action, FormatAction::Done);
        assert_eq!(format.calls, 0);
    }
    let mut field = MessageFormat::format_metadata_field(1, 1);
    assert_eq!(field.probed(4097), FormatAction::Done);
    assert_eq!(field.calls, 1);
    let mut field = MessageFormat::format_metadata_field(1, 1);
    assert_eq!(field.probed(4096), FormatAction::Fill(4096));
    let mut message = MessageFormat::format_event_message(1);
    assert_eq!(message.probed(65_537), FormatAction::Done);
    let mut message = MessageFormat::format_event_message(1);
    assert_eq!(message.probed(65_536), FormatAction::Fill(65_536));
    let mut message = MessageFormat::format_event_message(1);
    assert_eq!(message.probed(0), FormatAction::Done);
}

fn names() -> PublisherNames {
    let mut names = PublisherNames::default();
    names.tasks.insert(7, "Logon".to_string());
    names.opcodes.insert(1, "Start".to_string());
    names.keywords.push((2, "Audit".to_string()));
    names.levels.insert(16, "Custom-16".to_string());
    names
}

#[test]
fn a_publisher_is_opened_and_enumerated_once() {
    let mut formats = FormatCache::new();
    let mut entry = PublisherEntry::new();
    let hour = Span::from_secs(3600);
    assert_eq!(
        prepare_names(&mut formats, PROVIDER, at(0), hour),
        NamePreparation::TakePublisher
    );
    assert_eq!(publisher_taken(&entry), NamePreparation::Open);
    assert_eq!(
        publisher_opened(&mut formats, &mut entry, PROVIDER, 55, at(0)),
        NamePreparation::Enumerate(55)
    );
    assert_eq!(
        prepare_names(&mut formats, PROVIDER, at(0), hour),
        NamePreparation::TakePublisher
    );
    assert_eq!(publisher_taken(&entry), NamePreparation::Enumerate(55));
    assert_eq!(
        publisher_enumerated(&mut formats, PROVIDER, names(), at(0)),
        NamePreparation::Ready
    );
    assert_eq!(
        prepare_names(&mut formats, PROVIDER, at(1), hour),
        NamePreparation::Ready
    );
    assert_eq!(entry.raw(false), Some(55));
}

/// A publisher that cannot be opened is tried once, and left alone until the
/// refresh.
#[test]
fn an_unopenable_publisher_is_tried_once_per_refresh() {
    let mut formats = FormatCache::new();
    let mut entry = PublisherEntry::new();
    let hour = Span::from_secs(3600);
    assert_eq!(
        prepare_names(&mut formats, PROVIDER, at(0), hour),
        NamePreparation::TakePublisher
    );
    assert_eq!(publisher_taken(&entry), NamePreparation::Open);
    assert_eq!(
        publisher_opened(&mut formats, &mut entry, PROVIDER, 0, at(0)),
        NamePreparation::NoNames
    );
    assert_eq!(
        prepare_names(&mut formats, PROVIDER, at(3599), hour),
        NamePreparation::NoNames
    );
    assert_eq!(entry.raw(false), Some(0));
    assert_eq!(
        prepare_names(&mut formats, PROVIDER, at(3600), hour),
        NamePreparation::TakePublisher
    );
    assert_eq!(publisher_taken(&entry), NamePreparation::Open);

    let names = no_names("Warning");
    assert!(names.task_name.is_none());
    assert!(names.opcode_name.is_none());
    assert!(names.keyword_names.is_empty());
    assert_eq!(names.level_name.as_deref(), Some("Warning"));
    assert_eq!((names.table_misses, names.cache_hits, names.cache_misses), (0, 0, 0));
}

#[test]
fn only_a_handle_that_is_not_null_is_open() {
    assert!(PublisherHandle(5).is_open());
    assert!(!PublisherHandle(0).is_open());
}

/// A row whose value does not fit its field names nothing.
#[test]
fn rows_that_do_not_fit_their_field_are_left_out() {
    let tasks = vec![
        row(7, "T", Variant::UInt32(7), Some("Seven")),
        row(8, "T", Variant::UInt32(0x1_0007), Some("Too wide")),
    ];
    let opcodes = vec![
        row(1, "O", Variant::UInt32(0x0001_0000), Some("Start")),
        row(2, "O", Variant::UInt32(0x0101_0000), Some("Too wide")),
    ];
    let levels = vec![
        row(3, "L", Variant::UInt32(16), Some("Custom")),
        row(4, "L", Variant::UInt32(0x110), Some("Too wide")),
    ];
    let names = enumerate_publisher_names(&tasks, &opcodes, &Vec::new(), &levels);
    assert_eq!(names.tasks.len(), 1);
    assert_eq!(names.tasks[&7], "Seven");
    assert_eq!(names.opcodes.len(), 1);
    assert_eq!(names.opcodes[&1], "Start");
    assert_eq!(names.levels.len(), 1);
    assert_eq!(names.levels[&16], "Custom");
}

fn resolve(
    formats: &mut FormatCache,
    numbers: EventNumbers,
    fallback_level: &str,
) -> (Option<String>, Option<String>, Vec<String>, Option<String>, u32) {
    let plan = look_up_names(formats, PROVIDER, numbers);
    let names = resolve_event_metadata(
        plan,
        fallback_level,
        FieldAnswers {
            task: Some("asked task".to_string()),
            opcode: None,
            keywords: Some("One; Two ;".to_string()),
        },
    );
    let display = display_names(names, Some("text".to_string()));
    assert_eq!(display.rendered_message.as_deref(), Some("text"));
    assert!(!display.rendered_delivery);
    (
        display.task_name,
        display.opcode_name,
        display.keyword_names,
        display.level_name,
        display.table_misses,
    )
}

#[test]
fn names_come_from_the_table_first_and_the_event_second() {
    let mut formats = FormatCache::new();
    formats.store_table(PROVIDER, SYSTEM_DEFAULT_LOCALE, at(0), names());
    let known = EventNumbers {
        task: 7,
        opcode: 1,
        keywords: 3,
        level: 16,
    };
    assert_eq!(
        resolve(&mut formats, known, "Unknown"),
        (
            Some("Logon".to_string()),
            Some("Start".to_string()),
            vec!["Audit".to_string()],
            Some("Custom-16".to_string()),
            0
        )
    );
    let unknown = EventNumbers {
        task: 8,
        opcode: 9,
        keywords: 1,
        level: 4,
    };
    assert_eq!(
        resolve(&mut formats, unknown, "Information"),
        (
            Some("asked task".to_string()),
            None,
            vec!["One".to_string(), "Two".to_string()],
            Some("Information".to_string()),
            3
        )
    );
    assert_eq!(resolve(&mut formats, unknown, "Unknown").4, 4);
    // No keywords set is no miss.
    let none = EventNumbers {
        keywords: 0,
        ..known
    };
    assert_eq!(resolve(&mut formats, none, "Unknown").2, Vec::<String>::new());
    assert_eq!(resolve(&mut formats, none, "Unknown").4, 0);

    let nameless = no_names("Error");
    assert_eq!(nameless.level_name.as_deref(), Some("Error"));
    assert_eq!(nameless.table_misses, 0);
}

fn row(id: u32, symbolic: &str, value: Variant, formatted: Option<&str>) -> MetadataRow {
    MetadataRow {
        message_id: Some(Variant::UInt32(id)),
        symbolic: Some(Variant::Text(symbolic.to_string())),
        value: Some(value),
        formatted: formatted.map(str::to_string),
    }
}

#[test]
fn rows_become_tables() {
    let names = enumerate_publisher_names(
        &vec![
            row(1, "T1", Variant::UInt32(7), Some("Logon")),
            row(u32::MAX, "Symbolic", Variant::UInt32(8), None),
            row(2, "T3", Variant::UInt32(9), None),
            row(3, "T4", Variant::UInt32(7), Some("Logon again")),
        ],
        &vec![row(1, "O", Variant::UInt32(0x000B_0007), Some("Opcode"))],
        &vec![
            row(1, "K", Variant::UInt64(1 << 53), Some("Audit Success")),
            row(1, "K", Variant::UInt32(4), Some("Zero")),
        ],
        &vec![row(1, "L", Variant::UInt32(16), Some("Custom"))],
    );
    assert_eq!(names.tasks.get(&7).map(String::as_str), Some("Logon again"));
    assert_eq!(names.tasks.get(&8).map(String::as_str), Some("Symbolic"));
    assert_eq!(names.tasks.get(&9), None);
    assert_eq!(names.tasks.len(), 2);
    assert_eq!(names.opcodes.get(&11).map(String::as_str), Some("Opcode"));
    assert_eq!(
        names.keywords,
        vec![
            (1 << 53, "Audit Success".to_string()),
            (0, "Zero".to_string())
        ]
    );
    assert_eq!(names.levels.get(&16).map(String::as_str), Some("Custom"));

    assert_eq!(message_to_format(&Some(Variant::UInt32(u32::MAX))), None);
    assert_eq!(message_to_format(&Some(Variant::UInt32(3))), Some(3));
    assert_eq!(message_to_format(&None), Some(0));
}

#[test]
fn a_walk_reads_every_row_and_closes_the_table() {
    let mut walk = ArrayWalk::walk_metadata_array();
    let mut seen = vec![walk.action];
    for event in [
        WalkEvent::Property(Some(Variant::Handle(9))),
        WalkEvent::Size(Some(2)),
        WalkEvent::Visited,
        WalkEvent::Visited,
        WalkEvent::Closed,
    ] {
        seen.push(walk.advance(event));
    }
    assert_eq!(
        seen,
        vec![
            WalkAction::Property,
            WalkAction::Size(9),
            WalkAction::Visit { array: 9, index: 0 },
            WalkAction::Visit { array: 9, index: 1 },
            WalkAction::Close(9),
            WalkAction::Done,
        ]
    );

    let mut walk = ArrayWalk::walk_metadata_array();
    walk.advance(WalkEvent::Property(Some(Variant::Handle(9))));
    assert_eq!(walk.advance(WalkEvent::Size(None)), WalkAction::Close(9));
    for property in [None, Some(Variant::Handle(0)), Some(Variant::UInt32(9))] {
        let mut walk = ArrayWalk::walk_metadata_array();
        assert_eq!(
            walk.advance(WalkEvent::Property(property)),
            WalkAction::Done
        );
    }
}

#[test]
fn buffers_hold_at_least_one_value() {
    assert_eq!(sized_variant(0, 16), None);
    assert_eq!(sized_variant(8, 16), Some(1));
    assert_eq!(sized_variant(16, 16), Some(1));
    assert_eq!(sized_variant(50, 16), Some(3));
}
