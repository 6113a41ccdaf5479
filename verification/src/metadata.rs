//! Display fields: what an event's task, opcode, keywords, level and message are
//! called, and how a publisher's tables are read.
//!
//! The system calls are made by the caller. The functions here say which of them
//! to make and what the answers mean.

use vstd::prelude::*;

use crate::format_cache::{
    choose_table_display, split_keywords, FormatCache, NameField, Prepare, PublisherNames,
    SYSTEM_DEFAULT_LOCALE,
};
use crate::rendering_info::{parse, RenderingInfoFields};
use crate::shared_cache::PublisherEntry;
use crate::text::{decode_utf16_lossy, text_eq};
use crate::time::{Span, Tick};
use crate::win32_errors::{classify_render, RenderDisposition};

verus! {

/// The most UTF-16 units of a field's name.
pub const MAX_FIELD_UNITS: u32 = 4096;

/// The most UTF-16 units of an event's message.
pub const MAX_MESSAGE_UNITS: u32 = 65_536;

// ---------------------------------------------------------------------------
// Formatting one message
// ---------------------------------------------------------------------------
/// The next call to format a message.
#[derive(Debug, Clone, Copy, PartialEq, Eq, Structural)]
pub enum FormatAction {
    /// Ask how long the message is.
    Probe,
    /// Ask for the message, with room for this many units.
    Fill(u32),
    /// Nothing: the text is known, or there is none.
    Done,
}

/// One message being formatted.
#[derive(Debug)]
pub struct MessageFormat {
    pub max_units: u32,
    pub action: FormatAction,
    /// The number of formatting calls asked for.
    pub calls: u32,
    pub text: Option<String>,
}

/// The units up to the first null.
pub open spec fn up_to_null(units: Seq<u16>) -> Seq<u16>
    decreases units.len(),
{
    if units.len() == 0 || units[0] == 0 {
        Seq::empty()
    } else {
        seq![units[0]] + up_to_null(units.skip(1))
    }
}

/// Whether a formatting call left usable text: it succeeded, or it rendered the
/// message with some of its inserts unresolved.
pub open spec fn is_usable(code: Option<u32>) -> bool {
    match code {
        None => true,
        Some(c) => crate::win32_errors::render_disposition(c) == RenderDisposition::UseBuffer,
    }
}

/// The text that a formatting call left in a buffer.
pub open spec fn buffer_text(code: Option<u32>, buffer: Seq<u16>) -> Option<Seq<char>> {
    let text = crate::text::utf16_lossy(up_to_null(buffer));
    if is_usable(code) && text.len() > 0 {
        Some(text)
    } else {
        None
    }
}

fn cut_at_null(buffer: &Vec<u16>) -> (units: Vec<u16>)
    ensures
        units@ == up_to_null(buffer@),
{
    let mut units: Vec<u16> = Vec::new();
    let mut i: usize = 0;
    assert(buffer@.skip(0) =~= buffer@);
    while i < buffer.len() && buffer[i] != 0
        invariant
            i <= buffer@.len(),
            units@ + up_to_null(buffer@.skip(i as int)) == up_to_null(buffer@),
        decreases buffer.len() - i,
    {
        let ghost rest = buffer@.skip(i as int);
        assert(rest.skip(1) =~= buffer@.skip(i + 1));
        let ghost before = units@;
        units.push(buffer[i]);
        assert(units@ + up_to_null(buffer@.skip(i + 1)) =~= before + up_to_null(rest));
        i += 1;
    }
    assert(units@ =~= units@ + up_to_null(buffer@.skip(i as int)));
    units
}

/// Whether a formatting call with this outcome left usable text.
pub fn render_result_usable(code: Option<u32>) -> (usable: bool)
    ensures
        usable == is_usable(code),
{
    match code {
        None => true,
        Some(c) => match classify_render(c) {
            RenderDisposition::UseBuffer => true,
            _ => false,
        },
    }
}

impl MessageFormat {
    /// What holds of every message being formatted.
    pub open spec fn wf(self) -> bool {
        self.calls <= 2 && (self.action == FormatAction::Probe ==> self.calls == 1)
    }

    fn begin(ask: bool, max_units: u32) -> (format: MessageFormat)
        ensures
            format.wf(),
            format.max_units == max_units,
            format.text is None,
            format.action == if ask {
                FormatAction::Probe
            } else {
                FormatAction::Done
            },
            format.calls == if ask {
                1u32
            } else {
                0
            },
    {
        let mut format = MessageFormat {
            max_units,
            action: FormatAction::Done,
            calls: 0,
            text: None,
        };
        if ask {
            format.action = FormatAction::Probe;
            format.note_format_message_call();
        }
        format
    }

    /// Count one formatting call.
    fn note_format_message_call(&mut self)
        requires
            old(self).calls < u32::MAX,
        ensures
            *final(self) == (MessageFormat {
                calls: (old(self).calls + 1) as u32,
                ..*old(self)
            }),
    {
        self.calls += 1;
    }

    /// Format a message by its id, without an event.
    pub fn format_message_id() -> (format: MessageFormat)
        ensures
            format.wf(),
            format.max_units == MAX_FIELD_UNITS,
            format.text is None,
            format.action == FormatAction::Probe,
            format.calls == 1,
    {
        MessageFormat::begin(true, MAX_FIELD_UNITS)
    }

    /// Format a field of an event. Without the publisher or the event there is
    /// nothing to ask.
    pub fn format_metadata_field(metadata: i64, event: i64) -> (format: MessageFormat)
        ensures
            format.wf(),
            format.max_units == MAX_FIELD_UNITS,
            format.text is None,
            format.action == if metadata != 0 && event != 0 {
                FormatAction::Probe
            } else {
                FormatAction::Done
            },
            format.calls == if metadata != 0 && event != 0 {
                1u32
            } else {
                0
            },
    {
        MessageFormat::begin(metadata != 0 && event != 0, MAX_FIELD_UNITS)
    }

    /// Format the message of an event. Without the publisher there is nothing to
    /// ask.
    pub fn format_event_message(metadata: i64) -> (format: MessageFormat)
        ensures
            format.wf(),
            format.max_units == MAX_MESSAGE_UNITS,
            format.text is None,
            format.action == if metadata != 0 {
                FormatAction::Probe
            } else {
                FormatAction::Done
            },
            format.calls == if metadata != 0 {
                1u32
            } else {
                0
            },
    {
        MessageFormat::begin(metadata != 0, MAX_MESSAGE_UNITS)
    }

    /// The length is known: ask for the message, unless there is none or it is
    /// too long.
    pub fn probed(&mut self, used: u32) -> (action: FormatAction)
        requires
            old(self).wf(),
            old(self).action == FormatAction::Probe,
        ensures
            final(self).wf(),
            final(self).max_units == old(self).max_units,
            final(self).text == old(self).text,
            action == final(self).action,
            action == if 0 < used <= old(self).max_units {
                FormatAction::Fill(used)
            } else {
                FormatAction::Done
            },
            final(self).calls == if 0 < used <= old(self).max_units {
                2u32
            } else {
                1
            },
    {
        if used == 0 || used > self.max_units {
            self.action = FormatAction::Done;
        } else {
            self.action = FormatAction::Fill(used);
            self.note_format_message_call();
        }
        self.action
    }

    /// The message is in the buffer, or the call failed with `code`.
    pub fn filled(&mut self, code: Option<u32>, buffer: &Vec<u16>)
        requires
            old(self).wf(),
            old(self).action is Fill,
        ensures
            final(self).wf(),
            final(self).max_units == old(self).max_units,
            final(self).calls == old(self).calls,
            final(self).action == FormatAction::Done,
            crate::status::opt_chars(final(self).text) == buffer_text(code, buffer@),
    {
        self.action = FormatAction::Done;
        self.text = None;
        if render_result_usable(code) {
            let text = decode_utf16_lossy(&cut_at_null(buffer));
            if !text.as_str().is_empty() {
                self.text = Some(text);
            }
        }
    }
}

// ---------------------------------------------------------------------------
// Naming an event
// ---------------------------------------------------------------------------
/// What stands between an event and its publisher's names.
#[derive(Debug, Clone, Copy, PartialEq, Eq, Structural)]
pub enum NamePreparation {
    /// The publisher cannot be opened: there are no names.
    NoNames,
    /// The publisher is needed: its entry is taken first.
    TakePublisher,
    /// The publisher has to be opened first.
    Open,
    /// Its tables have to be enumerated first, through this handle.
    Enumerate(i64),
    /// The table is there.
    Ready,
}

/// What stands between an event and its names, given what is known of the
/// publisher's table.
pub open spec fn preparation(prepare: Prepare) -> NamePreparation {
    match prepare {
        Prepare::Unopenable => NamePreparation::NoNames,
        Prepare::Ready => NamePreparation::Ready,
        Prepare::NeedEnumerate => NamePreparation::TakePublisher,
    }
}

/// What has to be done before an event's names are looked up.
pub fn prepare_names(formats: &mut FormatCache, provider: &str, now: Tick, refresh: Span) -> (
    prepared: NamePreparation)
    requires
        old(formats).wf(),
    ensures
        final(formats).wf(),
        final(formats).limit() == old(formats).limit(),
        final(formats)@ == crate::cache::touched(
            old(formats)@,
            crate::format_cache::table_key(provider@, SYSTEM_DEFAULT_LOCALE),
        ),
        prepared == preparation(
            crate::format_cache::prepared(
                old(formats).known(provider@, SYSTEM_DEFAULT_LOCALE),
                now,
                refresh@,
            ),
        ),
{
    match formats.prepare(provider, SYSTEM_DEFAULT_LOCALE, now, refresh) {
        Prepare::Unopenable => NamePreparation::NoNames,
        Prepare::Ready => NamePreparation::Ready,
        Prepare::NeedEnumerate => NamePreparation::TakePublisher,
    }
}

/// The publisher's entry was taken. A handle that is open is used; a failed open
/// is tried again.
pub fn publisher_taken(entry: &PublisherEntry) -> (prepared: NamePreparation)
    ensures
        prepared == match entry.usable(true) {
            Some(handle) => NamePreparation::Enumerate(handle),
            None => NamePreparation::Open,
        },
        prepared matches NamePreparation::Enumerate(handle) ==> handle != 0,
{
    match entry.raw(true) {
        Some(handle) => NamePreparation::Enumerate(handle),
        None => NamePreparation::Open,
    }
}

/// The publisher was opened, or could not be where the handle is null. Its entry
/// keeps the handle, and the failure is remembered.
pub fn publisher_opened(
    formats: &mut FormatCache,
    entry: &mut PublisherEntry,
    provider: &str,
    raw: i64,
    now: Tick,
) -> (prepared: NamePreparation)
    requires
        old(formats).wf(),
        old(entry).usable(true) is None,
    ensures
        final(formats).wf(),
        final(formats).limit() == old(formats).limit(),
        final(entry).attempted() == Some(raw),
        prepared == if raw == 0 {
            NamePreparation::NoNames
        } else {
            NamePreparation::Enumerate(raw)
        },
        final(formats)@ == if raw == 0 {
            crate::cache::stored(
                old(formats)@,
                old(formats).limit(),
                crate::format_cache::table_key(provider@, SYSTEM_DEFAULT_LOCALE),
                crate::format_cache::enumerated(None, now),
            )
        } else {
            old(formats)@
        },
{
    entry.record(raw);
    if raw == 0 {
        formats.store_unopenable(provider, SYSTEM_DEFAULT_LOCALE, now);
        NamePreparation::NoNames
    } else {
        NamePreparation::Enumerate(raw)
    }
}

/// The publisher's tables were enumerated. They are kept.
pub fn publisher_enumerated(
    formats: &mut FormatCache,
    provider: &str,
    names: PublisherNames,
    now: Tick,
) -> (prepared: NamePreparation)
    requires
        old(formats).wf(),
    ensures
        final(formats).wf(),
        final(formats).limit() == old(formats).limit(),
        prepared == NamePreparation::Ready,
        final(formats)@ == crate::cache::stored(
            old(formats)@,
            old(formats).limit(),
            crate::format_cache::table_key(provider@, SYSTEM_DEFAULT_LOCALE),
            crate::format_cache::enumerated(Some(names), now),
        ),
{
    formats.store_table(provider, SYSTEM_DEFAULT_LOCALE, now, names);
    NamePreparation::Ready
}

/// The numbers of an event that have names.
#[derive(Debug, Clone, Copy, PartialEq, Eq, Structural)]
pub struct EventNumbers {
    pub task: u16,
    pub opcode: u8,
    pub keywords: u64,
    pub level: u8,
}

/// What the publisher's table says about an event. A field that is missing is
/// asked of the event itself.
#[derive(Debug)]
pub struct NamePlan {
    pub task: Option<String>,
    pub opcode: Option<String>,
    pub keywords: Option<Vec<String>>,
    pub level: Option<String>,
}

/// The keyword names that the table gives, where it gives any or none are set.
pub open spec fn table_keywords(
    known: Option<crate::format_cache::Entry>,
    mask: u64,
) -> Option<Seq<Seq<char>>> {
    match crate::format_cache::known_keywords(known, mask) {
        Some(names) => if crate::format_cache::keywords_missing(names, mask) {
            None
        } else {
            Some(names)
        },
        None => None,
    }
}

/// The texts of an optional list.
pub open spec fn opt_texts(list: Option<Vec<String>>) -> Option<Seq<Seq<char>>> {
    match list {
        Some(names) => Some(crate::text::texts(names@)),
        None => None,
    }
}

/// Look an event's names up in its publisher's table.
pub fn look_up_names(formats: &mut FormatCache, provider: &str, numbers: EventNumbers) -> (plan:
    NamePlan)
    requires
        old(formats).wf(),
    ensures
        final(formats).wf(),
        final(formats).limit() == old(formats).limit(),
        final(formats)@ == crate::cache::touched(
            old(formats)@,
            crate::format_cache::table_key(provider@, SYSTEM_DEFAULT_LOCALE),
        ),
        ({
            let known = old(formats).known(provider@, SYSTEM_DEFAULT_LOCALE);
            &&& crate::status::opt_chars(plan.task) == crate::format_cache::known_scalar(
                known,
                NameField::Task,
                numbers.task as u64,
            )
            &&& crate::status::opt_chars(plan.opcode) == crate::format_cache::known_scalar(
                known,
                NameField::Opcode,
                numbers.opcode as u64,
            )
            &&& opt_texts(plan.keywords) == table_keywords(known, numbers.keywords)
            &&& crate::status::opt_chars(plan.level) == crate::format_cache::known_scalar(
                known,
                NameField::Level,
                numbers.level as u64,
            )
        }),
{
    let ghost start = formats@;
    let ghost key = crate::format_cache::table_key(provider@, SYSTEM_DEFAULT_LOCALE);
    proof {
        formats.stays_bounded();
        crate::cache::looking_up_changes_no_value(start, key, key);
        crate::cache::the_front_stays_in_front(start, 0, key, start[0].1);
    }
    let task = formats.get_scalar(
        provider,
        SYSTEM_DEFAULT_LOCALE,
        NameField::Task,
        numbers.task as u64,
    );
    let opcode = formats.get_scalar(
        provider,
        SYSTEM_DEFAULT_LOCALE,
        NameField::Opcode,
        numbers.opcode as u64,
    );
    let found: Option<Vec<String>> = formats.get_keywords(
        provider,
        SYSTEM_DEFAULT_LOCALE,
        numbers.keywords,
    );
    let keywords: Option<Vec<String>> = match found {
        Some(names) => if names.len() > 0 || numbers.keywords == 0 {
            Some(names)
        } else {
            None
        },
        None => None,
    };
    let level = formats.get_scalar(
        provider,
        SYSTEM_DEFAULT_LOCALE,
        NameField::Level,
        numbers.level as u64,
    );
    NamePlan { task, opcode, keywords, level }
}

/// What the event itself said about the fields that the table misses.
#[derive(Debug)]
pub struct FieldAnswers {
    pub task: Option<String>,
    pub opcode: Option<String>,
    /// All keyword names, separated by semicolons.
    pub keywords: Option<String>,
}

/// The names of an event, and how they were come by.
#[derive(Debug)]
pub struct ResolvedNames {
    pub task_name: Option<String>,
    pub opcode_name: Option<String>,
    pub keyword_names: Vec<String>,
    pub level_name: Option<String>,
    /// Names that the table should have had.
    pub table_misses: u32,
    /// Lookups that the table answered.
    pub cache_hits: u32,
    /// Lookups that count as missed.
    pub cache_misses: u32,
}

/// The contents of resolved names.
#[verifier::ext_equal]
pub struct ResolvedView {
    pub task_name: Option<Seq<char>>,
    pub opcode_name: Option<Seq<char>>,
    pub keyword_names: Seq<Seq<char>>,
    pub level_name: Option<Seq<char>>,
    pub table_misses: u32,
    pub cache_hits: u32,
    pub cache_misses: u32,
}

impl View for ResolvedNames {
    type V = ResolvedView;

    open spec fn view(&self) -> ResolvedView {
        ResolvedView {
            task_name: crate::status::opt_chars(self.task_name),
            opcode_name: crate::status::opt_chars(self.opcode_name),
            keyword_names: crate::text::texts(self.keyword_names@),
            level_name: crate::status::opt_chars(self.level_name),
            table_misses: self.table_misses,
            cache_hits: self.cache_hits,
            cache_misses: self.cache_misses,
        }
    }
}

/// One for yes, none for no.
pub open spec fn count(yes: bool) -> int {
    if yes {
        1
    } else {
        0
    }
}

/// The names of an event whose publisher cannot be opened.
pub open spec fn nameless(fallback_level: Seq<char>) -> ResolvedView {
    ResolvedView {
        task_name: None,
        opcode_name: None,
        keyword_names: Seq::empty(),
        level_name: Some(fallback_level),
        table_misses: 0,
        cache_hits: 0,
        cache_misses: 0,
    }
}

/// The names of an event, from its publisher's table first and the event itself
/// second. A level that the table misses has a standard name; it counts as
/// missed only where that says "Unknown".
pub open spec fn resolved(
    plan: NamePlan,
    fallback_level: Seq<char>,
    answers: FieldAnswers,
) -> ResolvedView {
    let level_missed = plan.level is None && fallback_level == "Unknown"@;
    let misses = count(plan.task is None) + count(plan.opcode is None) + count(
        plan.keywords is None,
    ) + count(level_missed);
    ResolvedView {
        task_name: if plan.task is Some {
            crate::status::opt_chars(plan.task)
        } else {
            crate::status::opt_chars(answers.task)
        },
        opcode_name: if plan.opcode is Some {
            crate::status::opt_chars(plan.opcode)
        } else {
            crate::status::opt_chars(answers.opcode)
        },
        keyword_names: match plan.keywords {
            Some(names) => crate::text::texts(names@),
            None => crate::format_cache::keyword_answer(answers.keywords),
        },
        level_name: match plan.level {
            Some(name) => Some(name@),
            None => Some(fallback_level),
        },
        table_misses: misses as u32,
        cache_hits: (count(plan.task is Some) + count(plan.opcode is Some) + count(
            plan.keywords is Some,
        ) + count(plan.level is Some)) as u32,
        cache_misses: misses as u32,
    }
}

/// The names of an event whose publisher cannot be opened: its level has its
/// standard name.
pub fn no_names(fallback_level: &str) -> (names: ResolvedNames)
    ensures
        names@ == nameless(fallback_level@),
{
    let names = ResolvedNames {
        task_name: None,
        opcode_name: None,
        keyword_names: Vec::new(),
        level_name: Some(fallback_level.to_owned()),
        table_misses: 0,
        cache_hits: 0,
        cache_misses: 0,
    };
    assert(names@ =~= nameless(fallback_level@));
    names
}

/// The names of an event, given what its publisher's table says and what the
/// event itself says where the table misses.
pub fn resolve_event_metadata(plan: NamePlan, fallback_level: &str, answers: FieldAnswers) -> (
    names: ResolvedNames)
    ensures
        names@ == resolved(plan, fallback_level@, answers),
{
    let mut hits: u32 = 0;
    let mut misses: u32 = 0;
    let task_name: Option<String> = match plan.task {
        Some(name) => {
            hits += 1;
            Some(name)
        },
        None => {
            misses += 1;
            answers.task
        },
    };
    let opcode_name: Option<String> = match plan.opcode {
        Some(name) => {
            hits += 1;
            Some(name)
        },
        None => {
            misses += 1;
            answers.opcode
        },
    };
    let keyword_names: Vec<String> = match plan.keywords {
        Some(names) => {
            hits += 1;
            names
        },
        None => {
            misses += 1;
            split_keywords(answers.keywords)
        },
    };
    let level_name: Option<String> = match plan.level {
        Some(name) => {
            hits += 1;
            Some(name)
        },
        None => {
            if text_eq(fallback_level, "Unknown") {
                misses += 1;
            }
            Some(fallback_level.to_owned())
        },
    };
    ResolvedNames {
        task_name,
        opcode_name,
        keyword_names,
        level_name,
        table_misses: misses,
        cache_hits: hits,
        cache_misses: misses,
    }
}

// ---------------------------------------------------------------------------
// Displaying an event
// ---------------------------------------------------------------------------
/// The display fields of an event, and how they were come by.
#[derive(Debug)]
pub struct EventDisplay {
    pub task_name: Option<String>,
    pub opcode_name: Option<String>,
    pub keyword_names: Vec<String>,
    /// The name of the level from the table; without one the event's own stays.
    pub level_name: Option<String>,
    pub rendered_message: Option<String>,
    /// The event arrived as rendered text: its publisher was left alone, and its
    /// channel's record ids say nothing about gaps.
    pub rendered_delivery: bool,
    pub table_misses: u32,
}

/// The contents of display fields.
#[verifier::ext_equal]
pub struct DisplayView {
    pub task_name: Option<Seq<char>>,
    pub opcode_name: Option<Seq<char>>,
    pub keyword_names: Seq<Seq<char>>,
    pub level_name: Option<Seq<char>>,
    pub rendered_message: Option<Seq<char>>,
    pub rendered_delivery: bool,
    pub table_misses: u32,
}

impl View for EventDisplay {
    type V = DisplayView;

    open spec fn view(&self) -> DisplayView {
        DisplayView {
            task_name: crate::status::opt_chars(self.task_name),
            opcode_name: crate::status::opt_chars(self.opcode_name),
            keyword_names: crate::text::texts(self.keyword_names@),
            level_name: crate::status::opt_chars(self.level_name),
            rendered_message: crate::status::opt_chars(self.rendered_message),
            rendered_delivery: self.rendered_delivery,
            table_misses: self.table_misses,
        }
    }
}

impl DisplayView {
    /// Nothing to display.
    pub open spec fn empty() -> DisplayView {
        DisplayView {
            task_name: None,
            opcode_name: None,
            keyword_names: Seq::empty(),
            level_name: None,
            rendered_message: None,
            rendered_delivery: false,
            table_misses: 0,
        }
    }

    /// The fields of an event that arrived as rendered text.
    pub open spec fn rendered(
        info: crate::rendering_info::FieldsView,
        render_message: bool,
    ) -> DisplayView {
        DisplayView {
            task_name: info.task_name,
            opcode_name: info.opcode_name,
            keyword_names: info.keyword_names,
            level_name: None,
            rendered_message: if render_message {
                info.message
            } else {
                None
            },
            rendered_delivery: true,
            table_misses: 0,
        }
    }
}

impl Default for EventDisplay {
    fn default() -> (display: EventDisplay)
        ensures
            display@ == DisplayView::empty(),
    {
        let display = EventDisplay {
            task_name: None,
            opcode_name: None,
            keyword_names: Vec::new(),
            level_name: None,
            rendered_message: None,
            rendered_delivery: false,
            table_misses: 0,
        };
        assert(display@ =~= DisplayView::empty());
        display
    }
}

/// How an event's display fields are come by.
#[derive(Debug)]
pub enum DisplayPlan {
    /// They are known without its publisher.
    Known(EventDisplay),
    /// Its publisher has to be asked.
    AskPublisher,
}

/// How the display fields of an event are come by, given what its XML holds.
/// An event that arrived as rendered text, or without a publisher, never has its
/// publisher asked.
pub open spec fn display_known(
    info: Option<crate::rendering_info::FieldsView>,
    provider: Seq<char>,
    render_message: bool,
) -> Option<DisplayView> {
    match info {
        Some(fields) => Some(DisplayView::rendered(fields, render_message)),
        None => if provider.len() == 0 {
            Some(DisplayView::empty())
        } else {
            None
        },
    }
}

/// Whether a plan is as given.
pub open spec fn is_plan(plan: DisplayPlan, known: Option<DisplayView>) -> bool {
    match plan {
        DisplayPlan::Known(display) => known == Some(display@),
        DisplayPlan::AskPublisher => known is None,
    }
}

/// How the display fields of an event are come by, given what was found in its
/// XML.
pub fn display_plan(
    info: Option<RenderingInfoFields>,
    provider: &str,
    render_message: bool,
) -> (plan: DisplayPlan)
    ensures
        is_plan(
            plan,
            display_known(
                match info {
                    Some(fields) => Some(fields@),
                    None => None,
                },
                provider@,
                render_message,
            ),
        ),
{
    match info {
        Some(fields) => {
            let ghost shown = fields@;
            let rendered_message: Option<String> = if render_message {
                fields.message
            } else {
                None
            };
            let display = EventDisplay {
                task_name: fields.task_name,
                opcode_name: fields.opcode_name,
                keyword_names: fields.keyword_names,
                level_name: None,
                rendered_message,
                rendered_delivery: true,
                table_misses: 0,
            };
            assert(display@ =~= DisplayView::rendered(shown, render_message));
            DisplayPlan::Known(display)
        },
        None => if provider.is_empty() {
            DisplayPlan::Known(EventDisplay::default())
        } else {
            DisplayPlan::AskPublisher
        },
    }
}

/// How the display fields of an event are come by. Where its XML holds a
/// `<RenderingInfo>` element, the publisher is not asked.
pub fn resolve_event_display(xml: &str, provider: &str, render_message: bool) -> (plan: DisplayPlan)
    ensures
        crate::rendering_info::has_element(crate::rendering_info::document_events(xml@, true))
            ==> plan is Known && plan->Known_0.rendered_delivery,
        is_plan(
            plan,
            display_known(
                crate::rendering_info::rendering_info(
                    crate::rendering_info::document_events(xml@, true),
                ),
                provider@,
                render_message,
            ),
        ),
{
    proof {
        crate::rendering_info::presence_decides(
            crate::rendering_info::document_events(xml@, true),
        );
    }
    display_plan(parse(xml), provider, render_message)
}

/// The display fields of an event whose publisher was asked.
pub fn display_names(names: ResolvedNames, rendered_message: Option<String>) -> (display:
    EventDisplay)
    ensures
        display@ == (DisplayView {
            task_name: names@.task_name,
            opcode_name: names@.opcode_name,
            keyword_names: names@.keyword_names,
            level_name: names@.level_name,
            rendered_message: crate::status::opt_chars(rendered_message),
            rendered_delivery: false,
            table_misses: names.table_misses,
        }),
{
    EventDisplay {
        task_name: names.task_name,
        opcode_name: names.opcode_name,
        keyword_names: names.keyword_names,
        level_name: names.level_name,
        rendered_message,
        rendered_delivery: false,
        table_misses: names.table_misses,
    }
}

// ---------------------------------------------------------------------------
// Reading a publisher's tables
// ---------------------------------------------------------------------------
/// A value that the system returns.
#[derive(Debug)]
pub enum Variant {
    Text(String),
    UInt32(u32),
    UInt64(u64),
    Handle(i64),
    /// Of another type.
    Other,
}

/// The text of a value, where it is one.
pub open spec fn text_value(variant: Option<Variant>) -> Option<Seq<char>> {
    match variant {
        Some(Variant::Text(text)) => Some(text@),
        _ => None,
    }
}

/// The 32-bit number of a value; zero where it is none.
pub open spec fn u32_value(variant: Option<Variant>) -> u32 {
    match variant {
        Some(Variant::UInt32(n)) => n,
        _ => 0,
    }
}

/// The 64-bit number of a value; zero where it is none.
pub open spec fn u64_value(variant: Option<Variant>) -> u64 {
    match variant {
        Some(Variant::UInt64(n)) => n,
        _ => 0,
    }
}

/// The text of a value, where it is one.
pub fn variant_string(variant: &Option<Variant>) -> (text: Option<String>)
    ensures
        crate::status::opt_chars(text) == text_value(*variant),
{
    match variant {
        Some(Variant::Text(text)) => Some(text.clone()),
        _ => None,
    }
}

/// The 32-bit number of a value; zero where it is none.
pub fn variant_u32(variant: &Option<Variant>) -> (n: u32)
    ensures
        n == u32_value(*variant),
{
    match variant {
        Some(Variant::UInt32(n)) => *n,
        _ => 0,
    }
}

/// The 64-bit number of a value; zero where it is none.
pub fn variant_u64(variant: &Option<Variant>) -> (n: u64)
    ensures
        n == u64_value(*variant),
{
    match variant {
        Some(Variant::UInt64(n)) => *n,
        _ => 0,
    }
}

/// The number of values to make room for, given the bytes that the system asks
/// for; none where there is nothing to fetch.
pub fn sized_variant(used: u32, variant_size: u32) -> (count: Option<u32>)
    requires
        variant_size > 0,
    ensures
        count is None <==> used == 0,
        count matches Some(n) ==> n == if used < variant_size {
            1
        } else {
            used as int / variant_size as int
        },
{
    if used == 0 {
        None
    } else if used < variant_size {
        Some(1)
    } else {
        Some(used / variant_size)
    }
}

/// The next call to walk a table of a publisher.
#[derive(Debug, Clone, Copy, PartialEq, Eq, Structural)]
pub enum WalkAction {
    /// Ask for the table.
    Property,
    /// Ask how many rows it has.
    Size(i64),
    /// Read one row.
    Visit { array: i64, index: u32 },
    /// Close the table.
    Close(i64),
    /// Nothing: the walk is over.
    Done,
}

/// How a call went.
#[derive(Debug)]
pub enum WalkEvent {
    /// The table, if it could be had.
    Property(Option<Variant>),
    /// The number of rows, if it could be had.
    Size(Option<u32>),
    /// The row was read.
    Visited,
    /// The table was closed.
    Closed,
}

/// One walk in progress.
#[derive(Debug, Clone, Copy, PartialEq, Eq, Structural)]
pub struct ArrayWalk {
    pub action: WalkAction,
    /// The number of rows, once it is known.
    pub len: u32,
}

/// The walk after a call.
pub open spec fn walk_after(walk: ArrayWalk, event: WalkEvent) -> ArrayWalk {
    match (walk.action, event) {
        (WalkAction::Property, WalkEvent::Property(Some(Variant::Handle(array)))) => if array
            != 0 {
            ArrayWalk { action: WalkAction::Size(array), ..walk }
        } else {
            ArrayWalk { action: WalkAction::Done, ..walk }
        },
        (WalkAction::Size(array), WalkEvent::Size(Some(len))) => if len > 0 {
            ArrayWalk { action: WalkAction::Visit { array, index: 0 }, len }
        } else {
            ArrayWalk { action: WalkAction::Close(array), len }
        },
        (WalkAction::Size(array), WalkEvent::Size(None)) => ArrayWalk {
            action: WalkAction::Close(array),
            ..walk
        },
        (WalkAction::Visit { array, index }, WalkEvent::Visited) => if index + 1 < walk.len {
            ArrayWalk {
                action: WalkAction::Visit { array, index: (index + 1) as u32 },
                ..walk
            }
        } else {
            ArrayWalk { action: WalkAction::Close(array), ..walk }
        },
        _ => ArrayWalk { action: WalkAction::Done, ..walk },
    }
}

impl ArrayWalk {
    /// A walk at its first call.
    pub fn walk_metadata_array() -> (walk: ArrayWalk)
        ensures
            walk == (ArrayWalk { action: WalkAction::Property, len: 0 }),
    {
        ArrayWalk { action: WalkAction::Property, len: 0 }
    }

    /// Move on after a call. Returns the next one.
    pub fn advance(&mut self, event: WalkEvent) -> (action: WalkAction)
        ensures
            *final(self) == walk_after(*old(self), event),
            action == final(self).action,
    {
        self.action = match (self.action, event) {
            (WalkAction::Property, WalkEvent::Property(Some(Variant::Handle(array)))) => {
                if array != 0 {
                    WalkAction::Size(array)
                } else {
                    WalkAction::Done
                }
            },
            (WalkAction::Size(array), WalkEvent::Size(Some(len))) => {
                self.len = len;
                if len > 0 {
                    WalkAction::Visit { array, index: 0 }
                } else {
                    WalkAction::Close(array)
                }
            },
            (WalkAction::Size(array), WalkEvent::Size(None)) => WalkAction::Close(array),
            (WalkAction::Visit { array, index }, WalkEvent::Visited) => {
                if index < u32::MAX && index + 1 < self.len {
                    WalkAction::Visit { array, index: index + 1 }
                } else {
                    WalkAction::Close(array)
                }
            },
            _ => WalkAction::Done,
        };
        self.action
    }
}

/// The walk after a run of calls.
pub open spec fn walked(events: Seq<WalkEvent>) -> ArrayWalk
    decreases events.len(),
{
    if events.len() == 0 {
        ArrayWalk { action: WalkAction::Property, len: 0 }
    } else {
        walk_after(walked(events.drop_last()), events.last())
    }
}

/// Whether each call was answered as such a call is.
pub open spec fn walk_answers_fit(events: Seq<WalkEvent>) -> bool
    decreases events.len(),
{
    events.len() == 0 || (walk_answers_fit(events.drop_last()) && match walked(
        events.drop_last(),
    ).action {
        WalkAction::Property => events.last() is Property,
        WalkAction::Size(_) => events.last() is Size,
        WalkAction::Visit { .. } => events.last() is Visited,
        WalkAction::Close(_) => events.last() is Closed,
        WalkAction::Done => true,
    })
}

/// The rows that were visited, in order.
pub open spec fn visits(events: Seq<WalkEvent>) -> Seq<u32>
    decreases events.len(),
{
    if events.len() == 0 {
        Seq::empty()
    } else {
        let before = visits(events.drop_last());
        match walked(events).action {
            WalkAction::Visit { index, .. } => before.push(index),
            _ => before,
        }
    }
}

/// The tables that were closed, in order.
pub open spec fn closes(events: Seq<WalkEvent>) -> Seq<i64>
    decreases events.len(),
{
    if events.len() == 0 {
        Seq::empty()
    } else {
        let before = closes(events.drop_last());
        match walked(events).action {
            WalkAction::Close(array) => before.push(array),
            _ => before,
        }
    }
}

/// A walk that is over has closed the table that it was given, exactly once, and
/// read each of its rows once, in order.
pub proof fn walks_read_each_row_once_and_close(events: Seq<WalkEvent>)
    requires
        walk_answers_fit(events),
        walked(events).action == WalkAction::Done,
    ensures
        events.len() > 0,
        match events[0] {
            WalkEvent::Property(Some(Variant::Handle(array))) => closes(events) == if array != 0 {
                seq![array]
            } else {
                Seq::empty()
            },
            _ => closes(events) == Seq::<i64>::empty(),
        },
        visits(events) == Seq::new(walked(events).len as nat, |i: int| i as u32),
{
    lemma_walk(events);
}

proof fn lemma_walk(events: Seq<WalkEvent>)
    requires
        walk_answers_fit(events),
    ensures
        ({
            let walk = walked(events);
            let rows = Seq::new(walk.len as nat, |i: int| i as u32);
            &&& events.len() == 0 <==> walk.action == WalkAction::Property
            &&& match walk.action {
                WalkAction::Property => walk.len == 0 && visits(events) == rows && closes(events)
                    == Seq::<i64>::empty(),
                WalkAction::Size(array) => array != 0 && walk.len == 0 && visits(events) == rows
                    && closes(events) == Seq::<i64>::empty() && events[0] == WalkEvent::Property(
                    Some(Variant::Handle(array)),
                ),
                WalkAction::Visit { array, index } => array != 0 && index < walk.len && visits(
                    events,
                ) == rows.take(index + 1) && closes(events) == Seq::<i64>::empty() && events[0]
                    == WalkEvent::Property(Some(Variant::Handle(array))),
                WalkAction::Close(array) => array != 0 && visits(events) == rows && closes(events)
                    == seq![array] && events[0] == WalkEvent::Property(
                    Some(Variant::Handle(array)),
                ),
                WalkAction::Done => visits(events) == rows && closes(events) == match events[0] {
                    WalkEvent::Property(Some(Variant::Handle(array))) => if array != 0 {
                        seq![array]
                    } else {
                        Seq::empty()
                    },
                    _ => Seq::empty(),
                },
            }
        }),
    decreases events.len(),
{
    if events.len() == 0 {
        let rows = Seq::new(0, |i: int| i as u32);
        assert(visits(events) =~= rows);
    } else {
        let before = events.drop_last();
        lemma_walk(before);
        let walk = walked(events);
        let rows = Seq::new(walk.len as nat, |i: int| i as u32);
        let earlier = walked(before);
        if before.len() > 0 {
            assert(before[0] == events[0]);
        }
        match walk.action {
            WalkAction::Visit { array, index } => {
                assert(visits(events) =~= rows.take(index + 1));
            },
            WalkAction::Close(array) => {
                assert(visits(events) =~= rows);
                assert(closes(events) =~= seq![array]);
            },
            _ => {
                assert(visits(events) =~= rows);
            },
        }
    }
}

/// One row of a publisher's table. `formatted` is the row's message, where it has
/// one and it could be formatted.
#[derive(Debug)]
pub struct MetadataRow {
    pub message_id: Option<Variant>,
    pub symbolic: Option<Variant>,
    pub value: Option<Variant>,
    pub formatted: Option<String>,
}

/// The message that a row names, or nothing where it has none.
pub fn message_to_format(message_id: &Option<Variant>) -> (id: Option<u32>)
    ensures
        id == if u32_value(*message_id) != u32::MAX {
            Some(u32_value(*message_id))
        } else {
            None
        },
{
    let id: u32 = variant_u32(message_id);
    if id != u32::MAX {
        Some(id)
    } else {
        None
    }
}

/// The display string of a row.
pub open spec fn row_display(row: MetadataRow) -> Option<Seq<char>> {
    if u32_value(row.message_id) != u32::MAX {
        crate::format_cache::non_empty(row.formatted)
    } else {
        match text_value(row.symbolic) {
            Some(name) => if name.len() > 0 {
                Some(name)
            } else {
                None
            },
            None => None,
        }
    }
}

/// The display string of a row: its message where it has one, its symbolic name
/// where it has none.
pub fn display_or_symbolic(row: &MetadataRow) -> (display: Option<String>)
    ensures
        crate::status::opt_chars(display) == row_display(*row),
{
    let symbolic = variant_string(&row.symbolic);
    let formatted: Option<String> = match &row.formatted {
        Some(text) => Some(text.clone()),
        None => None,
    };
    choose_table_display(variant_u32(&row.message_id), formatted, symbolic)
}

/// The task that a row names. A value that is no task names none.
pub open spec fn row_task(row: MetadataRow) -> Option<u16> {
    if u32_value(row.value) <= u16::MAX {
        Some(u32_value(row.value) as u16)
    } else {
        None
    }
}

/// The opcode that a row names: the high word of its value, where that is an
/// opcode. The low word is the task that the opcode belongs to.
pub open spec fn row_opcode(row: MetadataRow) -> Option<u8> {
    let word = u32_value(row.value) >> 16;
    if word <= u8::MAX {
        Some(word as u8)
    } else {
        None
    }
}

/// The level that a row names. A value that is no level names none.
pub open spec fn row_level(row: MetadataRow) -> Option<u8> {
    if u32_value(row.value) <= u8::MAX {
        Some(u32_value(row.value) as u8)
    } else {
        None
    }
}

/// A table's rows by their task. A later row takes the place of an earlier one.
/// A row without a task or a display string is left out.
pub open spec fn tasks_of(rows: Seq<MetadataRow>) -> Map<u16, Seq<char>>
    decreases rows.len(),
{
    if rows.len() == 0 {
        Map::empty()
    } else {
        match (row_task(rows.last()), row_display(rows.last())) {
            (Some(value), Some(name)) => tasks_of(rows.drop_last()).insert(value, name),
            _ => tasks_of(rows.drop_last()),
        }
    }
}

/// A table's rows by their opcode.
pub open spec fn opcodes_of(rows: Seq<MetadataRow>) -> Map<u8, Seq<char>>
    decreases rows.len(),
{
    if rows.len() == 0 {
        Map::empty()
    } else {
        match (row_opcode(rows.last()), row_display(rows.last())) {
            (Some(value), Some(name)) => opcodes_of(rows.drop_last()).insert(value, name),
            _ => opcodes_of(rows.drop_last()),
        }
    }
}

/// A table's rows by their level.
pub open spec fn levels_of(rows: Seq<MetadataRow>) -> Map<u8, Seq<char>>
    decreases rows.len(),
{
    if rows.len() == 0 {
        Map::empty()
    } else {
        match (row_level(rows.last()), row_display(rows.last())) {
            (Some(value), Some(name)) => levels_of(rows.drop_last()).insert(value, name),
            _ => levels_of(rows.drop_last()),
        }
    }
}

/// A table's rows by their keyword bits, in table order.
pub open spec fn keywords_of(rows: Seq<MetadataRow>) -> Seq<(u64, Seq<char>)>
    decreases rows.len(),
{
    if rows.len() == 0 {
        Seq::empty()
    } else {
        match row_display(rows.last()) {
            Some(name) => keywords_of(rows.drop_last()).push((u64_value(rows.last().value), name)),
            None => keywords_of(rows.drop_last()),
        }
    }
}

/// The texts of a map of names.
pub open spec fn named<K>(names: Map<K, String>) -> Map<K, Seq<char>> {
    names.map_values(|name: String| name@)
}

/// The texts of a list of keywords.
pub open spec fn keyword_texts(keywords: Seq<(u64, String)>) -> Seq<(u64, Seq<char>)> {
    keywords.map_values(|k: (u64, String)| (k.0, k.1@))
}

/// Fill the tasks from the rows of their table.
pub fn fill_tasks(rows: &Vec<MetadataRow>, names: &mut PublisherNames)
    requires
        old(names).tasks@ == Map::<u16, String>::empty(),
    ensures
        named(final(names).tasks@) == tasks_of(rows@),
        final(names).opcodes == old(names).opcodes,
        final(names).keywords == old(names).keywords,
        final(names).levels == old(names).levels,
{
    broadcast use vstd::std_specs::hash::group_hash_axioms;

    let mut i: usize = 0;
    assert(named(names.tasks@) =~= tasks_of(rows@.take(0)));
    while i < rows.len()
        invariant
            i <= rows@.len(),
            named(names.tasks@) == tasks_of(rows@.take(i as int)),
            names.opcodes == old(names).opcodes,
            names.keywords == old(names).keywords,
            names.levels == old(names).levels,
        decreases rows.len() - i,
    {
        broadcast use vstd::std_specs::hash::group_hash_axioms;

        let ghost next = rows@.take(i + 1);
        assert(next.drop_last() =~= rows@.take(i as int));
        assert(next.last() == rows@[i as int]);
        let value: u32 = variant_u32(&rows[i].value);
        if value <= 0xFFFF {
            if let Some(display) = display_or_symbolic(&rows[i]) {
                names.tasks.insert(value as u16, display);
            }
        }
        assert(named(names.tasks@) =~= tasks_of(next));
        i += 1;
    }
    assert(rows@.take(i as int) =~= rows@);
}

/// Fill the opcodes from the rows of their table.
pub fn fill_opcodes(rows: &Vec<MetadataRow>, names: &mut PublisherNames)
    requires
        old(names).opcodes@ == Map::<u8, String>::empty(),
    ensures
        named(final(names).opcodes@) == opcodes_of(rows@),
        final(names).tasks == old(names).tasks,
        final(names).keywords == old(names).keywords,
        final(names).levels == old(names).levels,
{
    broadcast use vstd::std_specs::hash::group_hash_axioms;

    let mut i: usize = 0;
    assert(named(names.opcodes@) =~= opcodes_of(rows@.take(0)));
    while i < rows.len()
        invariant
            i <= rows@.len(),
            named(names.opcodes@) == opcodes_of(rows@.take(i as int)),
            names.tasks == old(names).tasks,
            names.keywords == old(names).keywords,
            names.levels == old(names).levels,
        decreases rows.len() - i,
    {
        broadcast use vstd::std_specs::hash::group_hash_axioms;

        let ghost next = rows@.take(i + 1);
        assert(next.drop_last() =~= rows@.take(i as int));
        assert(next.last() == rows@[i as int]);
        let word: u32 = variant_u32(&rows[i].value) >> 16;
        if word <= 0xFF {
            if let Some(display) = display_or_symbolic(&rows[i]) {
                names.opcodes.insert(word as u8, display);
            }
        }
        assert(named(names.opcodes@) =~= opcodes_of(next));
        i += 1;
    }
    assert(rows@.take(i as int) =~= rows@);
}

/// Fill the levels from the rows of their table.
pub fn fill_levels(rows: &Vec<MetadataRow>, names: &mut PublisherNames)
    requires
        old(names).levels@ == Map::<u8, String>::empty(),
    ensures
        named(final(names).levels@) == levels_of(rows@),
        final(names).tasks == old(names).tasks,
        final(names).opcodes == old(names).opcodes,
        final(names).keywords == old(names).keywords,
{
    broadcast use vstd::std_specs::hash::group_hash_axioms;

    let mut i: usize = 0;
    assert(named(names.levels@) =~= levels_of(rows@.take(0)));
    while i < rows.len()
        invariant
            i <= rows@.len(),
            named(names.levels@) == levels_of(rows@.take(i as int)),
            names.tasks == old(names).tasks,
            names.opcodes == old(names).opcodes,
            names.keywords == old(names).keywords,
        decreases rows.len() - i,
    {
        broadcast use vstd::std_specs::hash::group_hash_axioms;

        let ghost next = rows@.take(i + 1);
        assert(next.drop_last() =~= rows@.take(i as int));
        assert(next.last() == rows@[i as int]);
        let value: u32 = variant_u32(&rows[i].value);
        if value <= 0xFF {
            if let Some(display) = display_or_symbolic(&rows[i]) {
                names.levels.insert(value as u8, display);
            }
        }
        assert(named(names.levels@) =~= levels_of(next));
        i += 1;
    }
    assert(rows@.take(i as int) =~= rows@);
}

/// Fill the keywords from the rows of their table.
pub fn fill_keywords(rows: &Vec<MetadataRow>, names: &mut PublisherNames)
    requires
        old(names).keywords@ == Seq::<(u64, String)>::empty(),
    ensures
        keyword_texts(final(names).keywords@) == keywords_of(rows@),
        final(names).tasks == old(names).tasks,
        final(names).opcodes == old(names).opcodes,
        final(names).levels == old(names).levels,
{
    let mut i: usize = 0;
    assert(keyword_texts(names.keywords@) =~= keywords_of(rows@.take(0)));
    while i < rows.len()
        invariant
            i <= rows@.len(),
            keyword_texts(names.keywords@) == keywords_of(rows@.take(i as int)),
            names.tasks == old(names).tasks,
            names.opcodes == old(names).opcodes,
            names.levels == old(names).levels,
        decreases rows.len() - i,
    {
        let ghost next = rows@.take(i + 1);
        assert(next.drop_last() =~= rows@.take(i as int));
        assert(next.last() == rows@[i as int]);
        let ghost before = names.keywords@;
        let bit: u64 = variant_u64(&rows[i].value);
        if let Some(display) = display_or_symbolic(&rows[i]) {
            let ghost shown = display@;
            names.keywords.push((bit, display));
            assert(keyword_texts(names.keywords@) =~= keyword_texts(before).push((bit, shown)));
        }
        assert(keyword_texts(names.keywords@) =~= keywords_of(next));
        i += 1;
    }
    assert(rows@.take(i as int) =~= rows@);
}

/// A publisher's names, from the rows of its tables.
pub fn enumerate_publisher_names(
    tasks: &Vec<MetadataRow>,
    opcodes: &Vec<MetadataRow>,
    keywords: &Vec<MetadataRow>,
    levels: &Vec<MetadataRow>,
) -> (names: PublisherNames)
    ensures
        named(names.tasks@) == tasks_of(tasks@),
        named(names.opcodes@) == opcodes_of(opcodes@),
        keyword_texts(names.keywords@) == keywords_of(keywords@),
        named(names.levels@) == levels_of(levels@),
{
    let mut names = PublisherNames::default();
    fill_tasks(tasks, &mut names);
    fill_opcodes(opcodes, &mut names);
    fill_keywords(keywords, &mut names);
    fill_levels(levels, &mut names);
    names
}

// ---------------------------------------------------------------------------
// Laws
// ---------------------------------------------------------------------------
/// A publisher that could not be opened costs one attempt: the event that made it
/// and every later one before the refresh have no names but the standard name of
/// their level, miss nothing, and need neither the publisher nor a formatting
/// call. `later` is the cache as a later event finds it, with what the first left
/// of this publisher still there.
pub proof fn unopenable_publishers_are_opened_once(
    entries: Seq<((Seq<char>, u32), crate::format_cache::Entry)>,
    capacity: nat,
    later: Seq<((Seq<char>, u32), crate::format_cache::Entry)>,
    provider: Seq<char>,
    first: Tick,
    second: Tick,
    refresh: nat,
    fallback_level: Seq<char>,
)
    requires
        ({
            let key = crate::format_cache::table_key(provider, SYSTEM_DEFAULT_LOCALE);
            let asked = crate::cache::touched(entries, key);
            let left = crate::cache::stored(
                asked,
                capacity,
                key,
                crate::format_cache::enumerated(None, first),
            );
            &&& crate::format_cache::prepared(
                crate::cache::value_of(entries, key),
                first,
                refresh,
            ) == Prepare::NeedEnumerate
            &&& crate::cache::value_of(later, key) == crate::cache::value_of(left, key)
            &&& !crate::format_cache::is_stale(first, second, refresh)
        }),
    ensures
        ({
            let key = crate::format_cache::table_key(provider, SYSTEM_DEFAULT_LOCALE);
            let before = crate::cache::value_of(entries, key);
            let after = crate::cache::value_of(later, key);
            let names = nameless(fallback_level);
            &&& preparation(crate::format_cache::prepared(before, first, refresh))
                == NamePreparation::TakePublisher
            &&& preparation(crate::format_cache::prepared(after, second, refresh))
                == NamePreparation::NoNames
            &&& names.task_name is None
            &&& names.opcode_name is None
            &&& names.keyword_names.len() == 0
            &&& names.level_name == Some(fallback_level)
            &&& names.table_misses == 0
        }),
{
    let key = crate::format_cache::table_key(provider, SYSTEM_DEFAULT_LOCALE);
    crate::cache::stored_values_are_found(
        crate::cache::touched(entries, key),
        capacity,
        key,
        crate::format_cache::enumerated(None, first),
    );
}

/// The publisher of an event that arrived as rendered text is never asked,
/// whatever the element holds.
pub proof fn rendered_events_leave_the_publisher_alone(
    fields: crate::rendering_info::FieldsView,
    provider: Seq<char>,
    render_message: bool,
    plan: DisplayPlan,
)
    requires
        is_plan(plan, display_known(Some(fields), provider, render_message)),
    ensures
        plan matches DisplayPlan::Known(display) && display.rendered_delivery && (!render_message
            ==> display.rendered_message is None),
{
}

/// The name of a task comes from a row with that task, or it has none: no row lends
/// its name to another value.
pub proof fn task_names_come_from_their_own_rows(rows: Seq<MetadataRow>, task: u16)
    ensures
        tasks_of(rows).contains_key(task) ==> exists|i: int|
            0 <= i < rows.len() && row_task(#[trigger] rows[i]) == Some(task) && row_display(rows[i])
                == Some(tasks_of(rows)[task]),
    decreases rows.len(),
{
    if rows.len() > 0 {
        let before = rows.drop_last();
        task_names_come_from_their_own_rows(before, task);
        if tasks_of(rows).contains_key(task) {
            let last = rows.len() - 1;
            if row_display(rows[last]) is Some && row_task(rows[last]) == Some(task) {
            } else {
                let i = choose|i: int|
                    0 <= i < before.len() && row_task(#[trigger] before[i]) == Some(task)
                        && row_display(before[i]) == Some(tasks_of(before)[task]);
                assert(rows[i] == before[i]);
            }
        }
    }
}

/// The name of an opcode comes from a row with that opcode, or it has none.
pub proof fn opcode_names_come_from_their_own_rows(rows: Seq<MetadataRow>, opcode: u8)
    ensures
        opcodes_of(rows).contains_key(opcode) ==> exists|i: int|
            0 <= i < rows.len() && row_opcode(#[trigger] rows[i]) == Some(opcode) && row_display(rows[i])
                == Some(opcodes_of(rows)[opcode]),
    decreases rows.len(),
{
    if rows.len() > 0 {
        let before = rows.drop_last();
        opcode_names_come_from_their_own_rows(before, opcode);
        if opcodes_of(rows).contains_key(opcode) {
            let last = rows.len() - 1;
            if row_display(rows[last]) is Some && row_opcode(rows[last]) == Some(opcode) {
            } else {
                let i = choose|i: int|
                    0 <= i < before.len() && row_opcode(#[trigger] before[i]) == Some(opcode)
                        && row_display(before[i]) == Some(opcodes_of(before)[opcode]);
                assert(rows[i] == before[i]);
            }
        }
    }
}

/// The name of a level comes from a row with that level, or it has none.
pub proof fn level_names_come_from_their_own_rows(rows: Seq<MetadataRow>, level: u8)
    ensures
        levels_of(rows).contains_key(level) ==> exists|i: int|
            0 <= i < rows.len() && row_level(#[trigger] rows[i]) == Some(level) && row_display(rows[i])
                == Some(levels_of(rows)[level]),
    decreases rows.len(),
{
    if rows.len() > 0 {
        let before = rows.drop_last();
        level_names_come_from_their_own_rows(before, level);
        if levels_of(rows).contains_key(level) {
            let last = rows.len() - 1;
            if row_display(rows[last]) is Some && row_level(rows[last]) == Some(level) {
            } else {
                let i = choose|i: int|
                    0 <= i < before.len() && row_level(#[trigger] before[i]) == Some(level)
                        && row_display(before[i]) == Some(levels_of(before)[level]);
                assert(rows[i] == before[i]);
            }
        }
    }
}

/// The number that a row of a field's table stands for.
pub open spec fn row_number(field: NameField, row: MetadataRow) -> u32 {
    match field {
        NameField::Opcode => u32_value(row.value) >> 16,
        _ => u32_value(row.value),
    }
}

/// A name that an enumerated table gives a value is the display string of a row
/// for exactly that value.
pub proof fn names_come_from_rows_of_exactly_their_value(
    names: PublisherNames,
    field: NameField,
    rows: Seq<MetadataRow>,
    value: u64,
)
    requires
        match field {
            NameField::Task => named(names.tasks@) == tasks_of(rows),
            NameField::Opcode => named(names.opcodes@) == opcodes_of(rows),
            NameField::Level => named(names.levels@) == levels_of(rows),
        },
    ensures
        crate::format_cache::table_scalar(names, field, value) matches Some(name) ==> exists|i: int|
            0 <= i < rows.len() && row_number(field, #[trigger] rows[i]) == value && row_display(
                rows[i],
            ) == Some(name),
{
    match field {
        NameField::Task => {
            task_names_come_from_their_own_rows(rows, value as u16);
            assert(named(names.tasks@).contains_key(value as u16) == names.tasks@.contains_key(
                value as u16,
            ));
        },
        NameField::Opcode => {
            opcode_names_come_from_their_own_rows(rows, value as u8);
            assert(named(names.opcodes@).contains_key(value as u8) == names.opcodes@.contains_key(
                value as u8,
            ));
        },
        NameField::Level => {
            level_names_come_from_their_own_rows(rows, value as u8);
            assert(named(names.levels@).contains_key(value as u8) == names.levels@.contains_key(
                value as u8,
            ));
        },
    }
}

/// A formatting call whose inserts stayed unresolved still leaves its text; any
/// other failure leaves none.
pub proof fn partial_renders_keep_their_text(code: u32, buffer: Seq<u16>)
    ensures
        15029 <= code <= 15031 ==> buffer_text(Some(code), buffer) == buffer_text(None, buffer),
        !(15029 <= code <= 15031) ==> buffer_text(Some(code), buffer) is None,
{
}

} // verus!
