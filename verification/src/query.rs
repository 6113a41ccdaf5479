//! The queries that subscriptions are opened with.

use vstd::prelude::*;

use crate::config::WindowsEventLogConfig;
use crate::error::WindowsEventLogError;
use crate::recovery::{ResumeState, Rung};
use crate::text::{starts_with_after_trim, text_eq, to_decimal};
use crate::win32_errors::QueryOrigin;

verus! {

/// The longest XPath query, in bytes, that the event log accepts.
pub const XPATH_MAX_LENGTH: usize = 4096;

/// Read events that arrive from now on.
pub const EVT_SUBSCRIBE_TO_FUTURE_EVENTS: u32 = 1;

/// Read from the oldest record.
pub const EVT_SUBSCRIBE_START_AT_OLDEST_RECORD: u32 = 2;

/// Read from just past the bookmark.
pub const EVT_SUBSCRIBE_START_AFTER_BOOKMARK: u32 = 3;

/// Fail, rather than silently reposition, when the bookmark is dead.
pub const EVT_SUBSCRIBE_STRICT: u32 = 65536;

/// Both of the two flags above: a strict resume from the bookmark.
pub const STRICT_BOOKMARK_RESUME: u32 = 65539;

// ---------------------------------------------------------------------------
// Escaping
// ---------------------------------------------------------------------------
/// A character as XML text content. Quotes stay: an XPath string literal in a
/// text body must keep them.
pub open spec fn text_entity(c: char) -> Seq<char> {
    if c == '&' {
        "&amp;"@
    } else if c == '<' {
        "&lt;"@
    } else if c == '>' {
        "&gt;"@
    } else {
        seq![c]
    }
}

/// A character inside a double-quoted XML attribute value.
pub open spec fn attr_entity(c: char) -> Seq<char> {
    if c == '"' {
        "&quot;"@
    } else {
        text_entity(c)
    }
}

/// A text escaped as XML text content.
pub open spec fn escaped_text(raw: Seq<char>) -> Seq<char>
    decreases raw.len(),
{
    if raw.len() == 0 {
        Seq::empty()
    } else {
        escaped_text(raw.drop_last()) + text_entity(raw.last())
    }
}

/// A text escaped as a double-quoted XML attribute value.
pub open spec fn escaped_attr(raw: Seq<char>) -> Seq<char>
    decreases raw.len(),
{
    if raw.len() == 0 {
        Seq::empty()
    } else {
        escaped_attr(raw.drop_last()) + attr_entity(raw.last())
    }
}

/// Escape for XML text content.
pub fn escape_xml_text(raw: &str) -> (out: String)
    ensures
        out@ == escaped_text(raw@),
{
    let mut out = String::new();
    for c in it: raw.chars()
        invariant
            it.seq() == raw@,
            out@ == escaped_text(raw@.take(it.index() as int)),
    {
        proof {
            let next = raw@.take(it.index() + 1);
            assert(next.drop_last() =~= raw@.take(it.index() as int));
            assert(next.last() == c);
        }
        match c {
            '&' => out.append("&amp;"),
            '<' => out.append("&lt;"),
            '>' => out.append("&gt;"),
            _ => {
                out.push(c);
                assert(out@ =~= escaped_text(raw@.take(it.index() as int)) + seq![c]);
            },
        }
    }
    assert(raw@.take(raw@.len() as int) =~= raw@);
    out
}

/// Escape for a double-quoted XML attribute value.
pub fn escape_xml_attr(raw: &str) -> (out: String)
    ensures
        out@ == escaped_attr(raw@),
{
    let mut out = String::new();
    for c in it: raw.chars()
        invariant
            it.seq() == raw@,
            out@ == escaped_attr(raw@.take(it.index() as int)),
    {
        proof {
            let next = raw@.take(it.index() + 1);
            assert(next.drop_last() =~= raw@.take(it.index() as int));
            assert(next.last() == c);
        }
        match c {
            '&' => out.append("&amp;"),
            '<' => out.append("&lt;"),
            '>' => out.append("&gt;"),
            '"' => out.append("&quot;"),
            _ => {
                out.push(c);
                assert(out@ =~= escaped_attr(raw@.take(it.index() as int)) + seq![c]);
            },
        }
    }
    assert(raw@.take(raw@.len() as int) =~= raw@);
    out
}

/// Escaping leaves no raw markup, and an attribute no raw quote.
pub proof fn escaping_leaves_no_markup(raw: Seq<char>)
    ensures
        !escaped_text(raw).contains('<'),
        !escaped_text(raw).contains('>'),
        !escaped_attr(raw).contains('<'),
        !escaped_attr(raw).contains('>'),
        !escaped_attr(raw).contains('"'),
    decreases raw.len(),
{
    if raw.len() > 0 {
        escaping_leaves_no_markup(raw.drop_last());
        reveal_strlit("&amp;");
        reveal_strlit("&lt;");
        reveal_strlit("&gt;");
        reveal_strlit("&quot;");
        let c = raw.last();
        assert(!text_entity(c).contains('<') && !text_entity(c).contains('>'));
        assert(!attr_entity(c).contains('<') && !attr_entity(c).contains('>')
            && !attr_entity(c).contains('"'));
        let text = escaped_text(raw.drop_last());
        let attr = escaped_attr(raw.drop_last());
        assert forall|d: char| (text + text_entity(c)).contains(d) implies text.contains(d)
            || text_entity(c).contains(d) by {
            let i = choose|i: int|
                0 <= i < (text + text_entity(c)).len() && (text + text_entity(c))[i] == d;
            if i < text.len() {
                assert(text[i] == d);
            } else {
                assert(text_entity(c)[i - text.len()] == d);
            }
        }
        assert forall|d: char| (attr + attr_entity(c)).contains(d) implies attr.contains(d)
            || attr_entity(c).contains(d) by {
            let i = choose|i: int|
                0 <= i < (attr + attr_entity(c)).len() && (attr + attr_entity(c))[i] == d;
            if i < attr.len() {
                assert(attr[i] == d);
            } else {
                assert(attr_entity(c)[i - attr.len()] == d);
            }
        }
    }
}

/// A text without markup characters, quotes and apostrophes included, is carried
/// verbatim.
pub proof fn plain_text_is_verbatim(raw: Seq<char>)
    requires
        !raw.contains('&'),
        !raw.contains('<'),
        !raw.contains('>'),
    ensures
        escaped_text(raw) == raw,
    decreases raw.len(),
{
    if raw.len() > 0 {
        let rest = raw.drop_last();
        assert forall|d: char| rest.contains(d) implies raw.contains(d) by {
            let i = choose|i: int| 0 <= i < rest.len() && rest[i] == d;
            assert(raw[i] == d);
        }
        assert(raw[raw.len() - 1] == raw.last());
        plain_text_is_verbatim(rest);
        assert(escaped_text(raw) =~= raw);
    } else {
        assert(escaped_text(raw) =~= raw);
    }
}

// ---------------------------------------------------------------------------
// The base query
// ---------------------------------------------------------------------------
/// A predicate on each of the event ids, joined by `or`.
pub open spec fn id_predicates(ids: Seq<u32>) -> Seq<char>
    decreases ids.len(),
{
    if ids.len() == 0 {
        Seq::empty()
    } else {
        let this = "EventID="@ + crate::text::decimal(ids.last() as nat);
        if ids.len() == 1 {
            this
        } else {
            id_predicates(ids.drop_last()) + " or "@ + this
        }
    }
}

/// The query that selects the given event ids.
pub open spec fn id_query(ids: Seq<u32>) -> Seq<char> {
    "*[System["@ + id_predicates(ids) + "]]"@
}

/// The query that a configuration gives: the operator's own, or one for the ids
/// to keep where it is short enough, or the wildcard.
pub open spec fn base_query(event_query: Option<Seq<char>>, ids: Option<Seq<u32>>) -> Seq<char> {
    match event_query {
        Some(query) => query,
        None => match ids {
            Some(ids) => if ids.len() > 0 && vstd::utf8::encode_utf8(id_query(ids)).len()
                <= XPATH_MAX_LENGTH {
                id_query(ids)
            } else {
                "*"@
            },
            None => "*"@,
        },
    }
}

/// The base query of a configuration.
pub open spec fn config_query(config: WindowsEventLogConfig) -> Seq<char> {
    base_query(
        crate::status::opt_chars(config.event_query),
        match config.only_event_ids {
            Some(ids) => Some(ids@),
            None => None,
        },
    )
}

fn exec_id_query(ids: &Vec<u32>) -> (query: String)
    requires
        ids@.len() > 0,
    ensures
        query@ == id_query(ids@),
{
    let mut query = "*[System[".to_owned();
    let ghost prefix = query@;
    let mut i: usize = 0;
    assert(query@ =~= prefix + id_predicates(ids@.take(0)));
    while i < ids.len()
        invariant
            i <= ids@.len(),
            query@ == prefix + id_predicates(ids@.take(i as int)),
        decreases ids.len() - i,
    {
        let ghost before = id_predicates(ids@.take(i as int));
        if i > 0 {
            query.append(" or ");
        }
        query.append("EventID=");
        query.append(to_decimal(ids[i] as u64).as_str());
        proof {
            let next = ids@.take(i + 1);
            assert(next.drop_last() =~= ids@.take(i as int));
            assert(next.last() == ids@[i as int]);
            assert(query@ =~= prefix + id_predicates(next));
        }
        i += 1;
    }
    query.append("]]");
    assert(ids@.take(i as int) =~= ids@);
    query
}

/// Build the base query from the configuration. A query generated from the ids
/// to keep that is too long falls back to the wildcard, and the ids are filtered
/// in process.
pub fn build_xpath_query(config: &WindowsEventLogConfig) -> (query: Result<
    String,
    WindowsEventLogError,
>)
    ensures
        query matches Ok(q) && q@ == config_query(*config),
{
    if let Some(custom_query) = &config.event_query {
        return Ok(custom_query.clone());
    }
    if let Some(ids) = &config.only_event_ids {
        if ids.len() > 0 {
            let query = exec_id_query(ids);
            if query.as_str().as_bytes().len() <= XPATH_MAX_LENGTH {
                return Ok(query);
            }
        }
    }
    Ok("*".to_owned())
}

// ---------------------------------------------------------------------------
// Subscriptions
// ---------------------------------------------------------------------------
/// What the subscriptions of one channel are built from.
#[derive(Debug, PartialEq, Eq)]
pub struct SubscriptionFactory {
    pub channel: String,
    /// The query as configured.
    pub base_query: String,
    /// Whose query that is.
    pub base_origin: QueryOrigin,
    pub read_existing_events: bool,
}

/// The contents of a factory.
#[verifier::ext_equal]
pub struct FactoryView {
    pub channel: Seq<char>,
    pub base_query: Seq<char>,
    pub base_origin: QueryOrigin,
    pub read_existing_events: bool,
}

impl View for SubscriptionFactory {
    type V = FactoryView;

    open spec fn view(&self) -> FactoryView {
        FactoryView {
            channel: self.channel@,
            base_query: self.base_query@,
            base_origin: self.base_origin,
            read_existing_events: self.read_existing_events,
        }
    }
}

/// A predicate on events from a time on.
pub open spec fn time_query(stamp: Seq<char>) -> Seq<char> {
    "*[System[TimeCreated[@SystemTime>='"@ + stamp + "']]]"@
}

/// A structured query that selects by the operator's query and suppresses what
/// came before a time.
pub open spec fn structured_query(channel: Seq<char>, select: Seq<char>, stamp: Seq<char>) -> Seq<
    char,
> {
    "<QueryList><Query Id=\"0\" Path=\""@ + escaped_attr(channel) + "\"><Select Path=\""@
        + escaped_attr(channel) + "\">"@ + escaped_text(select) + "</Select><Suppress Path=\""@
        + escaped_attr(channel) + "\">*[System[TimeCreated[@SystemTime&lt;'"@ + stamp
        + "']]]</Suppress></Query></QueryList>"@
}

/// Whether a resume is by time.
pub open spec fn resumes_by_time(rung: Rung) -> bool {
    rung is TimeAdvance
}

impl FactoryView {
    /// The query to subscribe with, and whose it is. The time floor of a resume
    /// by time rides in a predicate on a wildcard query, or in a `Suppress`
    /// clause beside the operator's query, which is carried as it is. A query
    /// that is structured already has no place for it.
    pub open spec fn query(self, resume: ResumeState) -> (Seq<char>, QueryOrigin) {
        let floor = resume.floor_parts();
        if !resumes_by_time(resume.rung) || floor is None {
            (self.base_query, self.base_origin)
        } else {
            let stamp = crate::time::query_stamp((floor->0).0, (floor->0).1);
            if self.base_query == "*"@ {
                (time_query(stamp), QueryOrigin::Generated)
            } else if crate::text::opens_with(self.base_query, '<') {
                (self.base_query, self.base_origin)
            } else {
                (
                    structured_query(self.channel, self.base_query, stamp),
                    QueryOrigin::Generated,
                )
            }
        }
    }

    /// Whether a subscription resumes from the bookmark.
    pub open spec fn uses_bookmark(positioned: bool, handle: i64, resume: ResumeState) -> bool {
        positioned && resume.rung != Rung::FutureOnly && !resumes_by_time(resume.rung) && handle
            != 0
    }

    /// The flags to subscribe with. A resume from the bookmark is always strict.
    pub open spec fn flags(self, positioned: bool, handle: i64, resume: ResumeState) -> u32 {
        if FactoryView::uses_bookmark(positioned, handle, resume) {
            STRICT_BOOKMARK_RESUME
        } else if resume.rung != Rung::FutureOnly && (resume.last_event_time is Some
            || self.read_existing_events) {
            EVT_SUBSCRIBE_START_AT_OLDEST_RECORD
        } else {
            EVT_SUBSCRIBE_TO_FUTURE_EVENTS
        }
    }

    /// Whether a rejected query is one composed here, so that the operator's
    /// query alone deserves a second attempt.
    pub open spec fn falls_back(query: Seq<char>, origin: QueryOrigin) -> bool {
        origin == QueryOrigin::Generated && crate::text::opens_with(query, '<')
    }
}

/// One attempt to subscribe.
#[derive(Debug, PartialEq, Eq)]
pub struct SubscribeAttempt {
    pub query: String,
    /// Whose query it is.
    pub origin: QueryOrigin,
    /// Whether a rejection is followed by an attempt with the base query.
    pub falls_back: bool,
    /// Whether the bookmark is passed.
    pub use_bookmark: bool,
    pub flags: u32,
}

/// The contents of an attempt.
#[verifier::ext_equal]
pub struct AttemptView {
    pub query: Seq<char>,
    pub origin: QueryOrigin,
    pub falls_back: bool,
    pub use_bookmark: bool,
    pub flags: u32,
}

impl View for SubscribeAttempt {
    type V = AttemptView;

    open spec fn view(&self) -> AttemptView {
        AttemptView {
            query: self.query@,
            origin: self.origin,
            falls_back: self.falls_back,
            use_bookmark: self.use_bookmark,
            flags: self.flags,
        }
    }
}

impl FactoryView {
    /// The first attempt of a build.
    pub open spec fn first_attempt(
        self,
        positioned: bool,
        handle: i64,
        resume: ResumeState,
    ) -> AttemptView {
        let query = self.query(resume);
        AttemptView {
            query: query.0,
            origin: query.1,
            falls_back: FactoryView::falls_back(query.0, query.1),
            use_bookmark: FactoryView::uses_bookmark(positioned, handle, resume),
            flags: self.flags(positioned, handle, resume),
        }
    }

    /// The attempt that follows a rejected composed query: the operator's query
    /// alone, from the same starting point.
    pub open spec fn base_attempt(self, use_bookmark: bool, flags: u32) -> AttemptView {
        AttemptView {
            query: self.base_query,
            origin: self.base_origin,
            falls_back: false,
            use_bookmark,
            flags,
        }
    }
}

impl SubscriptionFactory {
    /// The query to subscribe with on the current rung, and its origin.
    pub fn query_for(&self, resume: &ResumeState) -> (query: (String, QueryOrigin))
        ensures
            (query.0@, query.1) == self@.query(*resume),
    {
        let floor = match resume.time_floor() {
            Some(floor) => floor,
            None => {
                return (self.base_query.clone(), self.base_origin);
            },
        };
        match resume.rung {
            Rung::TimeAdvance(_) => {},
            _ => {
                return (self.base_query.clone(), self.base_origin);
            },
        }
        let stamp = floor.to_query_stamp();
        if text_eq(self.base_query.as_str(), "*") {
            let mut query = "*[System[TimeCreated[@SystemTime>='".to_owned();
            query.append(stamp.as_str());
            query.append("']]]");
            return (query, QueryOrigin::Generated);
        }
        if starts_with_after_trim(self.base_query.as_str(), '<') {
            return (self.base_query.clone(), self.base_origin);
        }
        let channel = escape_xml_attr(self.channel.as_str());
        let mut query = "<QueryList><Query Id=\"0\" Path=\"".to_owned();
        query.append(channel.as_str());
        query.append("\"><Select Path=\"");
        query.append(channel.as_str());
        query.append("\">");
        query.append(escape_xml_text(self.base_query.as_str()).as_str());
        query.append("</Select><Suppress Path=\"");
        query.append(channel.as_str());
        query.append("\">*[System[TimeCreated[@SystemTime&lt;'");
        query.append(stamp.as_str());
        query.append("']]]</Suppress></Query></QueryList>");
        (query, QueryOrigin::Generated)
    }

    /// Plan the first attempt to subscribe.
    pub fn build(
        &self,
        bookmark_positioned: bool,
        bookmark_handle: i64,
        resume: &ResumeState,
    ) -> (attempt: SubscribeAttempt)
        ensures
            attempt@ == self@.first_attempt(bookmark_positioned, bookmark_handle, *resume),
    {
        let (query, origin) = self.query_for(resume);
        let by_bookmark = match resume.rung {
            Rung::FutureOnly | Rung::TimeAdvance(_) => false,
            _ => true,
        };
        let use_bookmark = bookmark_positioned && by_bookmark && bookmark_handle != 0;
        let flags: u32 = if use_bookmark {
            STRICT_BOOKMARK_RESUME
        } else if resume.rung == Rung::FutureOnly {
            EVT_SUBSCRIBE_TO_FUTURE_EVENTS
        } else if resume.last_event_time.is_some() || self.read_existing_events {
            EVT_SUBSCRIBE_START_AT_OLDEST_RECORD
        } else {
            EVT_SUBSCRIBE_TO_FUTURE_EVENTS
        };
        let generated = match origin {
            QueryOrigin::Generated => true,
            QueryOrigin::Operator => false,
        };
        let falls_back = generated && starts_with_after_trim(query.as_str(), '<');
        SubscribeAttempt { query, origin, falls_back, use_bookmark, flags }
    }

    /// Plan the attempt after a composed query was rejected. A rejection of a
    /// query composed here must not be charged to the ladder: every rung would
    /// compose the same shape and fail the same way.
    pub fn build_fallback(&self, use_bookmark: bool, flags: u32) -> (attempt: SubscribeAttempt)
        ensures
            attempt@ == self@.base_attempt(use_bookmark, flags),
    {
        SubscribeAttempt {
            query: self.base_query.clone(),
            origin: self.base_origin,
            falls_back: false,
            use_bookmark,
            flags,
        }
    }
}

/// A resume from the bookmark is strict, and nothing else passes the bookmark.
pub proof fn bookmark_resumes_are_strict(
    factory: FactoryView,
    positioned: bool,
    handle: i64,
    resume: ResumeState,
)
    ensures
        ({
            let attempt = factory.first_attempt(positioned, handle, resume);
            &&& attempt.use_bookmark <==> attempt.flags == STRICT_BOOKMARK_RESUME
            &&& attempt.use_bookmark ==> positioned && handle != 0
            &&& STRICT_BOOKMARK_RESUME == EVT_SUBSCRIBE_START_AFTER_BOOKMARK
                | EVT_SUBSCRIBE_STRICT
        }),
{
    assert(65539u32 == 3u32 | 65536u32) by (bit_vector);
}

/// The terminal rung reads future events only, and a resume by time starts at
/// the oldest record.
pub proof fn start_points_follow_the_rung(
    factory: FactoryView,
    positioned: bool,
    handle: i64,
    resume: ResumeState,
)
    ensures
        resume.rung == Rung::FutureOnly ==> factory.flags(positioned, handle, resume)
            == EVT_SUBSCRIBE_TO_FUTURE_EVENTS,
        resumes_by_time(resume.rung) && resume.last_event_time is Some ==> factory.flags(
            positioned,
            handle,
            resume,
        ) == EVT_SUBSCRIBE_START_AT_OLDEST_RECORD,
        !positioned && !resumes_by_time(resume.rung) && resume.rung != Rung::FutureOnly
            && resume.last_event_time is None ==> factory.flags(positioned, handle, resume)
            == if factory.read_existing_events {
            EVT_SUBSCRIBE_START_AT_OLDEST_RECORD
        } else {
            EVT_SUBSCRIBE_TO_FUTURE_EVENTS
        },
{
}

/// Off the time rungs a subscription uses the configured query as it is; on them
/// every query generated here is marked as generated.
pub proof fn only_time_rungs_compose_queries(factory: FactoryView, resume: ResumeState)
    ensures
        !resumes_by_time(resume.rung) ==> factory.query(resume) == (
            factory.base_query,
            factory.base_origin,
        ),
        factory.query(resume).0 != factory.base_query ==> factory.query(resume).1
            == QueryOrigin::Generated,
{
}

} // verus!
