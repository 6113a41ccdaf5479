//! The `<RenderingInfo>` element of an event.
//!
//! An event that was forwarded as rendered text carries its display fields in
//! its own XML, and its publisher is usually not installed here. Asking the
//! system to format such an event can bring the process down, so the presence
//! of the element decides: the fields are read from the XML, and the publisher
//! is left alone.

use quick_xml::events::Event;
use quick_xml::Reader;
use vstd::prelude::*;

use crate::text::{to_chars, trim_range};

verus! {

/// The most events of one document that display fields are collected from.
pub const MAX_ITERATIONS: usize = 4000;

/// The most bytes of text that are collected for one field.
pub const MAX_TEXT_BYTES: usize = 65_536;

/// One event of an XML document. Elements are given by their local name.
#[derive(Debug, PartialEq, Eq)]
pub enum XmlToken {
    Start(Vec<u8>),
    Empty(Vec<u8>),
    End(Vec<u8>),
    /// Text with its entities as they stand.
    Text(Vec<u8>),
    CData(Vec<u8>),
    /// A comment, declaration, instruction or document type.
    Other,
    /// The document has ended.
    Eof,
    /// It cannot be read on.
    Error,
}

/// The contents of an event of an XML document.
#[verifier::ext_equal]
pub enum TokenView {
    Start(Seq<u8>),
    Empty(Seq<u8>),
    End(Seq<u8>),
    Text(Seq<u8>),
    CData(Seq<u8>),
    Other,
    Eof,
    Error,
}

impl View for XmlToken {
    type V = TokenView;

    open spec fn view(&self) -> TokenView {
        match *self {
            XmlToken::Start(name) => TokenView::Start(name@),
            XmlToken::Empty(name) => TokenView::Empty(name@),
            XmlToken::End(name) => TokenView::End(name@),
            XmlToken::Text(raw) => TokenView::Text(raw@),
            XmlToken::CData(raw) => TokenView::CData(raw@),
            XmlToken::Other => TokenView::Other,
            XmlToken::Eof => TokenView::Eof,
            XmlToken::Error => TokenView::Error,
        }
    }
}

/// The contents of each event in a list.
pub open spec fn token_views(tokens: Seq<XmlToken>) -> Seq<TokenView> {
    tokens.map_values(|t: XmlToken| t@)
}

/// Whether an event is the last of its document.
pub open spec fn is_last(token: TokenView) -> bool {
    token is Eof || token is Error
}

/// `quick_xml::Reader`, which reads an XML document event by event.
#[verifier::external_type_specification]
#[verifier::external_body]
#[verifier::reject_recursive_types(R)]
pub struct ExReader<R>(Reader<R>);

/// The events of a document, up to the one that ends it, with white space around
/// texts removed where `trim` says so.
pub uninterp spec fn document_events(xml: Seq<char>, trim: bool) -> Seq<TokenView>;

/// The events that a reader still holds.
pub uninterp spec fn events_left(reader: Reader<&[u8]>) -> Seq<TokenView>;

/// A text with its entities replaced, or nothing where one of them is malformed
/// or unknown.
pub uninterp spec fn unescaped(raw: Seq<char>) -> Option<Seq<char>>;

/// `Reader::from_str` opens a document, and `Reader::trim_text` sets whether the
/// white space around its texts is removed. Every document has an event that
/// ends it.
#[verifier::external_body]
fn open_document(xml: &str, trim: bool) -> (reader: Reader<&[u8]>)
    ensures
        events_left(reader) == document_events(xml@, trim),
        events_left(reader).len() > 0,
{
    let mut reader = Reader::from_str(xml);
    reader.trim_text(trim);
    reader
}

/// `Reader::read_event_into` reads the next event. The event that ends the
/// document is the last.
#[verifier::external_body]
fn next_event(reader: &mut Reader<&[u8]>) -> (token: XmlToken)
    requires
        events_left(*old(reader)).len() > 0,
    ensures
        token@ == events_left(*old(reader))[0],
        events_left(*final(reader)) == events_left(*old(reader)).skip(1),
        is_last(token@) == (events_left(*final(reader)).len() == 0),
{
    match reader.read_event_into(&mut Vec::new()) {
        Ok(Event::Start(e)) => XmlToken::Start(e.local_name().as_ref().to_vec()),
        Ok(Event::Empty(e)) => XmlToken::Empty(e.local_name().as_ref().to_vec()),
        Ok(Event::End(e)) => XmlToken::End(e.local_name().as_ref().to_vec()),
        Ok(Event::Text(e)) => XmlToken::Text(e.to_vec()),
        Ok(Event::CData(e)) => XmlToken::CData(e.to_vec()),
        Ok(Event::Eof) => XmlToken::Eof,
        Ok(_) => XmlToken::Other,
        Err(_) => XmlToken::Error,
    }
}

/// `quick_xml::escape::unescape` replaces the entities of a text.
#[verifier::external_body]
fn unescape(raw: &str) -> (text: Option<String>)
    ensures
        crate::status::opt_chars(text) == unescaped(raw@),
{
    quick_xml::escape::unescape(raw).ok().map(|text| text.into_owned())
}

/// `std::str::from_utf8` decodes bytes that are UTF-8.
#[verifier::external_body]
fn decode_utf8(bytes: &Vec<u8>) -> (text: Option<String>)
    ensures
        crate::status::opt_chars(text) == decoded(bytes@),
{
    std::str::from_utf8(bytes).ok().map(|text| text.to_owned())
}

/// The text that bytes encode, where they are UTF-8.
pub open spec fn decoded(bytes: Seq<u8>) -> Option<Seq<char>> {
    if vstd::utf8::valid_utf8(bytes) {
        Some(vstd::utf8::decode_utf8(bytes))
    } else {
        None
    }
}

/// The text of a text event.
pub open spec fn event_text(raw: Seq<u8>) -> Option<Seq<char>> {
    match decoded(raw) {
        Some(text) => unescaped(text),
        None => None,
    }
}

/// The display fields of an event.
#[derive(Debug, PartialEq, Eq)]
pub struct RenderingInfoFields {
    /// The rendered message.
    pub message: Option<String>,
    /// The name of the task.
    pub task_name: Option<String>,
    /// The name of the opcode.
    pub opcode_name: Option<String>,
    /// The names of the keywords.
    pub keyword_names: Vec<String>,
}

/// The contents of the display fields.
#[verifier::ext_equal]
pub struct FieldsView {
    pub message: Option<Seq<char>>,
    pub task_name: Option<Seq<char>>,
    pub opcode_name: Option<Seq<char>>,
    pub keyword_names: Seq<Seq<char>>,
}

impl View for RenderingInfoFields {
    type V = FieldsView;

    open spec fn view(&self) -> FieldsView {
        FieldsView {
            message: crate::status::opt_chars(self.message),
            task_name: crate::status::opt_chars(self.task_name),
            opcode_name: crate::status::opt_chars(self.opcode_name),
            keyword_names: crate::text::texts(self.keyword_names@),
        }
    }
}

impl FieldsView {
    /// No fields.
    pub open spec fn none() -> FieldsView {
        FieldsView {
            message: None,
            task_name: None,
            opcode_name: None,
            keyword_names: Seq::empty(),
        }
    }

    /// A field given its text, unless that is blank.
    pub open spec fn with(self, target: Target, text: Seq<char>) -> FieldsView {
        let value = crate::text::trimmed(text);
        if value.len() == 0 {
            self
        } else {
            match target {
                Target::Message => FieldsView { message: Some(value), ..self },
                Target::Task => FieldsView { task_name: Some(value), ..self },
                Target::Opcode => FieldsView { opcode_name: Some(value), ..self },
                Target::Keyword => FieldsView {
                    keyword_names: self.keyword_names.push(value),
                    ..self
                },
                Target::Nothing => self,
            }
        }
    }
}

impl Default for RenderingInfoFields {
    fn default() -> (fields: RenderingInfoFields)
        ensures
            fields@ == FieldsView::none(),
    {
        let fields = RenderingInfoFields {
            message: None,
            task_name: None,
            opcode_name: None,
            keyword_names: Vec::new(),
        };
        assert(fields@ =~= FieldsView::none());
        fields
    }
}

/// The field whose text is being collected.
#[derive(Debug, Clone, Copy, PartialEq, Eq, Structural)]
pub enum Target {
    Nothing,
    Message,
    Task,
    Opcode,
    Keyword,
}

/// Whether a name is the given text.
pub open spec fn is_named(name: Seq<u8>, text: Seq<char>) -> bool {
    name == vstd::utf8::encode_utf8(text)
}

/// The field that an element of `<RenderingInfo>` holds. The keywords' container
/// holds none itself.
pub open spec fn target_of(name: Seq<u8>) -> Target {
    if is_named(name, "Message"@) {
        Target::Message
    } else if is_named(name, "Task"@) {
        Target::Task
    } else if is_named(name, "Opcode"@) {
        Target::Opcode
    } else if is_named(name, "Keyword"@) {
        Target::Keyword
    } else {
        Target::Nothing
    }
}

fn bytes_are(name: &Vec<u8>, text: &str) -> (same: bool)
    ensures
        same == is_named(name@, text@),
{
    let bytes = text.as_bytes();
    if name.len() != bytes.len() {
        return false;
    }
    let mut i: usize = 0;
    while i < name.len()
        invariant
            i <= name@.len(),
            name@.len() == bytes@.len(),
            bytes@ == vstd::utf8::encode_utf8(text@),
            forall|j: int| 0 <= j < i ==> name@[j] == bytes@[j],
        decreases name.len() - i,
    {
        if name[i] != bytes[i] {
            return false;
        }
        i += 1;
    }
    assert(name@ =~= bytes@);
    true
}

fn target_for(name: &Vec<u8>) -> (target: Target)
    ensures
        target == target_of(name@),
{
    if bytes_are(name, "Message") {
        Target::Message
    } else if bytes_are(name, "Task") {
        Target::Task
    } else if bytes_are(name, "Opcode") {
        Target::Opcode
    } else if bytes_are(name, "Keyword") {
        Target::Keyword
    } else {
        Target::Nothing
    }
}

/// Give a field its text, unless that is blank.
pub fn commit(target: Target, text: &str, fields: &mut RenderingInfoFields)
    ensures
        final(fields)@ == old(fields)@.with(target, text@),
{
    let chars = to_chars(text);
    let end: usize = chars.len();
    let value = trim_range(&chars, 0, end);
    assert(chars@.subrange(0, end as int) =~= text@);
    if value.as_str().is_empty() {
        return;
    }
    let ghost start = fields@;
    let ghost shown = value@;
    let ghost names = fields.keyword_names@;
    match target {
        Target::Message => {
            fields.message = Some(value);
        },
        Target::Task => {
            fields.task_name = Some(value);
        },
        Target::Opcode => {
            fields.opcode_name = Some(value);
        },
        Target::Keyword => {
            fields.keyword_names.push(value);
            assert(crate::text::texts(fields.keyword_names@) =~= crate::text::texts(names).push(
                shown,
            ));
        },
        Target::Nothing => {},
    }
    assert(fields@ =~= start.with(target, text@));
}

/// A document that is being read.
#[derive(Debug)]
pub struct Parse {
    /// The element was seen.
    pub present: bool,
    /// The events are inside it.
    pub inside: bool,
    pub fields: RenderingInfoFields,
    pub target: Target,
    /// The text collected for the target.
    pub text: String,
}

/// The contents of a document that is being read.
#[verifier::ext_equal]
pub struct ParseView {
    pub present: bool,
    pub inside: bool,
    pub fields: FieldsView,
    pub target: Target,
    pub text: Seq<char>,
}

impl View for Parse {
    type V = ParseView;

    open spec fn view(&self) -> ParseView {
        ParseView {
            present: self.present,
            inside: self.inside,
            fields: self.fields@,
            target: self.target,
            text: self.text@,
        }
    }
}

impl ParseView {
    /// Nothing read yet.
    pub open spec fn start() -> ParseView {
        ParseView {
            present: false,
            inside: false,
            fields: FieldsView::none(),
            target: Target::Nothing,
            text: Seq::empty(),
        }
    }

    /// Whether text is being collected.
    pub open spec fn collects(self) -> bool {
        self.inside && self.target != Target::Nothing
    }

    /// More text collected, as far as there is room for all of it.
    pub open spec fn collected(self, text: Option<Seq<char>>) -> ParseView {
        match text {
            Some(t) => if self.collects() && vstd::utf8::encode_utf8(self.text).len()
                + vstd::utf8::encode_utf8(t).len() <= MAX_TEXT_BYTES {
                ParseView { text: self.text + t, ..self }
            } else {
                self
            },
            None => self,
        }
    }

    /// The collected text given to its field.
    pub open spec fn committed(self) -> ParseView {
        ParseView { fields: self.fields.with(self.target, self.text), ..self }
    }

    /// After one event.
    pub open spec fn after(self, token: TokenView) -> ParseView {
        match token {
            TokenView::Start(name) => if is_named(name, "RenderingInfo"@) {
                ParseView { present: true, inside: true, ..self }
            } else if self.inside {
                ParseView { text: Seq::empty(), target: target_of(name), ..self }
            } else {
                self
            },
            TokenView::Empty(name) => if is_named(name, "RenderingInfo"@) {
                ParseView { present: true, ..self }
            } else {
                self
            },
            TokenView::Text(raw) => self.collected(event_text(raw)),
            TokenView::CData(raw) => self.collected(decoded(raw)),
            TokenView::End(name) => if is_named(name, "RenderingInfo"@) {
                self.committed()
            } else if self.collects() {
                ParseView { target: Target::Nothing, text: Seq::empty(), ..self.committed() }
            } else {
                self
            },
            _ => self,
        }
    }

    /// After one event that is past the limit of collecting: only the element
    /// itself is still taken notice of.
    pub open spec fn after_late(self, token: TokenView) -> ParseView {
        ParseView { present: self.present || opens_element(token), ..self }
    }

    /// After the events of a document, up to the end of the element or of the
    /// document. Fields are collected from the first `budget` of them.
    pub open spec fn after_all(self, tokens: Seq<TokenView>, budget: nat) -> ParseView
        decreases tokens.len(),
    {
        if tokens.len() == 0 {
            self
        } else {
            let next = if budget > 0 {
                self.after(tokens[0])
            } else {
                self.after_late(tokens[0])
            };
            if ends_parse(tokens[0]) {
                next
            } else {
                next.after_all(tokens.skip(1), less_one(budget))
            }
        }
    }

    /// What was found: the fields where the element was seen, whatever it holds.
    pub open spec fn found(self) -> Option<FieldsView> {
        if self.present {
            Some(self.fields)
        } else {
            None
        }
    }
}

/// One less, down to none.
pub open spec fn less_one(n: nat) -> nat {
    if n > 0 {
        (n - 1) as nat
    } else {
        0
    }
}

/// Whether an event opens a `<RenderingInfo>` element, or is an empty one.
pub open spec fn opens_element(token: TokenView) -> bool {
    match token {
        TokenView::Start(name) => is_named(name, "RenderingInfo"@),
        TokenView::Empty(name) => is_named(name, "RenderingInfo"@),
        _ => false,
    }
}

/// The number of events that are read: up to the one that ends the parse.
pub open spec fn events_read(tokens: Seq<TokenView>) -> nat
    decreases tokens.len(),
{
    if tokens.len() == 0 {
        0
    } else if ends_parse(tokens[0]) {
        1
    } else {
        1 + events_read(tokens.skip(1))
    }
}

/// Whether a `<RenderingInfo>` element is among the events that are read.
pub open spec fn has_element(tokens: Seq<TokenView>) -> bool {
    exists|i: int| 0 <= i < events_read(tokens) && opens_element(#[trigger] tokens[i])
}

/// Whether nothing is read after an event.
pub open spec fn ends_parse(token: TokenView) -> bool {
    is_last(token) || (token matches TokenView::End(name) && is_named(name, "RenderingInfo"@))
}

/// The display fields that the events of a document hold, some where it has the
/// element at all.
pub open spec fn rendering_info(tokens: Seq<TokenView>) -> Option<FieldsView> {
    ParseView::start().after_all(tokens, MAX_ITERATIONS as nat).found()
}

impl Parse {
    /// Nothing read yet.
    pub fn new() -> (parse: Parse)
        ensures
            parse@ == ParseView::start(),
    {
        let parse = Parse {
            present: false,
            inside: false,
            fields: RenderingInfoFields::default(),
            target: Target::Nothing,
            text: String::new(),
        };
        assert(parse@ =~= ParseView::start());
        parse
    }

    fn collect(&mut self, text: Option<String>)
        ensures
            final(self)@ == old(self)@.collected(crate::status::opt_chars(text)),
    {
        let ghost start = self@;
        let collects = self.inside && match self.target {
            Target::Nothing => false,
            _ => true,
        };
        if !collects {
            return;
        }
        if let Some(more) = text {
            let held: usize = self.text.as_str().as_bytes().len();
            let added: usize = more.as_str().as_bytes().len();
            if added <= MAX_TEXT_BYTES && held <= MAX_TEXT_BYTES - added {
                self.text.append(more.as_str());
                assert(self@ =~= start.collected(Some(more@)));
            }
        }
    }

    /// Take one event. Tells whether to read on.
    pub fn take(&mut self, token: &XmlToken) -> (go_on: bool)
        ensures
            final(self)@ == old(self)@.after(token@),
            go_on == !ends_parse(token@),
    {
        let ghost start = self@;
        match token {
            XmlToken::Start(name) => {
                if bytes_are(name, "RenderingInfo") {
                    self.present = true;
                    self.inside = true;
                } else if self.inside {
                    self.text = String::new();
                    self.target = target_for(name);
                }
                assert(self@ =~= start.after(token@));
                true
            },
            XmlToken::Empty(name) => {
                if bytes_are(name, "RenderingInfo") {
                    self.present = true;
                }
                true
            },
            XmlToken::Text(raw) => {
                let text: Option<String> = match decode_utf8(raw) {
                    Some(decoded) => unescape(decoded.as_str()),
                    None => None,
                };
                self.collect(text);
                true
            },
            XmlToken::CData(raw) => {
                self.collect(decode_utf8(raw));
                true
            },
            XmlToken::End(name) => {
                if bytes_are(name, "RenderingInfo") {
                    commit(self.target, self.text.as_str(), &mut self.fields);
                    return false;
                }
                let collects = self.inside && match self.target {
                    Target::Nothing => false,
                    _ => true,
                };
                if collects {
                    commit(self.target, self.text.as_str(), &mut self.fields);
                    self.target = Target::Nothing;
                    self.text = String::new();
                    assert(self@ =~= start.after(token@));
                }
                true
            },
            XmlToken::Other => true,
            XmlToken::Eof => false,
            XmlToken::Error => false,
        }
    }

    /// Take one event that is past the limit of collecting. Tells whether to read
    /// on.
    pub fn take_late(&mut self, token: &XmlToken) -> (go_on: bool)
        ensures
            final(self)@ == old(self)@.after_late(token@),
            go_on == !ends_parse(token@),
    {
        match token {
            XmlToken::Start(name) | XmlToken::Empty(name) => {
                if bytes_are(name, "RenderingInfo") {
                    self.present = true;
                }
                true
            },
            XmlToken::End(name) => !bytes_are(name, "RenderingInfo"),
            XmlToken::Eof | XmlToken::Error => false,
            _ => true,
        }
    }

    /// What was found.
    pub fn finish(self) -> (fields: Option<RenderingInfoFields>)
        ensures
            match fields {
                Some(f) => self@.found() == Some(f@),
                None => self@.found() is None,
            },
    {
        if self.present {
            Some(self.fields)
        } else {
            None
        }
    }
}

/// The display fields that the events of a document hold: some exactly where a
/// `<RenderingInfo>` element is among those up to the end of the parse.
pub fn parse_tokens(tokens: &Vec<XmlToken>) -> (fields: Option<RenderingInfoFields>)
    ensures
        match fields {
            Some(f) => rendering_info(token_views(tokens@)) == Some(f@),
            None => rendering_info(token_views(tokens@)) is None,
        },
        fields is Some <==> has_element(token_views(tokens@)),
{
    let mut parse = Parse::new();
    let mut i: usize = 0;
    let mut go_on = true;
    let ghost all = token_views(tokens@);
    let ghost end = ParseView::start().after_all(all, MAX_ITERATIONS as nat);
    assert(all.skip(0) =~= all);
    while go_on && i < tokens.len()
        invariant
            i <= tokens@.len(),
            all == token_views(tokens@),
            go_on ==> parse@.after_all(
                all.skip(i as int),
                if i < MAX_ITERATIONS {
                    (MAX_ITERATIONS - i) as nat
                } else {
                    0
                },
            ) == end,
            !go_on ==> parse@ == end,
        decreases tokens.len() - i,
    {
        assert(all.skip(i as int)[0] == tokens@[i as int]@);
        assert(all.skip(i as int).skip(1) =~= all.skip(i + 1));
        go_on = if i < MAX_ITERATIONS {
            parse.take(&tokens[i])
        } else {
            parse.take_late(&tokens[i])
        };
        i += 1;
    }
    proof {
        presence_decides(all);
    }
    parse.finish()
}

/// The display fields of an event, some exactly where its XML holds a
/// `<RenderingInfo>` element, however late it stands and whatever it holds.
pub fn parse(xml: &str) -> (fields: Option<RenderingInfoFields>)
    ensures
        match fields {
            Some(f) => rendering_info(document_events(xml@, true)) == Some(f@),
            None => rendering_info(document_events(xml@, true)) is None,
        },
        fields is Some <==> has_element(document_events(xml@, true)),
{
    let ghost all = document_events(xml@, true);
    let ghost end = ParseView::start().after_all(all, MAX_ITERATIONS as nat);
    let mut reader = open_document(xml, true);
    let mut parse = Parse::new();
    let mut budget: usize = MAX_ITERATIONS;
    let mut go_on = true;
    while go_on
        invariant
            go_on ==> events_left(reader).len() > 0,
            go_on ==> parse@.after_all(events_left(reader), budget as nat) == end,
            !go_on ==> parse@ == end,
        decreases events_left(reader).len(),
    {
        let token = next_event(&mut reader);
        if budget > 0 {
            go_on = parse.take(&token);
            budget -= 1;
        } else {
            go_on = parse.take_late(&token);
        }
    }
    proof {
        presence_decides(all);
    }
    parse.finish()
}

// ---------------------------------------------------------------------------
// Laws
// ---------------------------------------------------------------------------
/// Fields are found exactly where a `<RenderingInfo>` element is among the events
/// up to the end of the parse: its presence decides, not what it holds or how late
/// it comes.
pub proof fn presence_decides(tokens: Seq<TokenView>)
    ensures
        rendering_info(tokens) is Some <==> has_element(tokens),
{
    lemma_presence(ParseView::start(), tokens, MAX_ITERATIONS as nat);
}

proof fn lemma_presence(view: ParseView, tokens: Seq<TokenView>, budget: nat)
    ensures
        events_read(tokens) <= tokens.len(),
        view.after_all(tokens, budget).present <==> view.present || has_element(tokens),
    decreases tokens.len(),
{
    if tokens.len() > 0 {
        let next = if budget > 0 {
            view.after(tokens[0])
        } else {
            view.after_late(tokens[0])
        };
        let rest = tokens.skip(1);
        assert(next.present <==> view.present || opens_element(tokens[0]));
        if ends_parse(tokens[0]) {
            assert(has_element(tokens) <==> opens_element(tokens[0]));
        } else {
            lemma_presence(next, rest, less_one(budget));
            if has_element(rest) {
                let i = choose|i: int|
                    0 <= i < events_read(rest) && opens_element(#[trigger] rest[i]);
                assert(opens_element(tokens[i + 1]));
            }
            if has_element(tokens) {
                let i = choose|i: int|
                    0 <= i < events_read(tokens) && opens_element(#[trigger] tokens[i]);
                if i > 0 {
                    assert(rest[i - 1] == tokens[i]);
                }
            }
        }
    }
}

/// Whether events are those of a document that can be read to its end: only the
/// last one says that there is no more, and an end tag comes after its start.
pub open spec fn is_document(tokens: Seq<TokenView>) -> bool {
    &&& forall|i: int| 0 <= i < tokens.len() - 1 ==> !is_last(#[trigger] tokens[i])
    &&& forall|i: int|
        0 <= i < tokens.len() && closes_element(#[trigger] tokens[i]) ==> opened_before(tokens, i)
}

/// Whether an event closes a `<RenderingInfo>` element.
pub open spec fn closes_element(token: TokenView) -> bool {
    token matches TokenView::End(name) && is_named(name, "RenderingInfo"@)
}

/// Whether a `<RenderingInfo>` element was opened before an event.
pub open spec fn opened_before(tokens: Seq<TokenView>, at: int) -> bool {
    exists|i: int| 0 <= i < at && opens_element(#[trigger] tokens[i])
}

/// Fields are found exactly where a document has a `<RenderingInfo>` element
/// anywhere.
pub proof fn elements_are_found_anywhere(tokens: Seq<TokenView>)
    requires
        is_document(tokens),
    ensures
        rendering_info(tokens) is Some <==> exists|i: int|
            0 <= i < tokens.len() && opens_element(#[trigger] tokens[i]),
{
    presence_decides(tokens);
    lemma_presence(ParseView::start(), tokens, 0);
    lemma_read_to_the_end(tokens);
    let read = events_read(tokens) as int;
    if exists|i: int| 0 <= i < tokens.len() && opens_element(#[trigger] tokens[i]) {
        let i = choose|i: int| 0 <= i < tokens.len() && opens_element(#[trigger] tokens[i]);
        if i >= read {
            assert(read > 0 && ends_parse(tokens[read - 1]));
            assert(!is_last(tokens[read - 1]));
            assert(closes_element(tokens[read - 1]));
            assert(opened_before(tokens, read - 1));
            let j = choose|j: int| 0 <= j < read - 1 && opens_element(#[trigger] tokens[j]);
            assert(opens_element(tokens[j]));
        }
    }
}

/// Reading stops at an event that ends the parse, or at the end of the events.
proof fn lemma_read_to_the_end(tokens: Seq<TokenView>)
    ensures
        events_read(tokens) < tokens.len() ==> events_read(tokens) > 0 && ends_parse(
            tokens[events_read(tokens) - 1],
        ),
    decreases tokens.len(),
{
    if tokens.len() > 0 && !ends_parse(tokens[0]) {
        let rest = tokens.skip(1);
        lemma_read_to_the_end(rest);
        if events_read(tokens) < tokens.len() {
            assert(rest[events_read(rest) - 1] == tokens[events_read(tokens) - 1]);
        }
    }
}

} // verus!
