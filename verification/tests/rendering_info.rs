//! The display fields of forwarded events.

use windows_event_log::rendering_info::{
    commit, parse, parse_tokens, RenderingInfoFields, Target, XmlToken, MAX_ITERATIONS,
};

/// A forwarded event as a collector delivers it in rendered-text mode.
const FORWARDED_FIXTURE: &str = r#"<Event xmlns="http://schemas.microsoft.com/win/2004/08/events/event">
  <System>
    <Provider Name="Service Control Manager" Guid="{555908d1-a6d7-4695-8e1e-26931d2012f4}"/>
    <EventID Qualifiers="16384">7036</EventID>
    <Level>4</Level><Task>0</Task><Opcode>0</Opcode>
    <Keywords>0x8080000000000000</Keywords>
    <Channel>System</Channel>
    <Computer>origin.example</Computer>
  </System>
  <EventData><Data Name="param1">Windows Firewall</Data></EventData>
  <RenderingInfo Culture="en-US">
    <Message>The Windows Firewall service entered the running state.</Message>
    <Level>Information</Level>
    <Task>Service state change</Task>
    <Opcode>Info</Opcode>
    <Channel>System</Channel>
    <Provider>Microsoft-Windows-Service Control Manager</Provider>
    <Keywords><Keyword>Classic</Keyword></Keywords>
  </RenderingInfo>
</Event>"#;

/// The same event as read locally.
const LOCAL_FIXTURE: &str = r#"<Event xmlns="http://schemas.microsoft.com/win/2004/08/events/event">
  <System>
    <Provider Name="Service Control Manager"/>
    <EventID Qualifiers="16384">7036</EventID>
    <Level>4</Level><Task>0</Task><Opcode>0</Opcode>
    <Channel>System</Channel>
  </System>
  <EventData><Data Name="param1">Windows Firewall</Data></EventData>
</Event>"#;

#[test]
fn parses_forwarded_rendering_info() {
    let fields = parse(FORWARDED_FIXTURE).expect("RenderingInfo must be detected");
    assert_eq!(
        fields.message.as_deref(),
        Some("The Windows Firewall service entered the running state.")
    );
    assert_eq!(fields.task_name.as_deref(), Some("Service state change"));
    assert_eq!(fields.opcode_name.as_deref(), Some("Info"));
    assert_eq!(fields.keyword_names, vec!["Classic".to_string()]);
}

#[test]
fn local_event_has_no_rendering_info() {
    assert!(
        parse(LOCAL_FIXTURE).is_none(),
        "locally-read events must fall through to the publisher path"
    );
}

#[test]
fn empty_rendering_info_still_counts_as_present() {
    let xml =
        r#"<Event><System><EventID>1</EventID></System><RenderingInfo Culture="en-US"/></Event>"#;
    assert_eq!(parse(xml), Some(RenderingInfoFields::default()));
}

#[test]
fn malformed_xml_does_not_panic() {
    assert!(parse("<Event><System>").is_none());
    assert!(parse("").is_none());
}

/// Entities are replaced, CDATA is taken as it is, and a namespace prefix does
/// not hide an element.
#[test]
fn texts_are_unescaped_and_collected() {
    let xml = "<e:Event><e:RenderingInfo><e:Message>a &lt; b &amp; c\
               <![CDATA[ <raw> ]]></e:Message><e:Keywords><e:Keyword>K1</e:Keyword>\
               <e:Keyword>  </e:Keyword><e:Keyword> K2 </e:Keyword></e:Keywords>\
               </e:RenderingInfo></e:Event>";
    let fields = parse(xml).unwrap();
    assert_eq!(fields.message.as_deref(), Some("a < b & c <raw>"));
    assert_eq!(fields.keyword_names, vec!["K1", "K2"]);
    assert_eq!(fields.task_name, None);
}

/// A text whose entity is unknown is left out, the element still counts.
#[test]
fn a_text_with_an_unknown_entity_is_left_out() {
    let xml = "<RenderingInfo><Message>a &nonsense; b</Message><Task>T</Task></RenderingInfo>";
    let fields = parse(xml).unwrap();
    assert_eq!(fields.message, None);
    assert_eq!(fields.task_name.as_deref(), Some("T"));
}

/// A text that would exceed the limit is not collected.
#[test]
fn overlong_texts_are_not_collected() {
    let fits = "x".repeat(65_536);
    let xml = format!("<RenderingInfo><Message>{fits}</Message></RenderingInfo>");
    assert_eq!(parse(&xml).unwrap().message.as_deref(), Some(fits.as_str()));
    let long = "x".repeat(65_537);
    let xml = format!("<RenderingInfo><Message>{long}</Message></RenderingInfo>");
    assert_eq!(parse(&xml).unwrap().message, None);
}

/// Nothing after the element is read. An element that stands late in its document
/// still counts, without its fields.
#[test]
fn reading_stops_at_the_end_of_the_element_and_not_before() {
    let xml = "<E><RenderingInfo><Task>T</Task></RenderingInfo>\
               <RenderingInfo><Task>U</Task></RenderingInfo></E>";
    assert_eq!(parse(xml).unwrap().task_name.as_deref(), Some("T"));

    let within = format!("{}<RenderingInfo/>", "<a/>".repeat(MAX_ITERATIONS - 1));
    assert!(parse(&within).is_some());
    let beyond = format!("{}<RenderingInfo/>", "<a/>".repeat(MAX_ITERATIONS));
    assert_eq!(parse(&beyond), Some(RenderingInfoFields::default()));
    let long = format!(
        "<E>{}<RenderingInfo><Task>T</Task></RenderingInfo></E>",
        "<Data>x</Data>".repeat(3 * MAX_ITERATIONS)
    );
    assert_eq!(parse(&long), Some(RenderingInfoFields::default()));
    let without = format!("<E>{}</E>", "<Data>x</Data>".repeat(3 * MAX_ITERATIONS));
    assert!(parse(&without).is_none());

    // Fields that were collected before the limit are kept.
    let split = format!(
        "<RenderingInfo><Task>T</Task>{}<Opcode>O</Opcode></RenderingInfo>",
        "<a/>".repeat(MAX_ITERATIONS)
    );
    let fields = parse(&split).unwrap();
    assert_eq!(fields.task_name.as_deref(), Some("T"));
    assert_eq!(fields.opcode_name, None);
}

/// The same decisions over the events of a document.
#[test]
fn tokens_are_read_like_documents() {
    let name = |text: &str| text.as_bytes().to_vec();
    let tokens = vec![
        XmlToken::Other,
        XmlToken::Start(name("Event")),
        XmlToken::Start(name("RenderingInfo")),
        XmlToken::Start(name("Opcode")),
        XmlToken::CData(name(" Info ")),
        XmlToken::CData(vec![0xFF]),
        XmlToken::End(name("Opcode")),
        XmlToken::Start(name("Message")),
        XmlToken::CData(name("cut off")),
        XmlToken::Error,
        XmlToken::End(name("Message")),
    ];
    let fields = parse_tokens(&tokens).unwrap();
    assert_eq!(fields.opcode_name.as_deref(), Some("Info"));
    assert_eq!(fields.message, None);
    assert!(parse_tokens(&tokens[..2].iter().map(copy).collect()).is_none());
}

fn copy(token: &XmlToken) -> XmlToken {
    match token {
        XmlToken::Start(name) => XmlToken::Start(name.clone()),
        _ => XmlToken::Other,
    }
}

#[test]
fn blank_texts_are_not_committed() {
    let mut fields = RenderingInfoFields::default();
    commit(Target::Message, "  \t", &mut fields);
    commit(Target::Nothing, "x", &mut fields);
    assert_eq!(fields, RenderingInfoFields::default());
    commit(Target::Message, "\u{A0}x y\n", &mut fields);
    assert_eq!(fields.message.as_deref(), Some("x y"));
}
