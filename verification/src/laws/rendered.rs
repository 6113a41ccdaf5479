//! What is read from an event that arrived as rendered text.

use vstd::prelude::*;

use crate::rendering_info::{FieldsView, ParseView, Target, TokenView};

verus! {

/// The state after events that are all collected from.
pub open spec fn taken(view: ParseView, tokens: Seq<TokenView>) -> ParseView
    decreases tokens.len(),
{
    if tokens.len() == 0 {
        view
    } else {
        taken(view.after(tokens[0]), tokens.skip(1))
    }
}

/// A start tag with a name.
pub open spec fn start_tag(name: Seq<char>) -> TokenView {
    TokenView::Start(vstd::utf8::encode_utf8(name))
}

/// An end tag with a name.
pub open spec fn end_tag(name: Seq<char>) -> TokenView {
    TokenView::End(vstd::utf8::encode_utf8(name))
}

/// Events are taken one after another, each of them, up to the end of the element
/// or of the document.
pub proof fn events_are_taken_in_turn(
    view: ParseView,
    a: Seq<TokenView>,
    b: Seq<TokenView>,
    budget: nat,
)
    requires
        a.len() <= budget,
        forall|i: int|
            0 <= i < a.len() ==> !((#[trigger] a[i]) is Eof) && !(a[i] is Error) && a[i] != end_tag(
                "RenderingInfo"@,
            ),
    ensures
        view.after_all(a + b, budget) == taken(view, a).after_all(b, (budget - a.len()) as nat),
    decreases a.len(),
{
    if a.len() == 0 {
        assert(a + b =~= b);
    } else {
        let rest = a.skip(1);
        assert((a + b)[0] == a[0]);
        assert((a + b).skip(1) =~= rest + b);
        assert forall|i: int| 0 <= i < rest.len() implies !((#[trigger] rest[i]) is Eof) && !(
        rest[i] is Error) && rest[i] != end_tag("RenderingInfo"@) by {
            assert(rest[i] == a[i + 1]);
        }
        assert(a[0] != end_tag("RenderingInfo"@));
        events_are_taken_in_turn(view.after(a[0]), rest, b, (budget - 1) as nat);
    }
}

/// Nothing is read after the end of the element, or of the document.
pub proof fn reading_ends_with_the_element(
    view: ParseView,
    last: TokenView,
    rest: Seq<TokenView>,
    budget: nat,
)
    requires
        last is Eof || last is Error || last == end_tag("RenderingInfo"@),
        budget > 0,
    ensures
        view.after_all(seq![last] + rest, budget) == view.after(last),
        last is Eof || last is Error ==> view.after(last) == view,
{
    assert((seq![last] + rest)[0] == last);
}

/// Fields are collected from the first 4000 events of a document; what comes later
/// only tells that the element is there.
pub proof fn fields_come_from_the_first_events(view: ParseView, tokens: Seq<TokenView>)
    ensures
        crate::rendering_info::rendering_info(tokens) == ParseView::start().after_all(
            tokens,
            4000,
        ).found(),
        view.after_all(tokens, 0).fields == view.fields,
    decreases tokens.len(),
{
    if tokens.len() > 0 {
        fields_come_from_the_first_events(view.after_late(tokens[0]), tokens.skip(1));
    }
}

/// An event past the limit is taken notice of where it opens the element, and in no
/// other way.
pub proof fn late_events_only_tell(view: ParseView, token: TokenView)
    ensures
        view.after_late(token) == (ParseView {
            present: view.present || token == start_tag("RenderingInfo"@) || token
                == TokenView::Empty(vstd::utf8::encode_utf8("RenderingInfo"@)),
            ..view
        }),
{
}

/// The element is found wherever it stands in a document that is read to there,
/// whatever it holds.
pub proof fn the_element_is_found(tokens: Seq<TokenView>, i: int)
    requires
        0 <= i < tokens.len(),
        tokens[i] == start_tag("RenderingInfo"@) || tokens[i] == TokenView::Empty(
            vstd::utf8::encode_utf8("RenderingInfo"@),
        ),
        forall|j: int|
            0 <= j < i ==> !((#[trigger] tokens[j]) is Eof) && !(tokens[j] is Error) && tokens[j]
                != end_tag("RenderingInfo"@),
    ensures
        crate::rendering_info::rendering_info(tokens) is Some,
{
    crate::rendering_info::presence_decides(tokens);
    lemma_is_read(tokens, i);
    assert(crate::rendering_info::opens_element(tokens[i]));
}

proof fn lemma_is_read(tokens: Seq<TokenView>, i: int)
    requires
        0 <= i < tokens.len(),
        forall|j: int|
            0 <= j < i ==> !((#[trigger] tokens[j]) is Eof) && !(tokens[j] is Error) && tokens[j]
                != end_tag("RenderingInfo"@),
    ensures
        i < crate::rendering_info::events_read(tokens),
    decreases tokens.len(),
{
    if i > 0 {
        let rest = tokens.skip(1);
        assert forall|j: int| 0 <= j < i - 1 implies !((#[trigger] rest[j]) is Eof) && !(rest[j]
            is Error) && rest[j] != end_tag("RenderingInfo"@) by {
            assert(rest[j] == tokens[j + 1]);
        }
        assert(!(tokens[0] is Eof));
        lemma_is_read(rest, i - 1);
    }
}

/// Without the element nothing is found.
pub proof fn no_element_nothing_found(tokens: Seq<TokenView>)
    requires
        forall|j: int|
            0 <= j < tokens.len() ==> (#[trigger] tokens[j]) != start_tag("RenderingInfo"@)
                && tokens[j] != TokenView::Empty(vstd::utf8::encode_utf8("RenderingInfo"@)),
    ensures
        crate::rendering_info::rendering_info(tokens) is None,
{
    crate::rendering_info::presence_decides(tokens);
    lemma_reads_are_tokens(tokens);
    assert forall|j: int| 0 <= j < tokens.len() implies !crate::rendering_info::opens_element(
        #[trigger] tokens[j],
    ) by {
        assert(tokens[j] != start_tag("RenderingInfo"@));
    }
}

proof fn lemma_reads_are_tokens(tokens: Seq<TokenView>)
    ensures
        crate::rendering_info::events_read(tokens) <= tokens.len(),
    decreases tokens.len(),
{
    if tokens.len() > 0 {
        lemma_reads_are_tokens(tokens.skip(1));
    }
}

/// At first nothing was seen; what was found is the fields, where the element was
/// seen, and nothing else.
pub proof fn documents_start_empty(view: ParseView)
    ensures
        !ParseView::start().present,
        !ParseView::start().inside,
        ParseView::start().fields.message is None,
        ParseView::start().fields.task_name is None,
        ParseView::start().fields.opcode_name is None,
        ParseView::start().fields.keyword_names.len() == 0,
        view.present ==> view.found() == Some(view.fields),
        !view.present ==> view.found() is None,
{
}

proof fn lemma_names_differ()
    ensures
        ({
            let info = vstd::utf8::encode_utf8("RenderingInfo"@);
            let message = vstd::utf8::encode_utf8("Message"@);
            let task = vstd::utf8::encode_utf8("Task"@);
            let opcode = vstd::utf8::encode_utf8("Opcode"@);
            let keyword = vstd::utf8::encode_utf8("Keyword"@);
            &&& info != message && info != task && info != opcode && info != keyword
            &&& message != task && message != opcode && message != keyword
            &&& task != opcode && task != keyword
            &&& opcode != keyword
        }),
{
    reveal_strlit("RenderingInfo");
    reveal_strlit("Message");
    reveal_strlit("Task");
    reveal_strlit("Opcode");
    reveal_strlit("Keyword");
    broadcast use vstd::utf8::encode_utf8_decode_utf8;

    let info = "RenderingInfo"@;
    let message = "Message"@;
    let task = "Task"@;
    let opcode = "Opcode"@;
    let keyword = "Keyword"@;
    assert(vstd::utf8::decode_utf8(vstd::utf8::encode_utf8(info)) == info);
    assert(vstd::utf8::decode_utf8(vstd::utf8::encode_utf8(message)) == message);
    assert(vstd::utf8::decode_utf8(vstd::utf8::encode_utf8(task)) == task);
    assert(vstd::utf8::decode_utf8(vstd::utf8::encode_utf8(opcode)) == opcode);
    assert(vstd::utf8::decode_utf8(vstd::utf8::encode_utf8(keyword)) == keyword);
    assert(info[0] != message[0] && info[0] != task[0] && info[0] != opcode[0] && info[0]
        != keyword[0]);
    assert(message[0] != task[0] && message[0] != opcode[0] && message[0] != keyword[0]);
    assert(task[0] != opcode[0] && task[0] != keyword[0]);
    assert(opcode[0] != keyword[0]);
}

/// Opening the element is taken notice of, and changes no field; inside it the four
/// elements that hold fields are told apart by their names, and any other holds
/// none.
pub proof fn elements_are_told_apart(view: ParseView, name: Seq<u8>)
    ensures
        ({
            let opened = view.after(start_tag("RenderingInfo"@));
            &&& opened.present
            &&& opened.inside
            &&& opened.fields == view.fields
        }),
        view.inside ==> view.after(start_tag("Message"@)).target == Target::Message,
        view.inside ==> view.after(start_tag("Task"@)).target == Target::Task,
        view.inside ==> view.after(start_tag("Opcode"@)).target == Target::Opcode,
        view.inside ==> view.after(start_tag("Keyword"@)).target == Target::Keyword,
        view.inside && TokenView::Start(name) != start_tag("RenderingInfo"@) ==> ({
            let next = view.after(TokenView::Start(name));
            &&& next.text.len() == 0
            &&& next.fields == view.fields
            &&& next.inside
            &&& next.present == view.present
            &&& TokenView::Start(name) != start_tag("Message"@) && TokenView::Start(name)
                != start_tag("Task"@) && TokenView::Start(name) != start_tag("Opcode"@)
                && TokenView::Start(name) != start_tag("Keyword"@) ==> next.target
                == Target::Nothing
        }),
        !view.inside && TokenView::Start(name) != start_tag("RenderingInfo"@) ==> view.after(
            TokenView::Start(name),
        ) == view,
{
    lemma_names_differ();
}

/// An empty element of that name is the element too, and holds nothing.
pub proof fn empty_elements_count(view: ParseView, name: Seq<u8>)
    ensures
        ({
            let next = view.after(TokenView::Empty(name));
            &&& next.fields == view.fields
            &&& next.inside == view.inside
            &&& next.target == view.target
            &&& next.text == view.text
            &&& next.present <==> view.present || name == vstd::utf8::encode_utf8(
                "RenderingInfo"@,
            )
        }),
{
}

/// Text is added whole to what was collected for a field, with its entities
/// replaced, character data as it is; where it would be more than 65536 bytes in
/// all, it is left out. Outside a field text is passed over.
pub proof fn text_is_collected(view: ParseView, raw: Seq<u8>)
    requires
        vstd::utf8::valid_utf8(raw),
    ensures
        ({
            let plain = vstd::utf8::decode_utf8(raw);
            let collects = view.inside && view.target != Target::Nothing;
            let held = vstd::utf8::encode_utf8(view.text).len();
            &&& collects && held + vstd::utf8::encode_utf8(plain).len() <= 65_536 ==> view.after(
                TokenView::CData(raw),
            ).text == view.text + plain
            &&& !collects || held + vstd::utf8::encode_utf8(plain).len() > 65_536 ==> view.after(
                TokenView::CData(raw),
            ) == view
            &&& crate::rendering_info::unescaped(plain) matches Some(text) ==> {
                &&& collects && held + vstd::utf8::encode_utf8(text).len() <= 65_536 ==> view.after(
                    TokenView::Text(raw),
                ).text == view.text + text
                &&& !collects || held + vstd::utf8::encode_utf8(text).len() > 65_536 ==> view.after(
                    TokenView::Text(raw),
                ) == view
            }
            &&& crate::rendering_info::unescaped(plain) is None ==> view.after(TokenView::Text(raw))
                == view
            &&& view.after(TokenView::Text(raw)).fields == view.fields
            &&& view.after(TokenView::Text(raw)).target == view.target
            &&& view.after(TokenView::CData(raw)).fields == view.fields
            &&& view.after(TokenView::CData(raw)).target == view.target
        }),
{
}

/// Text that is no text at all is passed over, and so is what is neither an element
/// nor text.
pub proof fn other_events_are_passed_over(view: ParseView, raw: Seq<u8>)
    ensures
        !vstd::utf8::valid_utf8(raw) ==> view.after(TokenView::Text(raw)) == view,
        !vstd::utf8::valid_utf8(raw) ==> view.after(TokenView::CData(raw)) == view,
        view.after(TokenView::Other) == view,
{
}

/// The end of an element gives its field the collected text without the blanks
/// around it, keywords one after another; a blank text changes nothing.
pub proof fn fields_get_their_text(view: ParseView, name: Seq<u8>)
    requires
        view.inside,
        view.target != Target::Nothing,
        TokenView::End(name) != end_tag("RenderingInfo"@),
    ensures
        ({
            let next = view.after(TokenView::End(name));
            let value = crate::text::trimmed(view.text);
            &&& next.target == Target::Nothing
            &&& next.text.len() == 0
            &&& next.inside
            &&& next.present == view.present
            &&& next.fields == expected(view.fields, view.target, value)
        }),
{
}

/// The end of the element itself gives a field that was left open its text.
pub proof fn open_fields_get_their_text(view: ParseView)
    ensures
        view.after(end_tag("RenderingInfo"@)).fields == expected(
            view.fields,
            view.target,
            crate::text::trimmed(view.text),
        ),
        view.after(end_tag("RenderingInfo"@)).present == view.present,
{
}

/// The fields with one of them given a value.
pub open spec fn expected(fields: FieldsView, target: Target, value: Seq<char>) -> FieldsView {
    FieldsView {
        message: if target == Target::Message && value.len() > 0 {
            Some(value)
        } else {
            fields.message
        },
        task_name: if target == Target::Task && value.len() > 0 {
            Some(value)
        } else {
            fields.task_name
        },
        opcode_name: if target == Target::Opcode && value.len() > 0 {
            Some(value)
        } else {
            fields.opcode_name
        },
        keyword_names: if target == Target::Keyword && value.len() > 0 {
            fields.keyword_names.push(value)
        } else {
            fields.keyword_names
        },
    }
}

/// An end tag outside any field, other than that of the element, changes nothing.
pub proof fn other_ends_change_nothing(view: ParseView, name: Seq<u8>)
    requires
        !view.inside || view.target == Target::Nothing,
        TokenView::End(name) != end_tag("RenderingInfo"@),
    ensures
        view.after(TokenView::End(name)) == view,
{
}

/// Any event in a field element: what one holds becomes that field's text, whatever
/// the other fields are. So a document with the element and a field in it is
/// displayed with that field.
pub proof fn documents_display_their_fields(
    view: ParseView,
    raw: Seq<u8>,
    text: Seq<char>,
    closing: Seq<u8>,
)
    requires
        view.inside,
        vstd::utf8::valid_utf8(raw),
        crate::rendering_info::unescaped(vstd::utf8::decode_utf8(raw)) == Some(text),
        vstd::utf8::encode_utf8(text).len() <= 65_536,
        crate::text::trimmed(text).len() > 0,
        TokenView::End(closing) != end_tag("RenderingInfo"@),
    ensures
        ({
            let value = crate::text::trimmed(text);
            let held = |name: Seq<char>|
                taken(
                    view,
                    seq![start_tag(name), TokenView::Text(raw), TokenView::End(closing)],
                ).fields;
            &&& held("Message"@) == FieldsView { message: Some(value), ..view.fields }
            &&& held("Task"@) == FieldsView { task_name: Some(value), ..view.fields }
            &&& held("Opcode"@) == FieldsView { opcode_name: Some(value), ..view.fields }
            &&& held("Keyword"@) == FieldsView {
                keyword_names: view.fields.keyword_names.push(value),
                ..view.fields
            }
        }),
{
    lemma_names_differ();
    elements_are_told_apart(view, vstd::utf8::encode_utf8("Message"@));
    lemma_field(view, "Message"@, Target::Message, raw, text, closing);
    lemma_field(view, "Task"@, Target::Task, raw, text, closing);
    lemma_field(view, "Opcode"@, Target::Opcode, raw, text, closing);
    lemma_field(view, "Keyword"@, Target::Keyword, raw, text, closing);
}

proof fn lemma_field(
    view: ParseView,
    name: Seq<char>,
    target: Target,
    raw: Seq<u8>,
    text: Seq<char>,
    closing: Seq<u8>,
)
    requires
        view.inside,
        target != Target::Nothing,
        view.after(start_tag(name)).target == target,
        start_tag(name) != start_tag("RenderingInfo"@),
        vstd::utf8::valid_utf8(raw),
        crate::rendering_info::unescaped(vstd::utf8::decode_utf8(raw)) == Some(text),
        vstd::utf8::encode_utf8(text).len() <= 65_536,
        TokenView::End(closing) != end_tag("RenderingInfo"@),
    ensures
        taken(
            view,
            seq![start_tag(name), TokenView::Text(raw), TokenView::End(closing)],
        ).fields == expected(view.fields, target, crate::text::trimmed(text)),
{
    reveal_with_fuel(taken, 4);
    let tokens = seq![start_tag(name), TokenView::Text(raw), TokenView::End(closing)];
    let one = view.after(tokens[0]);
    elements_are_told_apart(view, vstd::utf8::encode_utf8(name));
    assert(one.inside && one.target == target && one.text =~= Seq::<char>::empty());
    assert(vstd::utf8::encode_utf8(one.text).len() == 0);
    text_is_collected(one, raw);
    let two = one.after(tokens[1]);
    assert(two.text =~= text);
    fields_get_their_text(two, closing);
    assert(tokens.skip(1)[0] == tokens[1]);
    assert(tokens.skip(1).skip(1)[0] == tokens[2]);
    assert(tokens.skip(1).skip(1).skip(1).len() == 0);
}

} // verus!
