//! What holds of every conversion.

use crate::converter::conversion;
use crate::error::ConversionError;
use crate::event::has_prefix;
use crate::event::lemma_events_in_sequence;
use crate::event::lemma_one_more_event;
use crate::event::is_namespace_attribute;
use crate::event::namespace_attribute_warning;
use crate::event::prefixed_element_warning;
use crate::event::Run;
use crate::event::XmlAttribute;
use crate::event::XmlEvent;
use crate::text::text_of;
use crate::token::Token;
use crate::type_detection::inferred;
use crate::type_detection::whitespace_only;
use quick_xml::events::attributes::AttrError;
use vstd::prelude::*;

verus! {

/// A tag that closes itself does what the tag that opens the element and
/// the tag that closes it do between them.
pub proof fn lemma_self_closing_tag(
    run: Run,
    name: Vec<u8>,
    attributes: Vec<Result<XmlAttribute, AttrError>>,
    keep_whitespace: bool,
)
    ensures
        run.event(XmlEvent::Empty { name, attributes }, keep_whitespace) == run.event(
            XmlEvent::Start { name, attributes },
            keep_whitespace,
        ).event(XmlEvent::End { name }, keep_whitespace),
{
}

/// An element written as `<x/>` and the same element written as `<x></x>`
/// come out alike, byte for byte, wherever in a document they stand; with
/// the same attributes in both, if there are any.
pub proof fn lemma_self_closing_element(
    start: Run,
    before: Seq<XmlEvent>,
    name: Vec<u8>,
    attributes: Vec<Result<XmlAttribute, AttrError>>,
    after: Seq<XmlEvent>,
    ending: Result<(), quick_xml::Error>,
    keep_whitespace: bool,
)
    ensures
        conversion(
            start,
            before + seq![XmlEvent::Empty { name, attributes }] + after,
            ending,
            keep_whitespace,
        ) == conversion(
            start,
            before + seq![XmlEvent::Start { name, attributes }, XmlEvent::End { name }] + after,
            ending,
            keep_whitespace,
        ),
{
    let opened = start.token(Token::StartDocument);
    let empty = XmlEvent::Empty { name, attributes };
    let open = XmlEvent::Start { name, attributes };
    let close = XmlEvent::End { name };
    assert(before + seq![empty] =~= before.push(empty));
    assert(before + seq![open, close] =~= before.push(open).push(close));
    lemma_one_more_event(opened, before, empty, keep_whitespace);
    lemma_one_more_event(opened, before, open, keep_whitespace);
    lemma_one_more_event(opened, before.push(open), close, keep_whitespace);
    lemma_self_closing_tag(
        opened.events(before, keep_whitespace),
        name,
        attributes,
        keep_whitespace,
    );
    lemma_events_in_sequence(opened, before.push(empty), after, keep_whitespace);
    lemma_events_in_sequence(opened, before.push(open).push(close), after, keep_whitespace);
}

/// Text that is white space and nothing else is one token of ignorable
/// white space where white space is kept, and no token where it is not.
pub proof fn lemma_whitespace_between_elements(run: Run, content: Vec<u8>, keep_whitespace: bool)
    requires
        text_of(content@) matches Ok(text) && whitespace_only(text),
    ensures
        keep_whitespace ==> run.event(XmlEvent::Text { content }, keep_whitespace) == run.token(
            Token::IgnorableWhitespace(text_of(content@)->Ok_0),
        ),
        !keep_whitespace ==> run.event(XmlEvent::Text { content }, keep_whitespace) == run,
{
}

/// Warnings never reach the output: two conversions that differ in nothing
/// but the warnings raised so far write the same bytes and end alike.
pub proof fn lemma_warnings_leave_output_alone(
    one: Run,
    other: Run,
    events: Seq<XmlEvent>,
    keep_whitespace: bool,
)
    requires
        one.document == other.document,
        one.result == other.result,
    ensures
        one.events(events, keep_whitespace).document == other.events(
            events,
            keep_whitespace,
        ).document,
        one.events(events, keep_whitespace).result == other.events(events, keep_whitespace).result,
    decreases events.len(),
{
    if events.len() > 0 {
        lemma_warnings_leave_output_alone(one, other, events.drop_last(), keep_whitespace);
        let a = one.events(events.drop_last(), keep_whitespace);
        let b = other.events(events.drop_last(), keep_whitespace);
        match events.last() {
            XmlEvent::Start { name, attributes } => {
                lemma_element_output(a, b, name@, attributes@, false);
            },
            XmlEvent::Empty { name, attributes } => {
                lemma_element_output(a, b, name@, attributes@, true);
            },
            _ => {},
        }
    }
}

proof fn lemma_element_output(
    one: Run,
    other: Run,
    name: Seq<u8>,
    attributes: Seq<Result<XmlAttribute, AttrError>>,
    closed: bool,
)
    requires
        one.document == other.document,
        one.result == other.result,
    ensures
        one.element(name, attributes, closed).document == other.element(
            name,
            attributes,
            closed,
        ).document,
        one.element(name, attributes, closed).result == other.element(
            name,
            attributes,
            closed,
        ).result,
{
    if text_of(name) is Ok {
        let text = text_of(name)->Ok_0;
        let a = one.warn_if(has_prefix(text), prefixed_element_warning(text)).token(
            Token::StartTag(text),
        );
        let b = other.warn_if(has_prefix(text), prefixed_element_warning(text)).token(
            Token::StartTag(text),
        );
        lemma_attributes_output(a, b, attributes);
    }
}

proof fn lemma_attributes_output(
    one: Run,
    other: Run,
    attributes: Seq<Result<XmlAttribute, AttrError>>,
)
    requires
        one.document == other.document,
        one.result == other.result,
    ensures
        one.attributes(attributes).document == other.attributes(attributes).document,
        one.attributes(attributes).result == other.attributes(attributes).result,
    decreases attributes.len(),
{
    if attributes.len() > 0 {
        lemma_attributes_output(
            one.attribute(attributes[0]),
            other.attribute(attributes[0]),
            attributes.drop_first(),
        );
    }
}

/// A tag whose name has a prefix raises exactly one warning, and is written
/// as any other tag is; a tag whose name has none raises no warning.
pub proof fn lemma_prefixed_element_warns_once(run: Run, name: Seq<u8>, closed: bool)
    requires
        run.result is Ok,
        text_of(name) is Ok,
    ensures
        ({
            let text = text_of(name)->Ok_0;
            let written = run.element(name, Seq::empty(), closed);
            let tagged = run.token(Token::StartTag(text));
            &&& written.warnings == if has_prefix(text) {
                run.warnings.push(prefixed_element_warning(text))
            } else {
                run.warnings
            }
            &&& written.document == if closed {
                tagged.token(Token::EndTag(text)).document
            } else {
                tagged.document
            }
        }),
{
}

/// An attribute that declares a namespace, or whose name has a prefix,
/// raises exactly one warning, and is written as any other attribute is; an
/// attribute of neither kind raises no warning.
pub proof fn lemma_namespace_attribute_warns_once(run: Run, attribute: XmlAttribute)
    requires
        run.result is Ok,
        text_of(attribute.key@) is Ok,
        text_of(attribute.value@) is Ok,
    ensures
        ({
            let key = text_of(attribute.key@)->Ok_0;
            let value = text_of(attribute.value@)->Ok_0;
            let written = run.attribute(Ok(attribute));
            &&& written.warnings == if is_namespace_attribute(key) {
                run.warnings.push(namespace_attribute_warning(key))
            } else {
                run.warnings
            }
            &&& written.document == run.token(
                Token::Attribute(key, inferred(value, attribute.double)),
            ).document
        }),
{
}

/// A failure of the reader comes back as it is. Where the events before it
/// were written, the conversion ends with the reader's error, behind what
/// those events called for: nothing more is written, not the token that
/// ends a document either, and nothing is taken back.
pub proof fn lemma_reader_failure(
    start: Run,
    events: Seq<XmlEvent>,
    error: quick_xml::Error,
    keep_whitespace: bool,
)
    requires
        start.token(Token::StartDocument).events(events, keep_whitespace).result is Ok,
    ensures
        ({
            let read = start.token(Token::StartDocument).events(events, keep_whitespace);
            let run = conversion(start, events, Err(error), keep_whitespace);
            &&& run.result == Err::<(), ConversionError>(ConversionError::XmlParsing(error))
            &&& run.document == read.document
            &&& run.warnings == read.warnings
        }),
{
}

} // verus!
