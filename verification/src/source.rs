//! The XML reader, and the events that it yields.

use crate::event::XmlAttribute;
use crate::event::XmlEvent;
use crate::text::str_from_utf8;
use crate::text::text_of;
use crate::type_detection::is_boolean;
use crate::type_detection::is_scientific_notation;
use crate::type_detection::wants_number;
use quick_xml::events::attributes::AttrError;
use quick_xml::events::BytesDecl;
use quick_xml::events::BytesPI;
use quick_xml::events::BytesStart;
use quick_xml::events::Event;
use quick_xml::Reader;
use vstd::prelude::*;
use vstd::string::StringSliceAdditionalSpecFns;
use vstd::utf8::encode_utf8_decode_utf8;

verus! {

/// `quick_xml::Reader`, the pull parser that turns XML text into events.
#[verifier::external_type_specification]
#[verifier::external_body]
#[verifier::reject_recursive_types(R)]
pub struct ExReader<R>(Reader<R>);

/// `quick_xml::events::BytesStart`, the inside of a tag that opens an
/// element: its name and its attributes.
#[verifier::external_type_specification]
#[verifier::external_body]
pub struct ExBytesStart<'a>(BytesStart<'a>);

/// `quick_xml::events::BytesPI`, the inside of a processing instruction.
#[verifier::external_type_specification]
#[verifier::external_body]
pub struct ExBytesPI<'a>(BytesPI<'a>);

/// `quick_xml::events::BytesDecl`, the inside of an XML declaration.
#[verifier::external_type_specification]
#[verifier::external_body]
pub struct ExBytesDecl<'a>(BytesDecl<'a>);

/// An event as the reader reads it off the input: its names and its text
/// as bytes, its attributes each as a key and a value or as the error met
/// in its place.
pub enum ReadEvent {
    Start { name: Seq<u8>, attributes: Seq<Result<(Seq<u8>, Seq<u8>), AttrError>> },
    End { name: Seq<u8> },
    Empty { name: Seq<u8>, attributes: Seq<Result<(Seq<u8>, Seq<u8>), AttrError>> },
    Text { content: Seq<u8> },
    CData { content: Seq<u8> },
    Comment { content: Seq<u8> },
    Declaration { encoding: Option<Result<Seq<u8>, AttrError>> },
    ProcessingInstruction { target: Seq<u8>, content: Seq<u8> },
    DocType { content: Seq<u8> },
    EntityRef { name: Seq<u8> },
    Eof,
}

/// The events that `quick_xml::Reader::read_event_into` yields, one call
/// after the other, from a reader that was made over `input` and has its
/// trimming of text set to `trim_text`: all the events before the reader
/// comes to the end of the input or to its first error. The end of the
/// input is none of them.
pub uninterp spec fn parsed_events(input: Seq<u8>, trim_text: bool) -> Seq<ReadEvent>;

/// What `quick_xml::Reader::read_event_into` yields behind the events of
/// `parsed_events`: nothing more, where the reader comes to the end of the
/// input, or the reader's first error.
pub uninterp spec fn parse_ending(input: Seq<u8>, trim_text: bool) -> Result<(), quick_xml::Error>;

/// The input that a reader was made over by `quick_xml::Reader::from_str`
/// or `quick_xml::Reader::from_reader`.
pub uninterp spec fn source_of(reader: Reader<&[u8]>) -> Seq<u8>;

/// Whether a reader drops white space at both ends of a text, as
/// `quick_xml::reader::Config::trim_text` has set it.
pub uninterp spec fn trims(reader: Reader<&[u8]>) -> bool;

/// How many calls of `quick_xml::Reader::read_event_into` a reader has
/// answered with an event or an error; the end of the input is not counted.
pub uninterp spec fn events_read(reader: Reader<&[u8]>) -> nat;

/// The name of a tag, as `quick_xml::events::BytesStart::name` gives it.
pub uninterp spec fn tag_name(start: BytesStart) -> Seq<u8>;

/// The attributes of a tag, as the iterator of
/// `quick_xml::events::BytesStart::attributes` gives them, one after the
/// other.
pub uninterp spec fn tag_attributes(start: BytesStart) -> Seq<
    Result<(Seq<u8>, Seq<u8>), AttrError>,
>;

/// The target of a processing instruction, as
/// `quick_xml::events::BytesPI::target` gives it.
pub uninterp spec fn target_of(instruction: BytesPI) -> Seq<u8>;

/// What follows the target of a processing instruction, as
/// `quick_xml::events::BytesPI::content` gives it.
pub uninterp spec fn content_of(instruction: BytesPI) -> Seq<u8>;

/// The encoding that an XML declaration names, as
/// `quick_xml::events::BytesDecl::encoding` gives it.
pub uninterp spec fn encoding_of(declaration: BytesDecl) -> Option<Result<Seq<u8>, AttrError>>;

/// An event as the reader hands it over: the parts that take more than one
/// call to read are still in the reader's own types.
pub(crate) enum RawEvent<'a> {
    Start(BytesStart<'a>),
    End(Vec<u8>),
    Empty(BytesStart<'a>),
    Text(Vec<u8>),
    CData(Vec<u8>),
    Comment(Vec<u8>),
    Declaration(BytesDecl<'a>),
    Instruction(BytesPI<'a>),
    DocType(Vec<u8>),
    Reference(Vec<u8>),
    Eof,
}

impl RawEvent<'_> {
    /// The event that was read, its parts in the reader's own types by what
    /// they hold.
    pub(crate) open spec fn read(self) -> ReadEvent {
        match self {
            RawEvent::Start(start) => ReadEvent::Start {
                name: tag_name(start),
                attributes: tag_attributes(start),
            },
            RawEvent::End(name) => ReadEvent::End { name: name@ },
            RawEvent::Empty(start) => ReadEvent::Empty {
                name: tag_name(start),
                attributes: tag_attributes(start),
            },
            RawEvent::Text(content) => ReadEvent::Text { content: content@ },
            RawEvent::CData(content) => ReadEvent::CData { content: content@ },
            RawEvent::Comment(content) => ReadEvent::Comment { content: content@ },
            RawEvent::Declaration(declaration) => ReadEvent::Declaration {
                encoding: encoding_of(declaration),
            },
            RawEvent::Instruction(instruction) => ReadEvent::ProcessingInstruction {
                target: target_of(instruction),
                content: content_of(instruction),
            },
            RawEvent::DocType(content) => ReadEvent::DocType { content: content@ },
            RawEvent::Reference(name) => ReadEvent::EntityRef { name: name@ },
            RawEvent::Eof => ReadEvent::Eof,
        }
    }
}

/// What the read of a reader yields that has read `at` of the events
/// `parsed` of its input, and how many it has read after it. A reader that
/// has not yet read them all yields the next of them, and has read one
/// more. A reader that has read them all yields the end of the input, as
/// often as it is asked, or the error that `ending` holds.
pub open spec fn read_next(
    parsed: Seq<ReadEvent>,
    ending: Result<(), quick_xml::Error>,
    at: nat,
    read: Result<ReadEvent, quick_xml::Error>,
    after: nat,
) -> bool {
    &&& at < parsed.len() ==> {
        &&& read == Ok::<ReadEvent, quick_xml::Error>(parsed[at as int])
        &&& !(parsed[at as int] is Eof)
        &&& after == at + 1
    }
    &&& at == parsed.len() ==> match ending {
        Ok(_) => read == Ok::<ReadEvent, quick_xml::Error>(ReadEvent::Eof) && after == at,
        Err(error) => read == Err::<ReadEvent, quick_xml::Error>(error) && after == at + 1,
    }
}

/// The attributes of a tag, their keys and values as sequences of bytes.
pub open spec fn attribute_views(items: Seq<Result<(Vec<u8>, Vec<u8>), AttrError>>) -> Seq<
    Result<(Seq<u8>, Seq<u8>), AttrError>,
> {
    Seq::new(
        items.len(),
        |i: int|
            match items[i] {
                Ok((key, value)) => Ok((key@, value@)),
                Err(error) => Err(error),
            },
    )
}

/// The encoding of a declaration, its name as a sequence of bytes.
pub open spec fn encoding_view(encoding: Option<Result<Vec<u8>, AttrError>>) -> Option<
    Result<Seq<u8>, AttrError>,
> {
    match encoding {
        Some(Ok(name)) => Some(Ok(name@)),
        Some(Err(error)) => Some(Err(error)),
        None => None,
    }
}

/// `quick_xml::Reader::from_str`: a reader over the bytes of the text, that
/// has read nothing yet and does not trim text.
#[verifier::external_body]
pub(crate) fn reader_from_str<'a>(xml: &'a str) -> (reader: Reader<&'a [u8]>)
    ensures
        source_of(reader) == xml.spec_bytes(),
        !trims(reader),
        events_read(reader) == 0,
{
    Reader::from_str(xml)
}

/// `quick_xml::Reader::from_reader`, on a slice: a reader over the bytes,
/// that has read nothing yet and does not trim text.
#[verifier::external_body]
pub(crate) fn reader_from_bytes<'a>(input: &'a [u8]) -> (reader: Reader<&'a [u8]>)
    ensures
        source_of(reader) == input@,
        !trims(reader),
        events_read(reader) == 0,
{
    Reader::from_reader(input)
}

/// `quick_xml::reader::Config::trim_text` on the configuration of a reader
/// that has read nothing yet: whether white space at both ends of a text is
/// dropped. The input stays, and nothing is read.
#[verifier::external_body]
pub(crate) fn set_trim_text(reader: &mut Reader<&[u8]>, trim: bool)
    requires
        events_read(*old(reader)) == 0,
    ensures
        trims(*final(reader)) == trim,
        source_of(*final(reader)) == source_of(*old(reader)),
        events_read(*final(reader)) == 0,
{
    reader.config_mut().trim_text(trim);
}

/// `quick_xml::Reader::read_event_into`: the next event of the input, the
/// end of the input behind the last of them, or the reader's error. What a
/// reader yields, call after call, is settled by its input and its setting:
/// a reader that has not yet read all the events of its input yields the
/// next of them, and has read one more; a reader that has read them all
/// yields the end of the input, as often as it is asked, or its error. The
/// input and the setting stay as they are.
#[verifier::external_body]
pub(crate) fn read_event<'b>(reader: &mut Reader<&[u8]>, buf: &'b mut Vec<u8>) -> (res: Result<
    RawEvent<'b>,
    quick_xml::Error,
>)
    ensures
        read_next(
            parsed_events(source_of(*old(reader)), trims(*old(reader))),
            parse_ending(source_of(*old(reader)), trims(*old(reader))),
            events_read(*old(reader)),
            match res {
                Ok(raw) => Ok(raw.read()),
                Err(error) => Err(error),
            },
            events_read(*final(reader)),
        ) && source_of(*final(reader)) == source_of(*old(reader)) && trims(*final(reader))
            == trims(*old(reader)),
{
    Ok(match reader.read_event_into(buf)? {
        Event::Start(e) => RawEvent::Start(e),
        Event::End(e) => RawEvent::End(e.to_vec()),
        Event::Empty(e) => RawEvent::Empty(e),
        Event::Text(e) => RawEvent::Text(e.to_vec()),
        Event::CData(e) => RawEvent::CData(e.to_vec()),
        Event::Comment(e) => RawEvent::Comment(e.to_vec()),
        Event::Decl(e) => RawEvent::Declaration(e),
        Event::PI(e) => RawEvent::Instruction(e),
        Event::DocType(e) => RawEvent::DocType(e.to_vec()),
        Event::GeneralRef(e) => RawEvent::Reference(e.to_vec()),
        Event::Eof => RawEvent::Eof,
    })
}

/// `quick_xml::events::BytesStart::name`: the name of the tag, as written.
#[verifier::external_body]
pub(crate) fn element_name(start: &BytesStart) -> (name: Vec<u8>)
    ensures
        name@ == tag_name(*start),
{
    start.name().as_ref().to_vec()
}

/// `quick_xml::events::BytesStart::attributes`, run to its end: each
/// attribute of the tag as a key and a value, or the error met in its place,
/// in the order of the document.
#[verifier::external_body]
pub(crate) fn element_attributes(start: &BytesStart) -> (items: Vec<
    Result<(Vec<u8>, Vec<u8>), AttrError>,
>)
    ensures
        attribute_views(items@) == tag_attributes(*start),
{
    start
        .attributes()
        .map(|item| item.map(|a| (a.key.as_ref().to_vec(), a.value.to_vec())))
        .collect()
}

/// `quick_xml::events::BytesPI::target`: the target of the instruction.
#[verifier::external_body]
pub(crate) fn instruction_target(instruction: &BytesPI) -> (target: Vec<u8>)
    ensures
        target@ == target_of(*instruction),
{
    instruction.target().to_vec()
}

/// `quick_xml::events::BytesPI::content`: what follows the target.
#[verifier::external_body]
pub(crate) fn instruction_content(instruction: &BytesPI) -> (content: Vec<u8>)
    ensures
        content@ == content_of(*instruction),
{
    instruction.content().to_vec()
}

/// `quick_xml::events::BytesDecl::encoding`: the encoding that the
/// declaration names, if it names one.
#[verifier::external_body]
pub(crate) fn declaration_encoding(declaration: &BytesDecl) -> (encoding: Option<
    Result<Vec<u8>, AttrError>,
>)
    ensures
        encoding_view(encoding) == encoding_of(*declaration),
{
    declaration.encoding().map(|found| found.map(|name| name.to_vec()))
}

/// Whether `double` is what `parse` makes of the value `value`. The parser
/// is asked only about text that holds an exponent marker and is neither of
/// the boolean literals; of any other value there is no double.
pub open spec fn number_from<F: Fn(&str) -> Option<u64>>(
    parse: &F,
    value: Seq<u8>,
    double: Option<u64>,
) -> bool {
    match text_of(value) {
        Ok(text) => if wants_number(text) {
            exists|asked: &str| asked@ == text && parse.ensures((asked,), double)
        } else {
            double is None
        },
        Err(_) => double is None,
    }
}

/// Whether `attributes` are the attributes `read`, each with the double
/// that `parse` makes of its value.
pub open spec fn attributes_read_as<F: Fn(&str) -> Option<u64>>(
    attributes: Seq<Result<XmlAttribute, AttrError>>,
    read: Seq<Result<(Seq<u8>, Seq<u8>), AttrError>>,
    parse: &F,
) -> bool {
    &&& attributes.len() == read.len()
    &&& forall|i: int|
        0 <= i < read.len() ==> match #[trigger] read[i] {
            Ok((key, value)) => {
                &&& attributes[i] matches Ok(attribute)
                &&& attribute.key@ == key
                &&& attribute.value@ == value
                &&& number_from(parse, value, attribute.double)
            },
            Err(error) => attributes[i] == Err::<XmlAttribute, AttrError>(error),
        }
}

impl XmlEvent {
    /// Whether this event is the event `read`: of the same kind, with the
    /// same bytes, and its attributes each with the double that `parse`
    /// makes of its value.
    pub open spec fn read_as<F: Fn(&str) -> Option<u64>>(self, read: ReadEvent, parse: &F) -> bool {
        match read {
            ReadEvent::Start { name, attributes } => {
                &&& self matches XmlEvent::Start { name: own, attributes: resolved }
                &&& own@ == name
                &&& attributes_read_as(resolved@, attributes, parse)
            },
            ReadEvent::End { name } => self matches XmlEvent::End { name: own } && own@ == name,
            ReadEvent::Empty { name, attributes } => {
                &&& self matches XmlEvent::Empty { name: own, attributes: resolved }
                &&& own@ == name
                &&& attributes_read_as(resolved@, attributes, parse)
            },
            ReadEvent::Text { content } => self matches XmlEvent::Text { content: own } && own@
                == content,
            ReadEvent::CData { content } => self matches XmlEvent::CData { content: own } && own@
                == content,
            ReadEvent::Comment { content } => self matches XmlEvent::Comment { content: own }
                && own@ == content,
            ReadEvent::Declaration { encoding } => self matches XmlEvent::Declaration {
                encoding: own,
            } && encoding_view(own) == encoding,
            ReadEvent::ProcessingInstruction { target, content } => {
                &&& self matches XmlEvent::ProcessingInstruction { target: own, content: rest }
                &&& own@ == target
                &&& rest@ == content
            },
            ReadEvent::DocType { content } => self matches XmlEvent::DocType { content: own }
                && own@ == content,
            ReadEvent::EntityRef { name } => self matches XmlEvent::EntityRef { name: own } && own@
                == name,
            ReadEvent::Eof => self is Eof,
        }
    }
}

/// Asks the parser about a value that may be a number.
fn resolve_number<F: Fn(&str) -> Option<u64>>(value: &[u8], parse_double: &F) -> (double: Option<
    u64,
>)
    requires
        forall|asked: &str| parse_double.requires((asked,)),
    ensures
        number_from(parse_double, value@, double),
{
    match str_from_utf8(value) {
        Ok(text) => {
            proof {
                encode_utf8_decode_utf8(text@);
            }
            if !is_boolean(text) && is_scientific_notation(text) {
                parse_double(text)
            } else {
                None
            }
        },
        Err(_) => None,
    }
}

/// The attributes of a tag, each with what the parser makes of its value.
fn resolve_attributes<F: Fn(&str) -> Option<u64>>(
    items: Vec<Result<(Vec<u8>, Vec<u8>), AttrError>>,
    parse_double: &F,
) -> (attributes: Vec<Result<XmlAttribute, AttrError>>)
    requires
        forall|asked: &str| parse_double.requires((asked,)),
    ensures
        attributes_read_as(attributes@, attribute_views(items@), parse_double),
{
    let ghost all = items@;
    let mut attributes: Vec<Result<XmlAttribute, AttrError>> = Vec::new();
    for item in it: items
        invariant
            it.seq() == all,
            all == items@,
            forall|asked: &str| parse_double.requires((asked,)),
            attributes_read_as(
                attributes@,
                attribute_views(all.take(it.index() as int)),
                parse_double,
            ),
    {
        let ghost before = attributes@;
        let resolved = match item {
            Ok((key, value)) => {
                let double = resolve_number(value.as_slice(), parse_double);
                Ok(XmlAttribute { key, value, double })
            },
            Err(error) => Err(error),
        };
        attributes.push(resolved);
        proof {
            let read = attribute_views(all.take(it.index() + 1));
            assert forall|i: int| 0 <= i < read.len() implies match #[trigger] read[i] {
                Ok((key, value)) => {
                    &&& attributes@[i] matches Ok(attribute)
                    &&& attribute.key@ == key
                    &&& attribute.value@ == value
                    &&& number_from(parse_double, value, attribute.double)
                },
                Err(error) => attributes@[i] == Err::<XmlAttribute, AttrError>(error),
            } by {
                if i < it.index() {
                    assert(read[i] == attribute_views(all.take(it.index() as int))[i]);
                    assert(attributes@[i] == before[i]);
                }
            }
        }
    }
    assert(all.take(all.len() as int) =~= all);
    attributes
}

/// Reads the next event of the document. It is the event that the reader
/// yields, with the doubles that `parse_double` makes of the values of its
/// attributes; the reader's error is handed on as it came.
pub(crate) fn next_event<F: Fn(&str) -> Option<u64>>(
    reader: &mut Reader<&[u8]>,
    buf: &mut Vec<u8>,
    parse_double: &F,
) -> (res: Result<XmlEvent, quick_xml::Error>)
    requires
        forall|asked: &str| parse_double.requires((asked,)),
    ensures
        source_of(*final(reader)) == source_of(*old(reader)),
        trims(*final(reader)) == trims(*old(reader)),
        ({
            let parsed = parsed_events(source_of(*old(reader)), trims(*old(reader)));
            let ending = parse_ending(source_of(*old(reader)), trims(*old(reader)));
            let at = events_read(*old(reader));
            &&& at < parsed.len() ==> {
                &&& res matches Ok(event)
                &&& event.read_as(parsed[at as int], parse_double)
                &&& !(event is Eof)
                &&& events_read(*final(reader)) == at + 1
            }
            &&& at == parsed.len() ==> match ending {
                Ok(_) => res matches Ok(event) && event is Eof && events_read(*final(reader)) == at,
                Err(error) => res matches Err(handed) && handed == error,
            }
        }),
{
    let raw = read_event(reader, buf)?;
    Ok(resolve_event(raw, parse_double))
}

/// The event that the conversion works on, made of the event as the reader
/// handed it over. It is of the same kind and holds the same bytes; the
/// attributes of a tag have the doubles that `parse_double` makes of their
/// values.
pub(crate) fn resolve_event<F: Fn(&str) -> Option<u64>>(
    raw: RawEvent<'_>,
    parse_double: &F,
) -> (event: XmlEvent)
    requires
        forall|asked: &str| parse_double.requires((asked,)),
    ensures
        event.read_as(raw.read(), parse_double),
{
    match raw {
        RawEvent::Start(start) => XmlEvent::Start {
            name: element_name(&start),
            attributes: resolve_attributes(element_attributes(&start), parse_double),
        },
        RawEvent::End(name) => XmlEvent::End { name },
        RawEvent::Empty(start) => XmlEvent::Empty {
            name: element_name(&start),
            attributes: resolve_attributes(element_attributes(&start), parse_double),
        },
        RawEvent::Text(content) => XmlEvent::Text { content },
        RawEvent::CData(content) => XmlEvent::CData { content },
        RawEvent::Comment(content) => XmlEvent::Comment { content },
        RawEvent::Declaration(declaration) => XmlEvent::Declaration {
            encoding: declaration_encoding(&declaration),
        },
        RawEvent::Instruction(instruction) => XmlEvent::ProcessingInstruction {
            target: instruction_target(&instruction),
            content: instruction_content(&instruction),
        },
        RawEvent::DocType(content) => XmlEvent::DocType { content },
        RawEvent::Reference(name) => XmlEvent::EntityRef { name },
        RawEvent::Eof => XmlEvent::Eof,
    }
}

} // verus!
