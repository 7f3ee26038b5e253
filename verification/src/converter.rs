//! The conversion: events in, tokens out.

use crate::error::lemma_success;
use crate::error::ConversionError;
use crate::event::declared_encoding_warning;
use crate::event::instruction_encoding_warning;
use crate::event::namespace_attribute_warning;
use crate::event::prefixed_element_warning;
use crate::event::has_prefix;
use crate::event::lemma_failed_attributes;
use crate::event::lemma_events_in_sequence;
use crate::event::lemma_failed_events;
use crate::event::lemma_one_more_event;
use crate::event::mentions_utf8;
use crate::event::warning_views;
use crate::event::Run;
use crate::event::Warning;
use crate::event::XmlAttribute;
use crate::event::XmlEvent;
use crate::output::Stream;
use crate::serializer::BinaryXmlSerializer;
use crate::source::next_event;
use crate::source::reader_from_bytes;
use crate::source::reader_from_str;
use crate::source::set_trim_text;
use crate::source::events_read;
use crate::source::parse_ending;
use crate::source::parsed_events;
use crate::source::source_of;
use crate::source::trims;
use crate::source::ReadEvent;
use crate::text::chars_of;
use crate::text::contains_char;
use crate::text::decode;
use crate::text::equals_chars;
use crate::text::find;
use crate::text::starts_with_chars;
use crate::token::Document;
use crate::token::Emitted;
use crate::token::Token;
use crate::type_detection::inferred;
use crate::type_detection::is_boolean;
use crate::type_detection::is_scientific_notation;
use crate::type_detection::is_whitespace_only;
use crate::type_detection::INTERNED_VALUE_LIMIT;
use quick_xml::events::attributes::AttrError;
use quick_xml::Reader;
use vstd::prelude::*;
use vstd::string::StringExecFns;
use vstd::string::StringSliceAdditionalSpecFns;

verus! {

fn prefixed_element(name: &str) -> (warning: Warning)
    ensures
        warning@ == prefixed_element_warning(name@),
{
    let mut details = String::from_str("Found prefixed element: ");
    details.append(name);
    Warning { feature: String::from_str("Namespaces and prefixes"), details: Some(details) }
}

fn namespace_attribute(name: &str) -> (warning: Warning)
    ensures
        warning@ == namespace_attribute_warning(name@),
{
    let mut details = String::from_str("Found namespace declaration or prefixed attribute: ");
    details.append(name);
    Warning { feature: String::from_str("Namespaces and prefixes"), details: Some(details) }
}

fn instruction_encoding(data: &str) -> (warning: Warning)
    ensures
        warning@ == instruction_encoding_warning(data@),
{
    let mut details = String::from_str("Found in declaration: ");
    details.append(data);
    Warning { feature: String::from_str("Non-UTF-8 encoding"), details: Some(details) }
}

fn declared_encoding(encoding: &str) -> (warning: Warning)
    ensures
        warning@ == declared_encoding_warning(encoding@),
{
    let mut details = String::from_str("Found encoding: ");
    details.append(encoding);
    Warning { feature: String::from_str("Non-UTF-8 encoding"), details: Some(details) }
}

/// Converts XML into the binary stream.
pub struct XmlToAbxConverter;

impl XmlToAbxConverter {
    /// Writes one attribute, its value in the form that its text calls for.
    /// `double` is what a number parser made of the value; it counts only for
    /// a value that holds an exponent marker.
    #[verifier::rlimit(40)]
    pub fn write_attribute(
        serializer: &mut BinaryXmlSerializer,
        name: &str,
        value: &str,
        double: Option<u64>,
    ) -> (res: Result<(), ConversionError>)
        requires
            old(serializer).wf(),
        ensures
            final(serializer).wf(),
            final(serializer).keeps_whitespace() == old(serializer).keeps_whitespace(),
            (Emitted { document: final(serializer)@, result: res }) == old(serializer)@.emit(
                Token::Attribute(name@, inferred(value@, double)),
            ),
    {
        if is_boolean(value) {
            let truth: [char; 4] = ['t', 'r', 'u', 'e'];
            let truthful = equals_chars(value, truth.as_slice());
            serializer.attribute_boolean(name, truthful)
        } else {
            let number = if is_scientific_notation(value) {
                double
            } else {
                None
            };
            match number {
                Some(bits) => serializer.attribute_double(name, bits),
                None => {
                    if value.as_bytes().len() < INTERNED_VALUE_LIMIT && !contains_char(value, ' ') {
                        serializer.attribute_interned(name, value)
                    } else {
                        serializer.attribute(name, value)
                    }
                },
            }
        }
    }

    /// Raises `warning`.
    fn warn(warnings: &mut Vec<Warning>, warning: Warning)
        ensures
            warning_views(final(warnings)@) == warning_views(old(warnings)@).push(warning@),
    {
        warnings.push(warning);
    }

    /// Writes one attribute of a tag, as read.
    #[verifier::rlimit(40)]
    fn write_read_attribute(
        serializer: &mut BinaryXmlSerializer,
        item: Result<XmlAttribute, AttrError>,
        warnings: &mut Vec<Warning>,
    ) -> (res: Result<(), ConversionError>)
        requires
            old(serializer).wf(),
        ensures
            final(serializer).wf(),
            final(serializer).keeps_whitespace() == old(serializer).keeps_whitespace(),
            Run::at(final(serializer)@, final(warnings)@, res) == Run::at(
                old(serializer)@,
                old(warnings)@,
                Ok(()),
            ).attribute(item),
    {
        let attribute = match item {
            Ok(attribute) => attribute,
            Err(error) => {
                return Err(ConversionError::AttrError(error));
            },
        };
        let key = decode(attribute.key.as_slice())?;
        let value = decode(attribute.value.as_slice())?;
        let xmlns: [char; 5] = ['x', 'm', 'l', 'n', 's'];
        proof {
            reveal_strlit("xmlns");
        }
        if starts_with_chars(key, xmlns.as_slice()) || contains_char(key, ':') {
            Self::warn(warnings, namespace_attribute(key));
        }
        Self::write_attribute(serializer, key, value, attribute.double)
    }

    /// Writes the attributes of a tag, in the order of the document, up to
    /// the first that fails.
    #[verifier::rlimit(40)]
    fn write_attributes(
        serializer: &mut BinaryXmlSerializer,
        attributes: Vec<Result<XmlAttribute, AttrError>>,
        warnings: &mut Vec<Warning>,
    ) -> (res: Result<(), ConversionError>)
        requires
            old(serializer).wf(),
        ensures
            final(serializer).wf(),
            final(serializer).keeps_whitespace() == old(serializer).keeps_whitespace(),
            Run::at(final(serializer)@, final(warnings)@, res) == Run::at(
                old(serializer)@,
                old(warnings)@,
                Ok(()),
            ).attributes(attributes@),
    {
        let ghost all = attributes@;
        let ghost start = Run::at(serializer@, warnings@, Ok(()));
        assert(all.skip(0) =~= all);
        for item in it: attributes
            invariant
                it.seq() == all,
                all == attributes@,
                start == Run::at(old(serializer)@, old(warnings)@, Ok(())),
                serializer.wf(),
                serializer.keeps_whitespace() == old(serializer).keeps_whitespace(),
                start.attributes(all) == Run::at(serializer@, warnings@, Ok(())).attributes(
                    all.skip(it.index() as int),
                ),
        {
            let ghost before = Run::at(serializer@, warnings@, Ok(()));
            let ghost rest = all.skip(it.index() + 1);
            assert(all.skip(it.index() as int).drop_first() =~= rest);
            let res = Self::write_read_attribute(serializer, item, warnings);
            if let Err(error) = res {
                proof {
                    lemma_failed_attributes(before.attribute(item), rest);
                }
                return Err(error);
            }
            proof {
                lemma_success(res);
            }
        }
        Ok(())
    }

    /// Writes a tag that opens an element, and its attributes; for a tag
    /// that closes itself, the end tag as well.
    #[verifier::rlimit(40)]
    fn write_element(
        serializer: &mut BinaryXmlSerializer,
        name: &[u8],
        attributes: Vec<Result<XmlAttribute, AttrError>>,
        closed: bool,
        warnings: &mut Vec<Warning>,
    ) -> (res: Result<(), ConversionError>)
        requires
            old(serializer).wf(),
        ensures
            final(serializer).wf(),
            final(serializer).keeps_whitespace() == old(serializer).keeps_whitespace(),
            Run::at(final(serializer)@, final(warnings)@, res) == Run::at(
                old(serializer)@,
                old(warnings)@,
                Ok(()),
            ).element(name@, attributes@, closed),
    {
        let ghost start = Run::at(serializer@, warnings@, Ok(()));
        let ghost items = attributes@;
        let name = decode(name)?;
        if contains_char(name, ':') {
            Self::warn(warnings, prefixed_element(name));
        }
        let ghost warned = start.warn_if(has_prefix(name@), prefixed_element_warning(name@));
        let ghost tagged = warned.token(Token::StartTag(name@));
        if let Err(error) = serializer.start_tag(name) {
            proof {
                lemma_failed_attributes(tagged, items);
            }
            return Err(error);
        }
        proof {
            lemma_success(tagged.result);
        }
        let ghost open = tagged.attributes(items);
        Self::write_attributes(serializer, attributes, warnings)?;
        proof {
            lemma_success(open.result);
        }
        if closed {
            serializer.end_tag(name)
        } else {
            Ok(())
        }
    }

    /// Writes what one event of a document calls for, and raises the
    /// warnings that it gives rise to. The end of the document calls for
    /// nothing.
    #[verifier::rlimit(40)]
    pub fn write_event(
        serializer: &mut BinaryXmlSerializer,
        event: XmlEvent,
        warnings: &mut Vec<Warning>,
    ) -> (res: Result<(), ConversionError>)
        requires
            old(serializer).wf(),
        ensures
            final(serializer).wf(),
            final(serializer).keeps_whitespace() == old(serializer).keeps_whitespace(),
            Run::at(final(serializer)@, final(warnings)@, res) == Run::at(
                old(serializer)@,
                old(warnings)@,
                Ok(()),
            ).event(event, old(serializer).keeps_whitespace()),
    {
        match event {
            XmlEvent::Start { name, attributes } => Self::write_element(
                serializer,
                name.as_slice(),
                attributes,
                false,
                warnings,
            ),
            XmlEvent::End { name } => {
                let name = decode(name.as_slice())?;
                serializer.end_tag(name)
            },
            XmlEvent::Empty { name, attributes } => Self::write_element(
                serializer,
                name.as_slice(),
                attributes,
                true,
                warnings,
            ),
            XmlEvent::Text { content } => {
                let text = decode(content.as_slice())?;
                if is_whitespace_only(text) {
                    if serializer.preserve_whitespace() {
                        serializer.ignorable_whitespace(text)
                    } else {
                        Ok(())
                    }
                } else {
                    serializer.text(text)
                }
            },
            XmlEvent::CData { content } => {
                let text = decode(content.as_slice())?;
                serializer.cdsect(text)
            },
            XmlEvent::Comment { content } => {
                let text = decode(content.as_slice())?;
                serializer.comment(text)
            },
            XmlEvent::Declaration { encoding } => {
                if let Some(encoding) = encoding {
                    let bytes = match encoding {
                        Ok(bytes) => bytes,
                        Err(error) => {
                            return Err(ConversionError::AttrError(error));
                        },
                    };
                    let encoding = decode(bytes.as_slice())?;
                    if !Self::names_utf8(encoding) {
                        Self::warn(warnings, declared_encoding(encoding));
                    }
                }
                Ok(())
            },
            XmlEvent::ProcessingInstruction { target, content } => {
                let target = decode(target.as_slice())?;
                let data = if content.is_empty() {
                    None
                } else {
                    Some(decode(content.as_slice())?)
                };
                if let Some(data) = data {
                    let xml: [char; 3] = ['x', 'm', 'l'];
                    let encoding: [char; 8] = ['e', 'n', 'c', 'o', 'd', 'i', 'n', 'g'];
                    proof {
                        reveal_strlit("xml");
                        reveal_strlit("encoding");
                        assert(xml@ =~= "xml"@);
                        assert(encoding@ =~= "encoding"@);
                    }
                    if equals_chars(target, xml.as_slice()) {
                        let chars = chars_of(data);
                        if find(chars.as_slice(), encoding.as_slice(), false) && !Self::names_utf8(
                            data,
                        ) {
                            Self::warn(warnings, instruction_encoding(data));
                        }
                    }
                }
                serializer.processing_instruction(target, data)
            },
            XmlEvent::DocType { content } => {
                let text = decode(content.as_slice())?;
                serializer.docdecl(text)
            },
            XmlEvent::EntityRef { name } => {
                let text = decode(name.as_slice())?;
                serializer.entity_ref(text)
            },
            XmlEvent::Eof => Ok(()),
        }
    }

    /// Converts a document given as text. White space between elements is
    /// kept.
    pub fn convert_from_string<F: Fn(&str) -> Option<u64>>(
        xml: &str,
        writer: &mut Vec<u8>,
        parse_double: &F,
        warnings: &mut Vec<Warning>,
    ) -> (res: Result<(), ConversionError>)
        requires
            forall|asked: &str| parse_double.requires((asked,)),
        ensures
            converts(
                Run::at(fresh_document(old(writer)@), old(warnings)@, Ok(())),
                xml.spec_bytes(),
                true,
                parse_double,
                final(writer)@,
                final(warnings)@,
                res,
            ),
    {
        Self::convert_from_string_with_options(xml, writer, true, parse_double, warnings)
    }

    /// Converts a document given as text: appends the stream to `writer` and
    /// the warnings to `warnings`. Where white space is not kept, the reader
    /// already drops it from both ends of every text.
    ///
    /// `parse_double` reads a number in scientific notation: it gives the
    /// IEEE-754 bits of the double that a text denotes, or nothing.
    ///
    /// The events of the document are those that the reader yields for the
    /// text. The stream is the magic number, the token that starts a
    /// document, what each event calls for, and the token that ends a
    /// document. A failure of the reader comes back as it is, behind the
    /// tokens of the events before it; a failure to write what an event calls
    /// for ends the conversion at that event. What was written before a
    /// failure stays.
    pub fn convert_from_string_with_options<F: Fn(&str) -> Option<u64>>(
        xml: &str,
        writer: &mut Vec<u8>,
        preserve_whitespace: bool,
        parse_double: &F,
        warnings: &mut Vec<Warning>,
    ) -> (res: Result<(), ConversionError>)
        requires
            forall|asked: &str| parse_double.requires((asked,)),
        ensures
            converts(
                Run::at(fresh_document(old(writer)@), old(warnings)@, Ok(())),
                xml.spec_bytes(),
                preserve_whitespace,
                parse_double,
                final(writer)@,
                final(warnings)@,
                res,
            ),
    {
        let mut reader = reader_from_str(xml);
        set_trim_text(&mut reader, !preserve_whitespace);
        Self::convert_reader_with_options(
            reader,
            writer,
            preserve_whitespace,
            parse_double,
            warnings,
        )
    }

    /// Converts a document given as bytes. White space between elements is
    /// kept.
    pub fn convert_from_reader<F: Fn(&str) -> Option<u64>>(
        input: &[u8],
        writer: &mut Vec<u8>,
        parse_double: &F,
        warnings: &mut Vec<Warning>,
    ) -> (res: Result<(), ConversionError>)
        requires
            forall|asked: &str| parse_double.requires((asked,)),
        ensures
            converts(
                Run::at(fresh_document(old(writer)@), old(warnings)@, Ok(())),
                input@,
                true,
                parse_double,
                final(writer)@,
                final(warnings)@,
                res,
            ),
    {
        Self::convert_from_reader_with_options(input, writer, true, parse_double, warnings)
    }

    /// Converts a document given as bytes. See
    /// `convert_from_string_with_options`.
    pub fn convert_from_reader_with_options<F: Fn(&str) -> Option<u64>>(
        input: &[u8],
        writer: &mut Vec<u8>,
        preserve_whitespace: bool,
        parse_double: &F,
        warnings: &mut Vec<Warning>,
    ) -> (res: Result<(), ConversionError>)
        requires
            forall|asked: &str| parse_double.requires((asked,)),
        ensures
            converts(
                Run::at(fresh_document(old(writer)@), old(warnings)@, Ok(())),
                input@,
                preserve_whitespace,
                parse_double,
                final(writer)@,
                final(warnings)@,
                res,
            ),
    {
        let mut reader = reader_from_bytes(input);
        set_trim_text(&mut reader, !preserve_whitespace);
        Self::convert_reader_with_options(
            reader,
            writer,
            preserve_whitespace,
            parse_double,
            warnings,
        )
    }

    /// Converts a document given as its events: appends the stream to
    /// `writer` and the warnings to `warnings`. The stream is the magic
    /// number, the token that starts a document, what each event calls for,
    /// and the token that ends a document; the first failure ends the
    /// conversion, and what was written before it stays.
    pub fn convert_from_events(
        events: Vec<XmlEvent>,
        writer: &mut Vec<u8>,
        preserve_whitespace: bool,
        warnings: &mut Vec<Warning>,
    ) -> (res: Result<(), ConversionError>)
        ensures
            ends_as(
                conversion(
                    Run::at(fresh_document(old(writer)@), old(warnings)@, Ok(())),
                    events@,
                    Ok(()),
                    preserve_whitespace,
                ),
                final(writer)@,
                final(warnings)@,
                res,
            ),
    {
        let mut sink: Vec<u8> = Vec::new();
        std::mem::swap(writer, &mut sink);
        let mut serializer = BinaryXmlSerializer::with_options(sink, preserve_whitespace)?;
        let res = Self::write_document(&mut serializer, events, warnings);
        *writer = serializer.into_inner();
        res
    }

    /// Writes a document: the token that starts it, what each of its events
    /// calls for, the token that ends it.
    #[verifier::rlimit(40)]
    fn write_document(
        serializer: &mut BinaryXmlSerializer,
        events: Vec<XmlEvent>,
        warnings: &mut Vec<Warning>,
    ) -> (res: Result<(), ConversionError>)
        requires
            old(serializer).wf(),
        ensures
            final(serializer).wf(),
            Run::at(final(serializer)@, final(warnings)@, res) == conversion(
                Run::at(old(serializer)@, old(warnings)@, Ok(())),
                events@,
                Ok(()),
                old(serializer).keeps_whitespace(),
            ),
    {
        let ghost all = events@;
        let ghost keep = serializer.keeps_whitespace();
        let ghost opened = Run::at(serializer@, warnings@, Ok(())).token(Token::StartDocument);
        if let Err(error) = serializer.start_document() {
            proof {
                lemma_failed_events(opened, all, keep);
            }
            return Err(error);
        }
        proof {
            lemma_success(opened.result);
        }
        for event in it: events
            invariant
                it.seq() == all,
                all == events@,
                keep == old(serializer).keeps_whitespace(),
                opened == Run::at(old(serializer)@, old(warnings)@, Ok(())).token(
                    Token::StartDocument,
                ),
                serializer.wf(),
                serializer.keeps_whitespace() == keep,
                opened.events(all.take(it.index() as int), keep) == Run::at(
                    serializer@,
                    warnings@,
                    Ok(()),
                ),
        {
            let ghost read = all.take(it.index() as int);
            proof {
                assert(all.take(it.index() + 1) =~= read.push(event));
                lemma_one_more_event(opened, read, event, keep);
            }
            let res = Self::write_event(serializer, event, warnings);
            if let Err(error) = res {
                proof {
                    let failed = opened.events(read.push(event), keep);
                    assert(all =~= read.push(event) + all.skip(it.index() + 1));
                    lemma_events_in_sequence(
                        opened,
                        read.push(event),
                        all.skip(it.index() + 1),
                        keep,
                    );
                    lemma_failed_events(failed, all.skip(it.index() + 1), keep);
                }
                return Err(error);
            }
            proof {
                lemma_success(res);
            }
        }
        assert(all.take(all.len() as int) =~= all);
        serializer.end_document()
    }

    /// Reads the document to its end and writes what each event calls for.
    fn convert_reader_with_options<F: Fn(&str) -> Option<u64>>(
        reader: Reader<&[u8]>,
        writer: &mut Vec<u8>,
        preserve_whitespace: bool,
        parse_double: &F,
        warnings: &mut Vec<Warning>,
    ) -> (res: Result<(), ConversionError>)
        requires
            forall|asked: &str| parse_double.requires((asked,)),
            trims(reader) == !preserve_whitespace,
            events_read(reader) == 0,
        ensures
            converts(
                Run::at(fresh_document(old(writer)@), old(warnings)@, Ok(())),
                source_of(reader),
                preserve_whitespace,
                parse_double,
                final(writer)@,
                final(warnings)@,
                res,
            ),
    {
        let mut reader = reader;
        let mut sink: Vec<u8> = Vec::new();
        std::mem::swap(writer, &mut sink);
        let mut serializer = BinaryXmlSerializer::with_options(sink, preserve_whitespace)?;
        let res = Self::convert_events(&mut reader, &mut serializer, parse_double, warnings);
        *writer = serializer.into_inner();
        res
    }

    /// The loop of the conversion: the start of the document, an event after
    /// the other up to the end of the input, the end of the document.
    #[verifier::rlimit(40)]
    fn convert_events<F: Fn(&str) -> Option<u64>>(
        reader: &mut Reader<&[u8]>,
        serializer: &mut BinaryXmlSerializer,
        parse_double: &F,
        warnings: &mut Vec<Warning>,
    ) -> (res: Result<(), ConversionError>)
        requires
            old(serializer).wf(),
            forall|asked: &str| parse_double.requires((asked,)),
            trims(*old(reader)) == !old(serializer).keeps_whitespace(),
            events_read(*old(reader)) == 0,
        ensures
            final(serializer).wf(),
            converts(
                Run::at(old(serializer)@, old(warnings)@, Ok(())),
                source_of(*old(reader)),
                old(serializer).keeps_whitespace(),
                parse_double,
                final(serializer)@.stream.bytes,
                final(warnings)@,
                res,
            ),
    {
        let ghost start = Run::at(serializer@, warnings@, Ok(()));
        let ghost keep = serializer.keeps_whitespace();
        let ghost input = source_of(*reader);
        let ghost parsed = parsed_events(input, !keep);
        let ghost ending = parse_ending(input, !keep);
        let ghost opened = start.token(Token::StartDocument);
        let ghost mut seen: Seq<XmlEvent> = Seq::empty();
        if let Err(error) = serializer.start_document() {
            proof {
                lemma_failed_events(opened, seen, keep);
                assert(tells(
                    start,
                    seen,
                    input,
                    keep,
                    parse_double,
                    serializer@.stream.bytes,
                    warnings@,
                    Err(error),
                ));
            }
            return Err(error);
        }
        proof {
            lemma_success(opened.result);
        }
        let mut buf: Vec<u8> = Vec::new();
        loop
            invariant
                start == Run::at(old(serializer)@, old(warnings)@, Ok(())),
                opened == start.token(Token::StartDocument),
                keep == old(serializer).keeps_whitespace(),
                input == source_of(*old(reader)),
                parsed == parsed_events(input, !keep),
                ending == parse_ending(input, !keep),
                source_of(*reader) == input,
                trims(*reader) == !keep,
                events_read(*reader) == seen.len(),
                serializer.wf(),
                serializer.keeps_whitespace() == keep,
                forall|asked: &str| parse_double.requires((asked,)),
                reads(seen, parsed, parse_double),
                opened.events(seen, keep) == Run::at(serializer@, warnings@, Ok(())),
            ensures
                serializer.wf(),
                serializer.keeps_whitespace() == keep,
                seen.len() == parsed.len(),
                ending is Ok,
                reads(seen, parsed, parse_double),
                opened.events(seen, keep) == Run::at(serializer@, warnings@, Ok(())),
            decreases parsed.len() - seen.len(),
        {
            let event = match next_event(reader, &mut buf, parse_double) {
                Ok(event) => event,
                Err(error) => {
                    proof {
                        assert(tells(
                            start,
                            seen,
                            input,
                            keep,
                            parse_double,
                            serializer@.stream.bytes,
                            warnings@,
                            Err(ConversionError::XmlParsing(error)),
                        ));
                    }
                    return Err(ConversionError::XmlParsing(error));
                },
            };
            if let XmlEvent::Eof = event {
                break ;
            }
            proof {
                lemma_one_more_event(opened, seen, event, keep);
                seen = seen.push(event);
            }
            let res = Self::write_event(serializer, event, warnings);
            if let Err(error) = res {
                proof {
                    assert(tells(
                        start,
                        seen,
                        input,
                        keep,
                        parse_double,
                        serializer@.stream.bytes,
                        warnings@,
                        Err(error),
                    ));
                }
                return Err(error);
            }
            proof {
                lemma_success(res);
            }
            buf.clear();
        }
        let res = serializer.end_document();
        proof {
            assert(tells(
                start,
                seen,
                input,
                keep,
                parse_double,
                serializer@.stream.bytes,
                warnings@,
                res,
            ));
        }
        res
    }

    /// Whether `text` names UTF-8, in any case.
    fn names_utf8(text: &str) -> (res: bool)
        ensures
            res == mentions_utf8(text@),
    {
        let utf8: [char; 5] = ['u', 't', 'f', '-', '8'];
        proof {
            reveal_strlit("utf-8");
            assert(utf8@ =~= "utf-8"@);
        }
        let chars = chars_of(text);
        find(chars.as_slice(), utf8.as_slice(), true)
    }
}

/// A document with nothing in it but the magic number, behind the bytes
/// that were there before.
pub open spec fn fresh_document(before: Seq<u8>) -> Document {
    Document {
        stream: Stream { bytes: before + BinaryXmlSerializer::magic(), pool: Seq::empty() },
        open_tags: Seq::empty(),
    }
}

/// The conversion of a document: the token that starts it, what each of its
/// events calls for, and, where the reader came to the end of the document,
/// the token that ends it; where the reader failed instead, its error.
pub open spec fn conversion(
    start: Run,
    events: Seq<XmlEvent>,
    ending: Result<(), quick_xml::Error>,
    keep_whitespace: bool,
) -> Run {
    let read = start.token(Token::StartDocument).events(events, keep_whitespace);
    match ending {
        Ok(_) => read.token(Token::EndDocument),
        Err(error) => read.fail(ConversionError::XmlParsing(error)),
    }
}

/// Whether `events` are events read off an input whose events are `parsed`:
/// the first of them, in their order, each with the doubles that `parse`
/// makes of the values of its attributes.
pub open spec fn reads<F: Fn(&str) -> Option<u64>>(
    events: Seq<XmlEvent>,
    parsed: Seq<ReadEvent>,
    parse: &F,
) -> bool {
    &&& events.len() <= parsed.len()
    &&& forall|i: int|
        0 <= i < events.len() ==> (#[trigger] events[i]).read_as(parsed[i], parse)
}

/// Whether the bytes, the warnings and the result are those of the
/// conversion of `events`, read off the document `input`. The events are
/// all the events of the document, or those up to the one at which the
/// conversion failed.
pub open spec fn tells<F: Fn(&str) -> Option<u64>>(
    start: Run,
    events: Seq<XmlEvent>,
    input: Seq<u8>,
    keep_whitespace: bool,
    parse: &F,
    bytes: Seq<u8>,
    warnings: Seq<Warning>,
    result: Result<(), ConversionError>,
) -> bool {
    let parsed = parsed_events(input, !keep_whitespace);
    let ending = parse_ending(input, !keep_whitespace);
    &&& reads(events, parsed, parse)
    &&& events.len() < parsed.len() ==> start.token(Token::StartDocument).events(
        events,
        keep_whitespace,
    ).result is Err
    &&& ends_as(conversion(start, events, ending, keep_whitespace), bytes, warnings, result)
}

/// Whether a conversion from `start` of the document `input` has led to
/// these bytes, these warnings and this result. The events of the document
/// are those that the reader yields for `input`, text trimmed where white
/// space is not kept, each with the doubles that `parse` makes of the
/// values of its attributes. The conversion is that of all of them, ended
/// as the reader ends, by the end of the input or by its error; or, where
/// the conversion of one of them fails, that of the events up to that one.
pub open spec fn converts<F: Fn(&str) -> Option<u64>>(
    start: Run,
    input: Seq<u8>,
    keep_whitespace: bool,
    parse: &F,
    bytes: Seq<u8>,
    warnings: Seq<Warning>,
    result: Result<(), ConversionError>,
) -> bool {
    exists|events: Seq<XmlEvent>| #[trigger]
        tells(start, events, input, keep_whitespace, parse, bytes, warnings, result)
}

/// Whether `run` ends with these bytes, these warnings and this result.
pub open spec fn ends_as(
    run: Run,
    bytes: Seq<u8>,
    warnings: Seq<Warning>,
    result: Result<(), ConversionError>,
) -> bool {
    &&& run.document.stream.bytes == bytes
    &&& run.warnings == warning_views(warnings)
    &&& run.result == result
}

} // verus!
