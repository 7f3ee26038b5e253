//! A document as a sequence of events, and what a conversion makes of each.

use crate::error::ConversionError;
use crate::text::occurs;
use crate::text::text_of;
use crate::token::instruction_text;
use crate::token::Document;
use crate::token::Token;
use crate::type_detection::inferred;
use crate::type_detection::whitespace_only;
use quick_xml::events::attributes::AttrError;
use vstd::prelude::*;

verus! {

/// One attribute of a tag, as read.
#[derive(Debug, Clone, PartialEq, Eq)]
pub struct XmlAttribute {
    /// The name, as written.
    pub key: Vec<u8>,
    /// The value, without its quotes.
    pub value: Vec<u8>,
    /// What a number parser made of the value: the IEEE-754 bits of the
    /// double that it denotes. It counts only for a value that holds an
    /// exponent marker.
    pub double: Option<u64>,
}

/// One event of a document, as read: names and text are bytes still, and an
/// attribute that could not be read stands where it was met.
#[derive(Debug, Clone, PartialEq, Eq)]
pub enum XmlEvent {
    /// `<tag attr="value">`
    Start { name: Vec<u8>, attributes: Vec<Result<XmlAttribute, AttrError>> },
    /// `</tag>`
    End { name: Vec<u8> },
    /// `<tag attr="value"/>`
    Empty { name: Vec<u8>, attributes: Vec<Result<XmlAttribute, AttrError>> },
    /// Character data between tags.
    Text { content: Vec<u8> },
    /// `<![CDATA[...]]>`
    CData { content: Vec<u8> },
    /// `<!-- ... -->`
    Comment { content: Vec<u8> },
    /// `<?xml ...?>`, with the encoding that it declares, if any.
    Declaration { encoding: Option<Result<Vec<u8>, AttrError>> },
    /// `<?target content?>`
    ProcessingInstruction { target: Vec<u8>, content: Vec<u8> },
    /// `<!DOCTYPE ...>`
    DocType { content: Vec<u8> },
    /// `&name;`
    EntityRef { name: Vec<u8> },
    /// The end of the document.
    Eof,
}

/// A notice of something in the document that the stream cannot keep. It
/// changes nothing of what is written.
#[derive(Debug, Clone, PartialEq, Eq)]
pub struct Warning {
    /// The feature, in a few words.
    pub feature: String,
    /// Where it was met.
    pub details: Option<String>,
}

/// A warning, its strings as sequences of characters.
pub struct WarningView {
    pub feature: Seq<char>,
    pub details: Option<Seq<char>>,
}

impl View for Warning {
    type V = WarningView;

    open spec fn view(&self) -> WarningView {
        WarningView {
            feature: self.feature@,
            details: match self.details {
                Some(details) => Some(details@),
                None => None,
            },
        }
    }
}

/// The warnings, each as its view.
pub open spec fn warning_views(warnings: Seq<Warning>) -> Seq<WarningView> {
    warnings.map_values(|w: Warning| w@)
}

/// Whether a name is written with a prefix.
pub open spec fn has_prefix(name: Seq<char>) -> bool {
    name.contains(':')
}

/// Whether an attribute declares a namespace or is written with a prefix.
pub open spec fn is_namespace_attribute(name: Seq<char>) -> bool {
    "xmlns"@.is_prefix_of(name) || name.contains(':')
}

/// Whether `text` names UTF-8, in any case.
pub open spec fn mentions_utf8(text: Seq<char>) -> bool {
    occurs(text, "utf-8"@, true)
}

/// Whether a processing instruction declares an encoding other than UTF-8.
pub open spec fn declares_other_encoding(target: Seq<char>, data: Option<Seq<char>>) -> bool {
    &&& target == "xml"@
    &&& data matches Some(data)
    &&& occurs(data, "encoding"@, false)
    &&& !mentions_utf8(data)
}

/// The warning that a tag with a prefix in its name raises.
pub open spec fn prefixed_element_warning(name: Seq<char>) -> WarningView {
    WarningView {
        feature: "Namespaces and prefixes"@,
        details: Some("Found prefixed element: "@ + name),
    }
}

/// The warning that an attribute raises that declares a namespace or has a
/// prefix in its name.
pub open spec fn namespace_attribute_warning(name: Seq<char>) -> WarningView {
    WarningView {
        feature: "Namespaces and prefixes"@,
        details: Some("Found namespace declaration or prefixed attribute: "@ + name),
    }
}

/// The warning that a processing instruction raises that declares an
/// encoding other than UTF-8.
pub open spec fn instruction_encoding_warning(data: Seq<char>) -> WarningView {
    WarningView { feature: "Non-UTF-8 encoding"@, details: Some("Found in declaration: "@ + data) }
}

/// The warning that an XML declaration raises that declares an encoding
/// other than UTF-8.
pub open spec fn declared_encoding_warning(encoding: Seq<char>) -> WarningView {
    WarningView { feature: "Non-UTF-8 encoding"@, details: Some("Found encoding: "@ + encoding) }
}

/// A conversion under way: the document as written so far, the warnings
/// raised so far, and whether it still goes on. Steps chain: once one has
/// failed, those that follow change nothing.
#[verifier::ext_equal]
pub struct Run {
    pub document: Document,
    pub warnings: Seq<WarningView>,
    pub result: Result<(), ConversionError>,
}

impl Run {
    /// A conversion that has come to this document and these warnings, with
    /// this result.
    pub open spec fn at(
        document: Document,
        warnings: Seq<Warning>,
        result: Result<(), ConversionError>,
    ) -> Run {
        Run { document, warnings: warning_views(warnings), result }
    }

    /// The conversion ends with `error`.
    pub open spec fn fail(self, error: ConversionError) -> Run {
        if self.result is Ok {
            Run { document: self.document, warnings: self.warnings, result: Err(error) }
        } else {
            self
        }
    }

    /// A warning is raised.
    pub open spec fn warn(self, warning: WarningView) -> Run {
        if self.result is Ok {
            Run {
                document: self.document,
                warnings: self.warnings.push(warning),
                result: self.result,
            }
        } else {
            self
        }
    }

    /// A warning is raised where `condition` holds.
    pub open spec fn warn_if(self, condition: bool, warning: WarningView) -> Run {
        if condition {
            self.warn(warning)
        } else {
            self
        }
    }

    /// A token is written. Where the write fails, the conversion ends with
    /// its error, and what was written of the token stays.
    pub open spec fn token(self, token: Token) -> Run {
        if self.result is Ok {
            let emitted = self.document.emit(token);
            Run { document: emitted.document, warnings: self.warnings, result: emitted.result }
        } else {
            self
        }
    }

    /// A token whose text is `bytes`; where they are not UTF-8, the failure
    /// to read them.
    pub open spec fn text_token(self, bytes: Seq<u8>, token: spec_fn(Seq<char>) -> Token) -> Run {
        match text_of(bytes) {
            Ok(text) => self.token(token(text)),
            Err(error) => self.fail(error),
        }
    }

    /// One attribute: a warning where its name has to do with namespaces, and
    /// its token, the value in the form that its text calls for.
    pub open spec fn attribute(self, item: Result<XmlAttribute, AttrError>) -> Run {
        match item {
            Err(error) => self.fail(ConversionError::AttrError(error)),
            Ok(attribute) => match text_of(attribute.key@) {
                Err(error) => self.fail(error),
                Ok(key) => match text_of(attribute.value@) {
                    Err(error) => self.fail(error),
                    Ok(value) => self.warn_if(
                        is_namespace_attribute(key),
                        namespace_attribute_warning(key),
                    ).token(Token::Attribute(key, inferred(value, attribute.double))),
                },
            },
        }
    }

    /// The attributes of a tag, in the order of the document.
    pub open spec fn attributes(self, items: Seq<Result<XmlAttribute, AttrError>>) -> Run
        decreases items.len(),
    {
        if items.len() == 0 {
            self
        } else {
            self.attribute(items[0]).attributes(items.drop_first())
        }
    }

    /// A tag that opens an element: a warning where its name has a prefix,
    /// the start tag, and the attributes; for a tag that closes itself, the
    /// end tag behind them.
    pub open spec fn element(
        self,
        name: Seq<u8>,
        attributes: Seq<Result<XmlAttribute, AttrError>>,
        closed: bool,
    ) -> Run {
        match text_of(name) {
            Err(error) => self.fail(error),
            Ok(name) => {
                let open = self.warn_if(has_prefix(name), prefixed_element_warning(name)).token(
                    Token::StartTag(name),
                ).attributes(attributes);
                if closed {
                    open.token(Token::EndTag(name))
                } else {
                    open
                }
            },
        }
    }

    /// Character data: text of white space alone is a token of its own kind
    /// where white space is kept, and nothing where it is not.
    pub open spec fn character_data(self, content: Seq<u8>, keep_whitespace: bool) -> Run {
        match text_of(content) {
            Err(error) => self.fail(error),
            Ok(text) => if whitespace_only(text) {
                if keep_whitespace {
                    self.token(Token::IgnorableWhitespace(text))
                } else {
                    self
                }
            } else {
                self.token(Token::Text(text))
            },
        }
    }

    /// A processing instruction: a target, and data where the content is not
    /// empty.
    pub open spec fn instruction(self, target: Seq<u8>, content: Seq<u8>) -> Run {
        match text_of(target) {
            Err(error) => self.fail(error),
            Ok(target) => if content.len() == 0 {
                self.token(Token::ProcessingInstruction(instruction_text(target, None)))
            } else {
                match text_of(content) {
                    Err(error) => self.fail(error),
                    Ok(data) => self.warn_if(
                        declares_other_encoding(target, Some(data)),
                        instruction_encoding_warning(data),
                    ).token(Token::ProcessingInstruction(instruction_text(target, Some(data)))),
                }
            },
        }
    }

    /// The XML declaration: no token; a warning where it declares an
    /// encoding that is not UTF-8.
    pub open spec fn declaration(self, encoding: Option<Result<Vec<u8>, AttrError>>) -> Run {
        match encoding {
            None => self,
            Some(Err(error)) => self.fail(ConversionError::AttrError(error)),
            Some(Ok(bytes)) => match text_of(bytes@) {
                Err(error) => self.fail(error),
                Ok(encoding) => self.warn_if(
                    !mentions_utf8(encoding),
                    declared_encoding_warning(encoding),
                ),
            },
        }
    }

    /// What one event does to the conversion.
    pub open spec fn event(self, event: XmlEvent, keep_whitespace: bool) -> Run {
        match event {
            XmlEvent::Start { name, attributes } => self.element(name@, attributes@, false),
            XmlEvent::End { name } => self.text_token(name@, |text: Seq<char>| Token::EndTag(text)),
            XmlEvent::Empty { name, attributes } => self.element(name@, attributes@, true),
            XmlEvent::Text { content } => self.character_data(content@, keep_whitespace),
            XmlEvent::CData { content } => self.text_token(
                content@,
                |text: Seq<char>| Token::CData(text),
            ),
            XmlEvent::Comment { content } => self.text_token(
                content@,
                |text: Seq<char>| Token::Comment(text),
            ),
            XmlEvent::Declaration { encoding } => self.declaration(encoding),
            XmlEvent::ProcessingInstruction { target, content } => self.instruction(
                target@,
                content@,
            ),
            XmlEvent::DocType { content } => self.text_token(
                content@,
                |text: Seq<char>| Token::DocDecl(text),
            ),
            XmlEvent::EntityRef { name } => self.text_token(
                name@,
                |text: Seq<char>| Token::EntityRef(text),
            ),
            XmlEvent::Eof => self,
        }
    }

    /// What a sequence of events does to the conversion, one after the other.
    pub open spec fn events(self, events: Seq<XmlEvent>, keep_whitespace: bool) -> Run
        decreases events.len(),
    {
        if events.len() == 0 {
            self
        } else {
            self.events(events.drop_last(), keep_whitespace).event(events.last(), keep_whitespace)
        }
    }
}

/// Reading one sequence of events after another is reading the two as one.
pub proof fn lemma_events_in_sequence(
    run: Run,
    first: Seq<XmlEvent>,
    second: Seq<XmlEvent>,
    keep_whitespace: bool,
)
    ensures
        run.events(first + second, keep_whitespace) == run.events(first, keep_whitespace).events(
            second,
            keep_whitespace,
        ),
    decreases second.len(),
{
    if second.len() == 0 {
        assert(first + second =~= first);
    } else {
        assert((first + second).drop_last() =~= first + second.drop_last());
        assert((first + second).last() == second.last());
        lemma_events_in_sequence(run, first, second.drop_last(), keep_whitespace);
    }
}

/// Reading one more event is reading the events before it, and it.
pub proof fn lemma_one_more_event(
    run: Run,
    events: Seq<XmlEvent>,
    event: XmlEvent,
    keep_whitespace: bool,
)
    ensures
        run.events(events.push(event), keep_whitespace) == run.events(
            events,
            keep_whitespace,
        ).event(event, keep_whitespace),
{
    assert(events.push(event).drop_last() =~= events);
}

/// Once a conversion has failed, the events that remain change nothing.
pub proof fn lemma_failed_events(run: Run, events: Seq<XmlEvent>, keep_whitespace: bool)
    requires
        run.result is Err,
    ensures
        run.events(events, keep_whitespace) == run,
    decreases events.len(),
{
    if events.len() > 0 {
        lemma_failed_events(run, events.drop_last(), keep_whitespace);
        lemma_failed_attributes(run, seq![]);
        match events.last() {
            XmlEvent::Start { name, attributes } => {
                lemma_failed_attributes(run, attributes@);
            },
            XmlEvent::Empty { name, attributes } => {
                lemma_failed_attributes(run, attributes@);
            },
            _ => {},
        }
    }
}

/// Once a conversion has failed, the attributes that remain change nothing.
pub proof fn lemma_failed_attributes(run: Run, items: Seq<Result<XmlAttribute, AttrError>>)
    requires
        run.result is Err,
    ensures
        run.attributes(items) == run,
    decreases items.len(),
{
    if items.len() > 0 {
        lemma_failed_attributes(run.attribute(items[0]), items.drop_first());
    }
}

} // verus!
