//! The tokens of the stream: what each one is, and which bytes it becomes.

use crate::error::ConversionError;
use crate::output::FastDataOutput;
use crate::output::Stream;
use crate::output::Written;
use crate::serializer::BinaryXmlSerializer;
use vstd::prelude::*;

verus! {

/// The value of an attribute, in one of the forms that the stream knows.
pub enum AttributeValue {
    /// A string written out in place.
    String(Seq<char>),
    /// A string written through the pool.
    Interned(Seq<char>),
    /// Raw bytes that a reader is to show in hexadecimal.
    BytesHex(Seq<u8>),
    /// Raw bytes that a reader is to show in base64.
    BytesBase64(Seq<u8>),
    /// A 32-bit integer.
    Int(i32),
    /// An integer that a reader is to show in hexadecimal.
    IntHex(i32),
    /// A 64-bit integer.
    Long(i64),
    /// A long that a reader is to show in hexadecimal.
    LongHex(i64),
    /// A single, by its IEEE-754 bits.
    Float(u32),
    /// A double, by its IEEE-754 bits.
    Double(u64),
    /// A boolean. It takes no bytes of its own: the control byte holds it.
    Boolean(bool),
}

/// One token: a control byte and what follows it.
pub enum Token {
    /// The start of the document.
    StartDocument,
    /// The end of the document.
    EndDocument,
    /// A tag that opens an element, by its name.
    StartTag(Seq<char>),
    /// A tag that closes an element, by its name.
    EndTag(Seq<char>),
    /// A name and a value.
    Attribute(Seq<char>, AttributeValue),
    /// Character data.
    Text(Seq<char>),
    /// A CDATA section.
    CData(Seq<char>),
    /// A reference to an entity, by its name.
    EntityRef(Seq<char>),
    /// White space that a reader may ignore.
    IgnorableWhitespace(Seq<char>),
    /// A processing instruction: its target, and its data behind one space
    /// where it has any.
    ProcessingInstruction(Seq<char>),
    /// A comment.
    Comment(Seq<char>),
    /// A document type declaration.
    DocDecl(Seq<char>),
}

impl AttributeValue {
    /// The code of this form of value, in the high half of the control byte.
    pub open spec fn type_code(self) -> u8 {
        match self {
            AttributeValue::String(_) => BinaryXmlSerializer::TYPE_STRING,
            AttributeValue::Interned(_) => BinaryXmlSerializer::TYPE_STRING_INTERNED,
            AttributeValue::BytesHex(_) => BinaryXmlSerializer::TYPE_BYTES_HEX,
            AttributeValue::BytesBase64(_) => BinaryXmlSerializer::TYPE_BYTES_BASE64,
            AttributeValue::Int(_) => BinaryXmlSerializer::TYPE_INT,
            AttributeValue::IntHex(_) => BinaryXmlSerializer::TYPE_INT_HEX,
            AttributeValue::Long(_) => BinaryXmlSerializer::TYPE_LONG,
            AttributeValue::LongHex(_) => BinaryXmlSerializer::TYPE_LONG_HEX,
            AttributeValue::Float(_) => BinaryXmlSerializer::TYPE_FLOAT,
            AttributeValue::Double(_) => BinaryXmlSerializer::TYPE_DOUBLE,
            AttributeValue::Boolean(true) => BinaryXmlSerializer::TYPE_BOOLEAN_TRUE,
            AttributeValue::Boolean(false) => BinaryXmlSerializer::TYPE_BOOLEAN_FALSE,
        }
    }

    /// The length of the blob of a value that holds one; of any other, 0.
    pub open spec fn blob_len(self) -> nat {
        match self {
            AttributeValue::BytesHex(data) => data.len(),
            AttributeValue::BytesBase64(data) => data.len(),
            _ => 0,
        }
    }

    /// The value itself, behind the control byte and the attribute's name. A
    /// boolean takes no bytes: the control byte says it all.
    pub open spec fn payload(self, written: Written) -> Written {
        match self {
            AttributeValue::String(text) => written.utf(text),
            AttributeValue::Interned(text) => written.interned(text),
            AttributeValue::BytesHex(data) => written.short(data.len() as u16).raw(data),
            AttributeValue::BytesBase64(data) => written.short(data.len() as u16).raw(data),
            AttributeValue::Int(value) => written.int32(value),
            AttributeValue::IntHex(value) => written.int32(value),
            AttributeValue::Long(value) => written.int64(value),
            AttributeValue::LongHex(value) => written.int64(value),
            AttributeValue::Float(bits) => written.float_bits(bits),
            AttributeValue::Double(bits) => written.double_bits(bits),
            AttributeValue::Boolean(_) => written,
        }
    }
}

impl Token {
    /// The code of the event, in the low half of the control byte.
    pub open spec fn event_code(self) -> u8 {
        match self {
            Token::StartDocument => BinaryXmlSerializer::START_DOCUMENT,
            Token::EndDocument => BinaryXmlSerializer::END_DOCUMENT,
            Token::StartTag(_) => BinaryXmlSerializer::START_TAG,
            Token::EndTag(_) => BinaryXmlSerializer::END_TAG,
            Token::Attribute(_, _) => BinaryXmlSerializer::ATTRIBUTE,
            Token::Text(_) => BinaryXmlSerializer::TEXT,
            Token::CData(_) => BinaryXmlSerializer::CDSECT,
            Token::EntityRef(_) => BinaryXmlSerializer::ENTITY_REF,
            Token::IgnorableWhitespace(_) => BinaryXmlSerializer::IGNORABLE_WHITESPACE,
            Token::ProcessingInstruction(_) => BinaryXmlSerializer::PROCESSING_INSTRUCTION,
            Token::Comment(_) => BinaryXmlSerializer::COMMENT,
            Token::DocDecl(_) => BinaryXmlSerializer::DOCDECL,
        }
    }

    /// The code of the value that follows, in the high half of the control
    /// byte.
    pub open spec fn type_code(self) -> u8 {
        match self {
            Token::StartDocument | Token::EndDocument => BinaryXmlSerializer::TYPE_NULL,
            Token::StartTag(_) | Token::EndTag(_) => BinaryXmlSerializer::TYPE_STRING_INTERNED,
            Token::Attribute(_, value) => value.type_code(),
            _ => BinaryXmlSerializer::TYPE_STRING,
        }
    }

    /// The two codes in one byte. They share no bit.
    pub open spec fn control_byte(self) -> u8 {
        self.event_code() | self.type_code()
    }

    /// The text of a token that is a control byte and a string.
    pub open spec fn text(self) -> Option<Seq<char>> {
        match self {
            Token::Text(text) => Some(text),
            Token::CData(text) => Some(text),
            Token::EntityRef(text) => Some(text),
            Token::IgnorableWhitespace(text) => Some(text),
            Token::ProcessingInstruction(text) => Some(text),
            Token::Comment(text) => Some(text),
            Token::DocDecl(text) => Some(text),
            _ => None,
        }
    }
}

/// The two halves of a control byte do not touch: the event code is read
/// off its low four bits, and the code of the type off its high four bits.
pub proof fn lemma_control_byte_halves(token: Token)
    ensures
        token.control_byte() & 0x0F == token.event_code(),
        token.control_byte() & 0xF0 == token.type_code(),
{
    let event = token.event_code();
    let kind = token.type_code();
    assert(event <= 15);
    assert(event & 0xF0 == 0) by (bit_vector)
        requires
            event <= 15,
    ;
    assert(kind & 0x0F == 0) by {
        lemma_type_codes();
    }
    assert((event | kind) & 0x0F == event && (event | kind) & 0xF0 == kind) by (bit_vector)
        requires
            event & 0xF0 == 0,
            kind & 0x0F == 0,
    ;
}

/// No code of a type reaches into the low four bits.
proof fn lemma_type_codes()
    ensures
        BinaryXmlSerializer::TYPE_NULL & 0x0F == 0,
        BinaryXmlSerializer::TYPE_STRING & 0x0F == 0,
        BinaryXmlSerializer::TYPE_STRING_INTERNED & 0x0F == 0,
        BinaryXmlSerializer::TYPE_BYTES_HEX & 0x0F == 0,
        BinaryXmlSerializer::TYPE_BYTES_BASE64 & 0x0F == 0,
        BinaryXmlSerializer::TYPE_INT & 0x0F == 0,
        BinaryXmlSerializer::TYPE_INT_HEX & 0x0F == 0,
        BinaryXmlSerializer::TYPE_LONG & 0x0F == 0,
        BinaryXmlSerializer::TYPE_LONG_HEX & 0x0F == 0,
        BinaryXmlSerializer::TYPE_FLOAT & 0x0F == 0,
        BinaryXmlSerializer::TYPE_DOUBLE & 0x0F == 0,
        BinaryXmlSerializer::TYPE_BOOLEAN_TRUE & 0x0F == 0,
        BinaryXmlSerializer::TYPE_BOOLEAN_FALSE & 0x0F == 0,
{
    assert(BinaryXmlSerializer::TYPE_NULL & 0x0F == 0) by (bit_vector);
    assert(BinaryXmlSerializer::TYPE_STRING & 0x0F == 0) by (bit_vector);
    assert(BinaryXmlSerializer::TYPE_STRING_INTERNED & 0x0F == 0) by (bit_vector);
    assert(BinaryXmlSerializer::TYPE_BYTES_HEX & 0x0F == 0) by (bit_vector);
    assert(BinaryXmlSerializer::TYPE_BYTES_BASE64 & 0x0F == 0) by (bit_vector);
    assert(BinaryXmlSerializer::TYPE_INT & 0x0F == 0) by (bit_vector);
    assert(BinaryXmlSerializer::TYPE_INT_HEX & 0x0F == 0) by (bit_vector);
    assert(BinaryXmlSerializer::TYPE_LONG & 0x0F == 0) by (bit_vector);
    assert(BinaryXmlSerializer::TYPE_LONG_HEX & 0x0F == 0) by (bit_vector);
    assert(BinaryXmlSerializer::TYPE_FLOAT & 0x0F == 0) by (bit_vector);
    assert(BinaryXmlSerializer::TYPE_DOUBLE & 0x0F == 0) by (bit_vector);
    assert(BinaryXmlSerializer::TYPE_BOOLEAN_TRUE & 0x0F == 0) by (bit_vector);
    assert(BinaryXmlSerializer::TYPE_BOOLEAN_FALSE & 0x0F == 0) by (bit_vector);
}

/// What a serializer is, seen from outside: its stream, and the names of the
/// tags that are open, outermost first.
#[verifier::ext_equal]
pub struct Document {
    pub stream: Stream,
    pub open_tags: Seq<Seq<char>>,
}

/// A document together with the fate of the token last asked of it.
#[verifier::ext_equal]
pub struct Emitted {
    pub document: Document,
    pub result: Result<(), ConversionError>,
}

impl Document {
    /// What writing `token` does to the stream. A blob of more than 65535
    /// bytes fails before anything is written; every other token writes its
    /// control byte and goes on until a string fails or the token is
    /// complete.
    pub open spec fn written(self, token: Token) -> Written {
        let start = self.stream.begin();
        match token {
            Token::StartTag(name) | Token::EndTag(name) => start.byte(token.control_byte()).interned(
                name,
            ),
            Token::Attribute(name, value) => {
                if value.blob_len() > FastDataOutput::MAX_UNSIGNED_SHORT {
                    start.fail(
                        ConversionError::BinaryDataTooLong(
                            value.blob_len() as usize,
                            FastDataOutput::MAX_UNSIGNED_SHORT as usize,
                        ),
                    )
                } else {
                    value.payload(start.byte(token.control_byte()).interned(name))
                }
            },
            _ => match token.text() {
                Some(text) => start.byte(token.control_byte()).utf(text),
                None => start.byte(token.control_byte()),
            },
        }
    }

    /// What `token` does to the record of open tags: a start tag joins it, an
    /// end tag takes the innermost one off, whatever its name, and an end tag
    /// with no tag open leaves it empty.
    pub open spec fn tags_after(self, token: Token) -> Seq<Seq<char>> {
        match token {
            Token::StartTag(name) => self.open_tags.push(name),
            Token::EndTag(_) => if self.open_tags.len() > 0 {
                self.open_tags.drop_last()
            } else {
                self.open_tags
            },
            _ => self.open_tags,
        }
    }

    /// The document after `token` was asked of it, and whether it went well.
    /// The record of open tags changes even where the write fails.
    #[verifier::opaque]
    pub open spec fn emit(self, token: Token) -> Emitted {
        let written = self.written(token);
        Emitted {
            document: Document { stream: written.stream, open_tags: self.tags_after(token) },
            result: written.result,
        }
    }
}

/// The text of a processing instruction: the target, and the data behind a
/// single space where there is data and it is not empty.
pub open spec fn instruction_text(target: Seq<char>, data: Option<Seq<char>>) -> Seq<char> {
    match data {
        Some(data) => if data.len() == 0 {
            target
        } else {
            target + seq![' '] + data
        },
        None => target,
    }
}

} // verus!
