//! The token emitter: one call for each event of a document.

use crate::error::ConversionError;
use crate::output::FastDataOutput;
use crate::output::Stream;
use crate::output::Written;
use crate::token::instruction_text;
use crate::token::AttributeValue;
use crate::token::Document;
use crate::token::Emitted;
use crate::token::Token;
use vstd::prelude::*;
use vstd::string::StringExecFns;

verus! {

/// Writes a document as a stream of tokens. Every stream begins with the
/// four bytes of the protocol's magic number.
pub struct BinaryXmlSerializer {
    output: FastDataOutput,
    tag_names: Vec<String>,
    preserve_whitespace: bool,
}

impl View for BinaryXmlSerializer {
    type V = Document;

    closed spec fn view(&self) -> Document {
        Document { stream: self.output@, open_tags: self.tag_names@.map_values(|s: String| s@) }
    }
}

impl BinaryXmlSerializer {
    /// The four bytes that open every stream.
    pub const PROTOCOL_MAGIC_VERSION_0: [u8; 4] = [0x41, 0x42, 0x58, 0x00];

    /// The event codes, in the low half of the control byte.
    pub const START_DOCUMENT: u8 = 0;

    pub const END_DOCUMENT: u8 = 1;

    pub const START_TAG: u8 = 2;

    pub const END_TAG: u8 = 3;

    pub const TEXT: u8 = 4;

    pub const CDSECT: u8 = 5;

    pub const ENTITY_REF: u8 = 6;

    pub const IGNORABLE_WHITESPACE: u8 = 7;

    pub const PROCESSING_INSTRUCTION: u8 = 8;

    pub const COMMENT: u8 = 9;

    pub const DOCDECL: u8 = 10;

    pub const ATTRIBUTE: u8 = 15;

    /// The codes of the type of the value that follows, in the high half of
    /// the control byte. No value follows.
    pub const TYPE_NULL: u8 = 1 << 4;

    /// A string written out in place.
    pub const TYPE_STRING: u8 = 2 << 4;

    /// A string written through the pool.
    pub const TYPE_STRING_INTERNED: u8 = 3 << 4;

    /// Bytes, to be shown in hexadecimal.
    pub const TYPE_BYTES_HEX: u8 = 4 << 4;

    /// Bytes, to be shown in base64.
    pub const TYPE_BYTES_BASE64: u8 = 5 << 4;

    /// A 32-bit integer.
    pub const TYPE_INT: u8 = 6 << 4;

    /// A 32-bit integer, to be shown in hexadecimal.
    pub const TYPE_INT_HEX: u8 = 7 << 4;

    /// A 64-bit integer.
    pub const TYPE_LONG: u8 = 8 << 4;

    /// A 64-bit integer, to be shown in hexadecimal.
    pub const TYPE_LONG_HEX: u8 = 9 << 4;

    /// An IEEE-754 single.
    pub const TYPE_FLOAT: u8 = 10 << 4;

    /// An IEEE-754 double.
    pub const TYPE_DOUBLE: u8 = 11 << 4;

    /// The boolean `true`; no bytes follow.
    pub const TYPE_BOOLEAN_TRUE: u8 = 12 << 4;

    /// The boolean `false`; no bytes follow.
    pub const TYPE_BOOLEAN_FALSE: u8 = 13 << 4;

    /// The stream is well formed.
    pub closed spec fn wf(&self) -> bool {
        self.output.wf()
    }

    /// Whether whitespace between elements is kept.
    pub closed spec fn keeps_whitespace(&self) -> bool {
        self.preserve_whitespace
    }

    /// The magic number, as the bytes that open a stream.
    pub open spec fn magic() -> Seq<u8> {
        seq![0x41u8, 0x42u8, 0x58u8, 0x00u8]
    }

    /// A serializer that keeps whitespace.
    pub fn new(writer: Vec<u8>) -> (res: Result<Self, ConversionError>)
        ensures
            res matches Ok(serializer) && serializer.wf() && serializer.keeps_whitespace()
                && serializer@ == (Document {
                stream: Stream { bytes: writer@ + Self::magic(), pool: Seq::empty() },
                open_tags: Seq::empty(),
            }),
    {
        Self::with_options(writer, true)
    }

    /// A serializer that appends to `writer`: the magic number is written at
    /// once, no string is interned, and no tag is open.
    pub fn with_options(writer: Vec<u8>, preserve_whitespace: bool) -> (res: Result<
        Self,
        ConversionError,
    >)
        ensures
            res matches Ok(serializer) && serializer.wf() && serializer.keeps_whitespace()
                == preserve_whitespace && serializer@ == (Document {
                stream: Stream { bytes: writer@ + Self::magic(), pool: Seq::empty() },
                open_tags: Seq::empty(),
            }),
    {
        let mut output = FastDataOutput::new(writer);
        let magic = Self::PROTOCOL_MAGIC_VERSION_0;
        output.write_bytes(magic.as_slice())?;
        let serializer = BinaryXmlSerializer {
            output,
            tag_names: Vec::with_capacity(8),
            preserve_whitespace,
        };
        Ok(serializer)
    }

    /// Whether whitespace between elements is kept.
    pub fn preserve_whitespace(&self) -> (keeps: bool)
        ensures
            keeps == self.keeps_whitespace(),
    {
        self.preserve_whitespace
    }

    /// The bytes written so far.
    pub fn as_bytes(&self) -> (bytes: &Vec<u8>)
        ensures
            bytes@ == self@.stream.bytes,
    {
        self.output.as_bytes()
    }

    /// Gives the bytes back.
    pub fn into_inner(self) -> (bytes: Vec<u8>)
        ensures
            bytes@ == self@.stream.bytes,
    {
        self.output.into_inner()
    }

    /// Writes a token that is a control byte and, where there is text, a
    /// string.
    fn write_token(&mut self, token: u8, text: Option<&str>) -> (res: Result<(), ConversionError>)
        requires
            old(self).wf(),
        ensures
            final(self).wf(),
            final(self).keeps_whitespace() == old(self).keeps_whitespace(),
            final(self)@.open_tags == old(self)@.open_tags,
            (Written { stream: final(self)@.stream, result: res }) == (match text {
                Some(text) => old(self)@.stream.begin().byte(token | Self::TYPE_STRING).utf(text@),
                None => old(self)@.stream.begin().byte(token | Self::TYPE_NULL),
            }),
    {
        if let Some(text) = text {
            self.output.write_byte(token | Self::TYPE_STRING)?;
            self.output.write_utf(text)?;
        } else {
            self.output.write_byte(token | Self::TYPE_NULL)?;
        }
        Ok(())
    }

    /// Writes the token that starts a document.
    pub fn start_document(&mut self) -> (res: Result<(), ConversionError>)
        requires
            old(self).wf(),
        ensures
            final(self).wf(),
            final(self).keeps_whitespace() == old(self).keeps_whitespace(),
            (Emitted { document: final(self)@, result: res }) == old(self)@.emit(
                Token::StartDocument,
            ),
    {
        reveal(Document::emit);
        self.output.write_byte(Self::START_DOCUMENT | Self::TYPE_NULL)
    }

    /// Writes the token that ends a document.
    pub fn end_document(&mut self) -> (res: Result<(), ConversionError>)
        requires
            old(self).wf(),
        ensures
            final(self).wf(),
            final(self).keeps_whitespace() == old(self).keeps_whitespace(),
            (Emitted { document: final(self)@, result: res }) == old(self)@.emit(
                Token::EndDocument,
            ),
    {
        reveal(Document::emit);
        self.output.write_byte(Self::END_DOCUMENT | Self::TYPE_NULL)?;
        self.output.flush()
    }

    /// Opens a tag. Its name joins the record of open tags first, and stays
    /// there where the write fails.
    pub fn start_tag(&mut self, name: &str) -> (res: Result<(), ConversionError>)
        requires
            old(self).wf(),
        ensures
            final(self).wf(),
            final(self).keeps_whitespace() == old(self).keeps_whitespace(),
            (Emitted { document: final(self)@, result: res }) == old(self)@.emit(
                Token::StartTag(name@),
            ),
    {
        reveal(Document::emit);
        self.tag_names.push(String::from_str(name));
        self.output.write_byte(Self::START_TAG | Self::TYPE_STRING_INTERNED)?;
        self.output.write_interned_utf(name)
    }

    /// Closes the innermost open tag. The name is written as given: it is
    /// not held against the name under which the tag was opened.
    pub fn end_tag(&mut self, name: &str) -> (res: Result<(), ConversionError>)
        requires
            old(self).wf(),
        ensures
            final(self).wf(),
            final(self).keeps_whitespace() == old(self).keeps_whitespace(),
            (Emitted { document: final(self)@, result: res }) == old(self)@.emit(
                Token::EndTag(name@),
            ),
    {
        reveal(Document::emit);
        self.tag_names.pop();
        self.output.write_byte(Self::END_TAG | Self::TYPE_STRING_INTERNED)?;
        self.output.write_interned_utf(name)
    }

    /// Writes an attribute whose value is a string, written out in place.
    pub fn attribute(&mut self, name: &str, value: &str) -> (res: Result<(), ConversionError>)
        requires
            old(self).wf(),
        ensures
            final(self).wf(),
            final(self).keeps_whitespace() == old(self).keeps_whitespace(),
            (Emitted { document: final(self)@, result: res }) == old(self)@.emit(
                Token::Attribute(name@, AttributeValue::String(value@)),
            ),
    {
        reveal(Document::emit);
        self.output.write_byte(Self::ATTRIBUTE | Self::TYPE_STRING)?;
        self.output.write_interned_utf(name)?;
        self.output.write_utf(value)
    }

    /// Writes an attribute whose value is a string, written through the pool.
    pub fn attribute_interned(&mut self, name: &str, value: &str) -> (res: Result<
        (),
        ConversionError,
    >)
        requires
            old(self).wf(),
        ensures
            final(self).wf(),
            final(self).keeps_whitespace() == old(self).keeps_whitespace(),
            (Emitted { document: final(self)@, result: res }) == old(self)@.emit(
                Token::Attribute(name@, AttributeValue::Interned(value@)),
            ),
    {
        reveal(Document::emit);
        self.output.write_byte(Self::ATTRIBUTE | Self::TYPE_STRING_INTERNED)?;
        self.output.write_interned_utf(name)?;
        self.output.write_interned_utf(value)
    }

    /// The bytes go out as they are: that a reader shows them in hexadecimal
    /// is all that the code says.
    pub fn attribute_bytes_hex(&mut self, name: &str, value: &[u8]) -> (res: Result<
        (),
        ConversionError,
    >)
        requires
            old(self).wf(),
        ensures
            final(self).wf(),
            final(self).keeps_whitespace() == old(self).keeps_whitespace(),
            (Emitted { document: final(self)@, result: res }) == old(self)@.emit(
                Token::Attribute(name@, AttributeValue::BytesHex(value@)),
            ),
    {
        reveal(Document::emit);
        if value.len() > FastDataOutput::MAX_UNSIGNED_SHORT as usize {
            return Err(
                ConversionError::BinaryDataTooLong(
                    value.len(),
                    FastDataOutput::MAX_UNSIGNED_SHORT as usize,
                ),
            );
        }
        self.output.write_byte(Self::ATTRIBUTE | Self::TYPE_BYTES_HEX)?;
        self.output.write_interned_utf(name)?;
        self.output.write_short(value.len() as u16)?;
        self.output.write_bytes(value)
    }

    /// The bytes go out as they are: that a reader shows them in base64 is
    /// all that the code says.
    pub fn attribute_bytes_base64(&mut self, name: &str, value: &[u8]) -> (res: Result<
        (),
        ConversionError,
    >)
        requires
            old(self).wf(),
        ensures
            final(self).wf(),
            final(self).keeps_whitespace() == old(self).keeps_whitespace(),
            (Emitted { document: final(self)@, result: res }) == old(self)@.emit(
                Token::Attribute(name@, AttributeValue::BytesBase64(value@)),
            ),
    {
        reveal(Document::emit);
        if value.len() > FastDataOutput::MAX_UNSIGNED_SHORT as usize {
            return Err(
                ConversionError::BinaryDataTooLong(
                    value.len(),
                    FastDataOutput::MAX_UNSIGNED_SHORT as usize,
                ),
            );
        }
        self.output.write_byte(Self::ATTRIBUTE | Self::TYPE_BYTES_BASE64)?;
        self.output.write_interned_utf(name)?;
        self.output.write_short(value.len() as u16)?;
        self.output.write_bytes(value)
    }

    /// Writes an attribute whose value is a 32-bit integer.
    pub fn attribute_int(&mut self, name: &str, value: i32) -> (res: Result<(), ConversionError>)
        requires
            old(self).wf(),
        ensures
            final(self).wf(),
            final(self).keeps_whitespace() == old(self).keeps_whitespace(),
            (Emitted { document: final(self)@, result: res }) == old(self)@.emit(
                Token::Attribute(name@, AttributeValue::Int(value)),
            ),
    {
        reveal(Document::emit);
        self.output.write_byte(Self::ATTRIBUTE | Self::TYPE_INT)?;
        self.output.write_interned_utf(name)?;
        self.output.write_int(value)
    }

    /// Writes an attribute whose value is a 32-bit integer that a reader is to
    /// show in hexadecimal.
    pub fn attribute_int_hex(&mut self, name: &str, value: i32) -> (res: Result<
        (),
        ConversionError,
    >)
        requires
            old(self).wf(),
        ensures
            final(self).wf(),
            final(self).keeps_whitespace() == old(self).keeps_whitespace(),
            (Emitted { document: final(self)@, result: res }) == old(self)@.emit(
                Token::Attribute(name@, AttributeValue::IntHex(value)),
            ),
    {
        reveal(Document::emit);
        self.output.write_byte(Self::ATTRIBUTE | Self::TYPE_INT_HEX)?;
        self.output.write_interned_utf(name)?;
        self.output.write_int(value)
    }

    /// Writes an attribute whose value is a 64-bit integer.
    pub fn attribute_long(&mut self, name: &str, value: i64) -> (res: Result<(), ConversionError>)
        requires
            old(self).wf(),
        ensures
            final(self).wf(),
            final(self).keeps_whitespace() == old(self).keeps_whitespace(),
            (Emitted { document: final(self)@, result: res }) == old(self)@.emit(
                Token::Attribute(name@, AttributeValue::Long(value)),
            ),
    {
        reveal(Document::emit);
        self.output.write_byte(Self::ATTRIBUTE | Self::TYPE_LONG)?;
        self.output.write_interned_utf(name)?;
        self.output.write_long(value)
    }

    /// Writes an attribute whose value is a 64-bit integer that a reader is to
    /// show in hexadecimal.
    pub fn attribute_long_hex(&mut self, name: &str, value: i64) -> (res: Result<
        (),
        ConversionError,
    >)
        requires
            old(self).wf(),
        ensures
            final(self).wf(),
            final(self).keeps_whitespace() == old(self).keeps_whitespace(),
            (Emitted { document: final(self)@, result: res }) == old(self)@.emit(
                Token::Attribute(name@, AttributeValue::LongHex(value)),
            ),
    {
        reveal(Document::emit);
        self.output.write_byte(Self::ATTRIBUTE | Self::TYPE_LONG_HEX)?;
        self.output.write_interned_utf(name)?;
        self.output.write_long(value)
    }

    /// The value is the single whose IEEE-754 bits are `bits`.
    pub fn attribute_float(&mut self, name: &str, bits: u32) -> (res: Result<(), ConversionError>)
        requires
            old(self).wf(),
        ensures
            final(self).wf(),
            final(self).keeps_whitespace() == old(self).keeps_whitespace(),
            (Emitted { document: final(self)@, result: res }) == old(self)@.emit(
                Token::Attribute(name@, AttributeValue::Float(bits)),
            ),
    {
        reveal(Document::emit);
        self.output.write_byte(Self::ATTRIBUTE | Self::TYPE_FLOAT)?;
        self.output.write_interned_utf(name)?;
        self.output.write_float(bits)
    }

    /// The value is the double whose IEEE-754 bits are `bits`.
    pub fn attribute_double(&mut self, name: &str, bits: u64) -> (res: Result<(), ConversionError>)
        requires
            old(self).wf(),
        ensures
            final(self).wf(),
            final(self).keeps_whitespace() == old(self).keeps_whitespace(),
            (Emitted { document: final(self)@, result: res }) == old(self)@.emit(
                Token::Attribute(name@, AttributeValue::Double(bits)),
            ),
    {
        reveal(Document::emit);
        self.output.write_byte(Self::ATTRIBUTE | Self::TYPE_DOUBLE)?;
        self.output.write_interned_utf(name)?;
        self.output.write_double(bits)
    }

    /// The control byte holds the value; only the name follows it.
    pub fn attribute_boolean(&mut self, name: &str, value: bool) -> (res: Result<
        (),
        ConversionError,
    >)
        requires
            old(self).wf(),
        ensures
            final(self).wf(),
            final(self).keeps_whitespace() == old(self).keeps_whitespace(),
            (Emitted { document: final(self)@, result: res }) == old(self)@.emit(
                Token::Attribute(name@, AttributeValue::Boolean(value)),
            ),
    {
        reveal(Document::emit);
        let token = if value {
            Self::ATTRIBUTE | Self::TYPE_BOOLEAN_TRUE
        } else {
            Self::ATTRIBUTE | Self::TYPE_BOOLEAN_FALSE
        };
        self.output.write_byte(token)?;
        self.output.write_interned_utf(name)
    }

    /// Writes character data.
    pub fn text(&mut self, text: &str) -> (res: Result<(), ConversionError>)
        requires
            old(self).wf(),
        ensures
            final(self).wf(),
            final(self).keeps_whitespace() == old(self).keeps_whitespace(),
            (Emitted { document: final(self)@, result: res }) == old(self)@.emit(
                Token::Text(text@),
            ),
    {
        reveal(Document::emit);
        self.write_token(Self::TEXT, Some(text))
    }

    /// Writes a CDATA section.
    pub fn cdsect(&mut self, text: &str) -> (res: Result<(), ConversionError>)
        requires
            old(self).wf(),
        ensures
            final(self).wf(),
            final(self).keeps_whitespace() == old(self).keeps_whitespace(),
            (Emitted { document: final(self)@, result: res }) == old(self)@.emit(
                Token::CData(text@),
            ),
    {
        reveal(Document::emit);
        self.write_token(Self::CDSECT, Some(text))
    }

    /// Writes a comment.
    pub fn comment(&mut self, text: &str) -> (res: Result<(), ConversionError>)
        requires
            old(self).wf(),
        ensures
            final(self).wf(),
            final(self).keeps_whitespace() == old(self).keeps_whitespace(),
            (Emitted { document: final(self)@, result: res }) == old(self)@.emit(
                Token::Comment(text@),
            ),
    {
        reveal(Document::emit);
        self.write_token(Self::COMMENT, Some(text))
    }

    /// Writes the target and the data as one string, a single space between
    /// them; the target alone where there is no data or the data is empty.
    pub fn processing_instruction(&mut self, target: &str, data: Option<&str>) -> (res: Result<
        (),
        ConversionError,
    >)
        requires
            old(self).wf(),
        ensures
            final(self).wf(),
            final(self).keeps_whitespace() == old(self).keeps_whitespace(),
            (Emitted { document: final(self)@, result: res }) == old(self)@.emit(
                Token::ProcessingInstruction(
                    instruction_text(
                        target@,
                        match data {
                            Some(data) => Some(data@),
                            None => None,
                        },
                    ),
                ),
            ),
    {
        reveal(Document::emit);
        let mut full_pi = String::from_str(target);
        if let Some(data) = data {
            if !data.is_empty() {
                proof {
                    reveal_strlit(" ");
                }
                full_pi.append(" ");
                full_pi.append(data);
                assert(" "@ =~= seq![' ']);
            }
        }
        self.write_token(Self::PROCESSING_INSTRUCTION, Some(full_pi.as_str()))
    }

    /// Writes a document type declaration.
    pub fn docdecl(&mut self, text: &str) -> (res: Result<(), ConversionError>)
        requires
            old(self).wf(),
        ensures
            final(self).wf(),
            final(self).keeps_whitespace() == old(self).keeps_whitespace(),
            (Emitted { document: final(self)@, result: res }) == old(self)@.emit(
                Token::DocDecl(text@),
            ),
    {
        reveal(Document::emit);
        self.write_token(Self::DOCDECL, Some(text))
    }

    /// Writes white space that a reader may ignore.
    pub fn ignorable_whitespace(&mut self, text: &str) -> (res: Result<(), ConversionError>)
        requires
            old(self).wf(),
        ensures
            final(self).wf(),
            final(self).keeps_whitespace() == old(self).keeps_whitespace(),
            (Emitted { document: final(self)@, result: res }) == old(self)@.emit(
                Token::IgnorableWhitespace(text@),
            ),
    {
        reveal(Document::emit);
        self.write_token(Self::IGNORABLE_WHITESPACE, Some(text))
    }

    /// Writes a reference to an entity, by its name.
    pub fn entity_ref(&mut self, text: &str) -> (res: Result<(), ConversionError>)
        requires
            old(self).wf(),
        ensures
            final(self).wf(),
            final(self).keeps_whitespace() == old(self).keeps_whitespace(),
            (Emitted { document: final(self)@, result: res }) == old(self)@.emit(
                Token::EntityRef(text@),
            ),
    {
        reveal(Document::emit);
        self.write_token(Self::ENTITY_REF, Some(text))
    }

    /// How many tags are open.
    pub fn depth(&self) -> (depth: usize)
        ensures
            depth == self@.open_tags.len(),
    {
        self.tag_names.len()
    }
}

} // verus!
