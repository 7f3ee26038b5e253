//! What can end a conversion.

use quick_xml::events::attributes::AttrError;
use vstd::prelude::*;

verus! {

/// `quick_xml::Error`, the failure of the XML reader. Its contents are not
/// read here: the value is handed on to the caller as it came.
#[verifier::external_type_specification]
#[verifier::external_body]
pub struct ExXmlError(quick_xml::Error);

/// `quick_xml::events::attributes::AttrError`, the failure to read one
/// attribute of a tag. Handed on as it came.
#[verifier::external_type_specification]
#[verifier::external_body]
pub struct ExAttrError(AttrError);

/// `std::str::Utf8Error`, the failure of `std::str::from_utf8`. Handed on as
/// it came.
#[verifier::external_type_specification]
#[verifier::external_body]
pub struct ExUtf8Error(std::str::Utf8Error);

/// `std::io::Error`. The library performs no input or output itself; the
/// variant that holds this type is there for callers that do.
#[verifier::external_type_specification]
#[verifier::external_body]
pub struct ExIoError(std::io::Error);

/// Every failure is final for the conversion in which it happens: nothing is
/// retried, and the bytes written so far stay where they are.
#[derive(Debug)]
pub enum ConversionError {
    /// The XML reader could not make sense of the input.
    XmlParsing(quick_xml::Error),
    /// The sink refused bytes.
    Io(std::io::Error),
    /// A string takes more UTF-8 bytes than a length prefix can announce:
    /// its length, and the limit.
    StringTooLong(usize, usize),
    /// A blob is longer than a length prefix can announce: its length, and
    /// the limit.
    BinaryDataTooLong(usize, usize),
    /// A hexadecimal attribute value could not be read.
    InvalidHex,
    /// A base64 attribute value could not be read.
    InvalidBase64,
    /// A name or text of the document is not UTF-8.
    Utf8Error(std::str::Utf8Error),
    /// An attribute of a tag is malformed.
    AttrError(AttrError),
    /// The stream already interns as many distinct strings as it can index:
    /// the limit.
    StringPoolFull(usize),
}

/// A result that is not a failure is the one success there is.
pub proof fn lemma_success(result: Result<(), ConversionError>)
    requires
        result is Ok,
    ensures
        result == Ok::<(), ConversionError>(()),
{
    let unit = result->Ok_0;
    assert(unit == ());
}

} // verus!
