//! # xml2abx
//!
//! Converts XML into ABX, a compact binary stream of tokens: one control
//! byte for each event of the document, names written once and referred to
//! by a two-byte index after, and the values of attributes in typed binary
//! form where their text leaves no doubt about the type.
//!
//! The library works in memory and performs no input or output. A
//! conversion appends the stream to a vector of bytes, and the warnings that
//! the document gives rise to to a vector of warnings:
//!
//! ```ignore
//! use xml2abx::XmlToAbxConverter;
//!
//! let mut output = Vec::new();
//! let mut warnings = Vec::new();
//! XmlToAbxConverter::convert_from_string(
//!     "<root><element attr=\"value\">text content</element></root>",
//!     &mut output,
//!     &parse_double,
//!     &mut warnings,
//! )
//! .unwrap();
//! ```
//!
//! The library holds no floating-point arithmetic: a double is its bits, and
//! the caller brings `parse_double`, the function that reads a decimal
//! number as a double and gives its bits, or nothing where the text is no
//! number.
//!
//! The modules, from the bytes up:
//!
//! - [`wire`]: big-endian scalars;
//! - [`output`]: the writer and its pool of strings;
//! - [`token`] and [`serializer`]: the tokens, and the emitter that writes
//!   them;
//! - [`type_detection`]: the form that the value of an attribute takes;
//! - [`event`]: the events of a document, and what a conversion makes of
//!   them;
//! - [`source`]: the XML reader;
//! - [`converter`]: the conversion itself;
//! - [`laws`], [`trace`], [`interning`] and [`rendering`]: what holds of
//!   every conversion.

pub mod converter;
pub mod error;
pub mod event;
pub mod interning;
pub mod laws;
pub mod output;
pub mod rendering;
pub mod serializer;
pub mod source;
pub mod text;
pub mod token;
pub mod trace;
pub mod type_detection;
pub mod wire;

pub use converter::XmlToAbxConverter;
pub use error::ConversionError;
pub use event::Warning;
pub use event::XmlAttribute;
pub use event::XmlEvent;
pub use output::FastDataOutput;
pub use serializer::BinaryXmlSerializer;
