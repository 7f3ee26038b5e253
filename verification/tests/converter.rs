use xml2abx::ConversionError;
use xml2abx::Warning;
use xml2abx::XmlToAbxConverter;

fn parse_double(text: &str) -> Option<u64> {
    text.parse::<f64>().ok().map(f64::to_bits)
}

struct Converted {
    bytes: Vec<u8>,
    warnings: Vec<Warning>,
    result: Result<(), ConversionError>,
}

fn convert_with(xml: &str, preserve_whitespace: bool) -> Converted {
    let mut bytes = Vec::new();
    let mut warnings = Vec::new();
    let result = XmlToAbxConverter::convert_from_string_with_options(
        xml,
        &mut bytes,
        preserve_whitespace,
        &parse_double,
        &mut warnings,
    );
    Converted { bytes, warnings, result }
}

fn convert(xml: &str) -> Converted {
    let mut bytes = Vec::new();
    let mut warnings = Vec::new();
    let result =
        XmlToAbxConverter::convert_from_string(xml, &mut bytes, &parse_double, &mut warnings);
    Converted { bytes, warnings, result }
}

fn convert_bytes(input: &[u8]) -> Converted {
    let mut bytes = Vec::new();
    let mut warnings = Vec::new();
    let result =
        XmlToAbxConverter::convert_from_reader(input, &mut bytes, &parse_double, &mut warnings);
    Converted { bytes, warnings, result }
}

/// The tokens of a conversion that went well, without the magic number and
/// the tokens that start and end the document.
fn body(converted: &Converted) -> Vec<u8> {
    assert!(converted.result.is_ok());
    let bytes = &converted.bytes;
    assert_eq!(&bytes[..5], &[0x41, 0x42, 0x58, 0x00, 0x10]);
    assert_eq!(bytes[bytes.len() - 1], 0x11);
    bytes[5..bytes.len() - 1].to_vec()
}

fn details(warning: &Warning) -> &str {
    match &warning.details {
        Some(details) => details,
        None => "",
    }
}

#[test]
fn empty_document_is_a_start_and_an_end() {
    let converted = convert("");
    assert!(converted.result.is_ok());
    assert_eq!(converted.bytes, vec![0x41, 0x42, 0x58, 0x00, 0x10, 0x11]);
    assert!(converted.warnings.is_empty());
}

#[test]
fn element_with_text() {
    let converted = convert("<a>x</a>");
    assert_eq!(
        converted.bytes,
        vec![
            0x41, 0x42, 0x58, 0x00, 0x10, 0x32, 0xFF, 0xFF, 0x00, 0x01, 0x61, 0x24, 0x00, 0x01,
            0x78, 0x33, 0x00, 0x00, 0x11
        ]
    );
    assert!(converted.result.is_ok());
}

#[test]
fn element_with_a_double_attribute_and_text() {
    let converted = convert("<a b=\"1e10\">x</a>");
    assert_eq!(
        body(&converted),
        vec![
            0x32, 0xFF, 0xFF, 0x00, 0x01, 0x61, 0xBF, 0xFF, 0xFF, 0x00, 0x01, 0x62, 0x42, 0x02,
            0xA0, 0x5F, 0x20, 0x00, 0x00, 0x00, 0x24, 0x00, 0x01, 0x78, 0x33, 0x00, 0x00
        ]
    );
}

#[test]
fn every_element_has_a_start_tag_and_an_end_tag() {
    // Three elements: r, a and b. Their names join the pool as 0, 1 and 2.
    let converted = convert("<r><a/><b></b></r>");
    assert_eq!(
        body(&converted),
        vec![
            0x32, 0xFF, 0xFF, 0x00, 0x01, 0x72, // <r>
            0x32, 0xFF, 0xFF, 0x00, 0x01, 0x61, // <a
            0x33, 0x00, 0x01, // />
            0x32, 0xFF, 0xFF, 0x00, 0x01, 0x62, // <b>
            0x33, 0x00, 0x02, // </b>
            0x33, 0x00, 0x00, // </r>
        ]
    );
    let starts = body(&converted).iter().filter(|b| **b == 0x32).count();
    let ends = body(&converted).iter().filter(|b| **b == 0x33).count();
    assert_eq!(starts, 3);
    assert_eq!(ends, 3);
}

#[test]
fn repeated_name_is_written_out_once_and_referred_to_after() {
    // The string "a" comes five times: as the name of two elements, of
    // their end tags, and as the name and the value of an attribute.
    let converted = convert("<a><a a=\"a\"/></a>");
    assert_eq!(
        body(&converted),
        vec![
            0x32, 0xFF, 0xFF, 0x00, 0x01, 0x61, // <a>, written out
            0x32, 0x00, 0x00, // <a
            0x3F, 0x00, 0x00, 0x00, 0x00, // a="a"
            0x33, 0x00, 0x00, // />
            0x33, 0x00, 0x00, // </a>
        ]
    );
}

#[test]
fn attributes_come_in_the_order_of_the_document() {
    let converted = convert("<e z=\"1\" y=\"2\" x=\"3\"/>");
    assert_eq!(
        body(&converted),
        vec![
            0x32, 0xFF, 0xFF, 0x00, 0x01, 0x65, // <e
            0x3F, 0xFF, 0xFF, 0x00, 0x01, 0x7A, 0xFF, 0xFF, 0x00, 0x01, 0x31, // z="1"
            0x3F, 0xFF, 0xFF, 0x00, 0x01, 0x79, 0xFF, 0xFF, 0x00, 0x01, 0x32, // y="2"
            0x3F, 0xFF, 0xFF, 0x00, 0x01, 0x78, 0xFF, 0xFF, 0x00, 0x01, 0x33, // x="3"
            0x33, 0x00, 0x00, // />
        ]
    );
}

#[test]
fn boolean_attributes() {
    let converted = convert("<e t=\"true\" f=\"false\" c=\"True\"/>");
    assert_eq!(
        body(&converted),
        vec![
            0x32, 0xFF, 0xFF, 0x00, 0x01, 0x65, // <e
            0xCF, 0xFF, 0xFF, 0x00, 0x01, 0x74, // t="true"
            0xDF, 0xFF, 0xFF, 0x00, 0x01, 0x66, // f="false"
            0x3F, 0xFF, 0xFF, 0x00, 0x01, 0x63, 0xFF, 0xFF, 0x00, 0x04, 0x54, 0x72, 0x75,
            0x65, // c="True"
            0x33, 0x00, 0x00, // />
        ]
    );
}

#[test]
fn number_attributes() {
    let converted = convert("<e v=\"1e10\" w=\"10e\"/>");
    assert_eq!(
        body(&converted),
        vec![
            0x32, 0xFF, 0xFF, 0x00, 0x01, 0x65, // <e
            0xBF, 0xFF, 0xFF, 0x00, 0x01, 0x76, 0x42, 0x02, 0xA0, 0x5F, 0x20, 0x00, 0x00,
            0x00, // v="1e10"
            0x3F, 0xFF, 0xFF, 0x00, 0x01, 0x77, 0xFF, 0xFF, 0x00, 0x03, 0x31, 0x30,
            0x65, // w="10e"
            0x33, 0x00, 0x00, // />
        ]
    );
}

#[test]
fn long_and_spaced_values_are_written_out() {
    let short = "b".repeat(49);
    let long = "b".repeat(50);
    let xml = format!("<e s=\"{}\" l=\"{}\" w=\"nine char\"/>", short, long);
    let converted = convert(&xml);
    let mut expected = vec![0x32, 0xFF, 0xFF, 0x00, 0x01, 0x65];
    expected.extend_from_slice(&[0x3F, 0xFF, 0xFF, 0x00, 0x01, 0x73, 0xFF, 0xFF, 0x00, 49]);
    expected.extend_from_slice(short.as_bytes());
    expected.extend_from_slice(&[0x2F, 0xFF, 0xFF, 0x00, 0x01, 0x6C, 0x00, 50]);
    expected.extend_from_slice(long.as_bytes());
    expected.extend_from_slice(&[0x2F, 0xFF, 0xFF, 0x00, 0x01, 0x77, 0x00, 9]);
    expected.extend_from_slice(b"nine char");
    expected.extend_from_slice(&[0x33, 0x00, 0x00]);
    assert_eq!(body(&converted), expected);
}

#[test]
fn whitespace_between_elements_is_kept_on_request() {
    let converted = convert_with("<r><a/> <b/></r>", true);
    assert_eq!(
        body(&converted),
        vec![
            0x32, 0xFF, 0xFF, 0x00, 0x01, 0x72, // <r>
            0x32, 0xFF, 0xFF, 0x00, 0x01, 0x61, 0x33, 0x00, 0x01, // <a/>
            0x27, 0x00, 0x01, 0x20, // the space
            0x32, 0xFF, 0xFF, 0x00, 0x01, 0x62, 0x33, 0x00, 0x02, // <b/>
            0x33, 0x00, 0x00, // </r>
        ]
    );
}

#[test]
fn whitespace_between_elements_is_dropped_otherwise() {
    let converted = convert_with("<r><a/> <b/></r>", false);
    assert_eq!(
        body(&converted),
        vec![
            0x32, 0xFF, 0xFF, 0x00, 0x01, 0x72, // <r>
            0x32, 0xFF, 0xFF, 0x00, 0x01, 0x61, 0x33, 0x00, 0x01, // <a/>
            0x32, 0xFF, 0xFF, 0x00, 0x01, 0x62, 0x33, 0x00, 0x02, // <b/>
            0x33, 0x00, 0x00, // </r>
        ]
    );
}

#[test]
fn whitespace_is_kept_by_default() {
    assert_eq!(convert("<r>\n</r>").bytes, convert_with("<r>\n</r>", true).bytes);
    assert_eq!(
        body(&convert("<r>\n</r>")),
        vec![0x32, 0xFF, 0xFF, 0x00, 0x01, 0x72, 0x27, 0x00, 0x01, 0x0A, 0x33, 0x00, 0x00]
    );
}

#[test]
fn text_is_trimmed_where_whitespace_is_not_kept() {
    let converted = convert_with("<r> x </r>", false);
    assert_eq!(
        body(&converted),
        vec![0x32, 0xFF, 0xFF, 0x00, 0x01, 0x72, 0x24, 0x00, 0x01, 0x78, 0x33, 0x00, 0x00]
    );
    let converted = convert_with("<r> x </r>", true);
    assert_eq!(
        body(&converted),
        vec![
            0x32, 0xFF, 0xFF, 0x00, 0x01, 0x72, 0x24, 0x00, 0x03, 0x20, 0x78, 0x20, 0x33, 0x00,
            0x00
        ]
    );
}

#[test]
fn self_closing_element_is_an_element_opened_and_closed() {
    let short = convert("<x/>");
    let long = convert("<x></x>");
    assert!(short.result.is_ok());
    assert_eq!(short.bytes, long.bytes);
    assert_eq!(
        short.bytes,
        vec![
            0x41, 0x42, 0x58, 0x00, 0x10, 0x32, 0xFF, 0xFF, 0x00, 0x01, 0x78, 0x33, 0x00, 0x00,
            0x11
        ]
    );
    assert_eq!(
        convert("<r><x k=\"v\"/><y/></r>").bytes,
        convert("<r><x k=\"v\"></x><y></y></r>").bytes
    );
}

#[test]
fn prefixed_element_raises_one_warning() {
    let converted = convert("<n:a/>");
    assert_eq!(
        body(&converted),
        vec![0x32, 0xFF, 0xFF, 0x00, 0x03, 0x6E, 0x3A, 0x61, 0x33, 0x00, 0x00]
    );
    assert_eq!(converted.warnings.len(), 1);
    assert_eq!(converted.warnings[0].feature, "Namespaces and prefixes");
    assert_eq!(details(&converted.warnings[0]), "Found prefixed element: n:a");
}

#[test]
fn prefixed_element_with_an_end_tag_raises_one_warning() {
    let converted = convert("<n:a></n:a>");
    assert_eq!(converted.warnings.len(), 1);
    assert_eq!(converted.bytes, convert("<n:a/>").bytes);
}

#[test]
fn namespace_attributes_raise_one_warning_each() {
    let converted = convert("<a xmlns=\"u\" xmlns:p=\"v\" p:q=\"w\" plain=\"x\"/>");
    assert_eq!(converted.warnings.len(), 3);
    for warning in &converted.warnings {
        assert_eq!(warning.feature, "Namespaces and prefixes");
    }
    assert_eq!(
        details(&converted.warnings[0]),
        "Found namespace declaration or prefixed attribute: xmlns"
    );
    assert_eq!(
        details(&converted.warnings[1]),
        "Found namespace declaration or prefixed attribute: xmlns:p"
    );
    assert_eq!(
        details(&converted.warnings[2]),
        "Found namespace declaration or prefixed attribute: p:q"
    );
    assert_eq!(
        body(&converted),
        vec![
            0x32, 0xFF, 0xFF, 0x00, 0x01, 0x61, // <a
            0x3F, 0xFF, 0xFF, 0x00, 0x05, 0x78, 0x6D, 0x6C, 0x6E, 0x73, 0xFF, 0xFF, 0x00, 0x01,
            0x75, // xmlns="u"
            0x3F, 0xFF, 0xFF, 0x00, 0x07, 0x78, 0x6D, 0x6C, 0x6E, 0x73, 0x3A, 0x70, 0xFF, 0xFF,
            0x00, 0x01, 0x76, // xmlns:p="v"
            0x3F, 0xFF, 0xFF, 0x00, 0x03, 0x70, 0x3A, 0x71, 0xFF, 0xFF, 0x00, 0x01,
            0x77, // p:q="w"
            0x3F, 0xFF, 0xFF, 0x00, 0x05, 0x70, 0x6C, 0x61, 0x69, 0x6E, 0xFF, 0xFF, 0x00, 0x01,
            0x78, // plain="x"
            0x33, 0x00, 0x00, // />
        ]
    );
}

#[test]
fn names_without_a_prefix_raise_no_warning() {
    let converted = convert("<a b=\"c\"><d/></a>");
    assert!(converted.result.is_ok());
    assert!(converted.warnings.is_empty());
}

#[test]
fn declaration_is_not_written() {
    let converted = convert("<?xml version=\"1.0\" encoding=\"UTF-8\"?><a/>");
    assert_eq!(
        body(&converted),
        vec![0x32, 0xFF, 0xFF, 0x00, 0x01, 0x61, 0x33, 0x00, 0x00]
    );
    assert!(converted.warnings.is_empty());
}

#[test]
fn declaration_without_an_encoding_raises_no_warning() {
    let converted = convert("<?xml version=\"1.0\"?><a/>");
    assert!(converted.result.is_ok());
    assert!(converted.warnings.is_empty());
}

#[test]
fn declaration_of_another_encoding_raises_a_warning() {
    let converted = convert("<?xml version=\"1.0\" encoding=\"ISO-8859-1\"?><a/>");
    assert_eq!(
        body(&converted),
        vec![0x32, 0xFF, 0xFF, 0x00, 0x01, 0x61, 0x33, 0x00, 0x00]
    );
    assert_eq!(converted.warnings.len(), 1);
    assert_eq!(converted.warnings[0].feature, "Non-UTF-8 encoding");
    assert_eq!(details(&converted.warnings[0]), "Found encoding: ISO-8859-1");
}

#[test]
fn encoding_is_compared_without_regard_to_case() {
    assert!(convert("<?xml version=\"1.0\" encoding=\"utf-8\"?><a/>").warnings.is_empty());
    assert!(convert("<?xml version=\"1.0\" encoding=\"Utf-8\"?><a/>").warnings.is_empty());
    assert_eq!(convert("<?xml version=\"1.0\" encoding=\"utf8\"?><a/>").warnings.len(), 1);
}

#[test]
fn processing_instruction_is_its_target_and_its_content() {
    let converted = convert("<?go now?><a/>");
    // The content begins with the space that parts it from the target.
    assert_eq!(
        body(&converted),
        vec![
            0x28, 0x00, 0x07, 0x67, 0x6F, 0x20, 0x20, 0x6E, 0x6F, 0x77, // go, space, " now"
            0x32, 0xFF, 0xFF, 0x00, 0x01, 0x61, 0x33, 0x00, 0x00, // <a/>
        ]
    );
    assert!(converted.warnings.is_empty());
}

#[test]
fn processing_instruction_without_content_is_its_target() {
    let converted = convert("<?go?><a/>");
    assert_eq!(
        body(&converted),
        vec![
            0x28, 0x00, 0x02, 0x67, 0x6F, // go
            0x32, 0xFF, 0xFF, 0x00, 0x01, 0x61, 0x33, 0x00, 0x00, // <a/>
        ]
    );
}

#[test]
fn comment_character_data_and_reference() {
    let converted = convert("<a><!--c--><![CDATA[d]]>x&amp;y</a>");
    assert_eq!(
        body(&converted),
        vec![
            0x32, 0xFF, 0xFF, 0x00, 0x01, 0x61, // <a>
            0x29, 0x00, 0x01, 0x63, // <!--c-->
            0x25, 0x00, 0x01, 0x64, // <![CDATA[d]]>
            0x24, 0x00, 0x01, 0x78, // x
            0x26, 0x00, 0x03, 0x61, 0x6D, 0x70, // &amp;
            0x24, 0x00, 0x01, 0x79, // y
            0x33, 0x00, 0x00, // </a>
        ]
    );
}

#[test]
fn document_type_declaration() {
    let converted = convert("<!DOCTYPE a><a/>");
    assert_eq!(
        body(&converted),
        vec![
            0x2A, 0x00, 0x01, 0x61, // <!DOCTYPE a>
            0x32, 0xFF, 0xFF, 0x00, 0x01, 0x61, 0x33, 0x00, 0x00, // <a/>
        ]
    );
}

#[test]
fn text_is_written_as_it_stands() {
    let converted = convert("<a>grüße</a>");
    assert_eq!(
        body(&converted),
        vec![
            0x32, 0xFF, 0xFF, 0x00, 0x01, 0x61, // <a>
            0x24, 0x00, 0x07, 0x67, 0x72, 0xC3, 0xBC, 0xC3, 0x9F, 0x65, // grüße
            0x33, 0x00, 0x00, // </a>
        ]
    );
}

#[test]
fn stream_follows_what_the_writer_held() {
    let mut bytes = vec![0xAA, 0xBB];
    let mut warnings = vec![Warning { feature: String::from("earlier"), details: None }];
    let result = XmlToAbxConverter::convert_from_string(
        "<p:a/>",
        &mut bytes,
        &parse_double,
        &mut warnings,
    );
    assert!(result.is_ok());
    assert_eq!(
        bytes,
        vec![
            0xAA, 0xBB, 0x41, 0x42, 0x58, 0x00, 0x10, 0x32, 0xFF, 0xFF, 0x00, 0x03, 0x70, 0x3A,
            0x61, 0x33, 0x00, 0x00, 0x11
        ]
    );
    assert_eq!(warnings.len(), 2);
    assert_eq!(warnings[0].feature, "earlier");
    assert_eq!(warnings[1].feature, "Namespaces and prefixes");
}

#[test]
fn bytes_are_converted_as_text_is() {
    let xml = "<r a=\"1e3\"><b>t</b> <c/></r>";
    assert_eq!(convert_bytes(xml.as_bytes()).bytes, convert(xml).bytes);
    let mut bytes = Vec::new();
    let mut warnings = Vec::new();
    let result = XmlToAbxConverter::convert_from_reader_with_options(
        xml.as_bytes(),
        &mut bytes,
        false,
        &parse_double,
        &mut warnings,
    );
    assert!(result.is_ok());
    assert_eq!(bytes, convert_with(xml, false).bytes);
}

#[test]
fn mismatched_end_tag_is_a_parsing_error() {
    let converted = convert("<a></b>");
    assert!(matches!(converted.result, Err(ConversionError::XmlParsing(_))));
    // What was written before the error stays.
    assert_eq!(
        converted.bytes,
        vec![0x41, 0x42, 0x58, 0x00, 0x10, 0x32, 0xFF, 0xFF, 0x00, 0x01, 0x61]
    );
}

#[test]
fn tag_that_is_not_closed_is_a_parsing_error() {
    let converted = convert("<a><b");
    assert!(matches!(converted.result, Err(ConversionError::XmlParsing(_))));
    assert_eq!(
        converted.bytes,
        vec![0x41, 0x42, 0x58, 0x00, 0x10, 0x32, 0xFF, 0xFF, 0x00, 0x01, 0x61]
    );
}

#[test]
fn malformed_attribute_is_an_attribute_error() {
    let converted = convert("<a k=\"v\" broken></a>");
    assert!(matches!(converted.result, Err(ConversionError::AttrError(_))));
    // The start tag and the attribute before the broken one were written.
    assert_eq!(
        converted.bytes,
        vec![
            0x41, 0x42, 0x58, 0x00, 0x10, 0x32, 0xFF, 0xFF, 0x00, 0x01, 0x61, 0x3F, 0xFF, 0xFF,
            0x00, 0x01, 0x6B, 0xFF, 0xFF, 0x00, 0x01, 0x76
        ]
    );
}

#[test]
fn duplicate_attribute_is_an_attribute_error() {
    let converted = convert("<a k=\"1\" k=\"2\"/>");
    assert!(matches!(converted.result, Err(ConversionError::AttrError(_))));
}

#[test]
fn text_that_is_not_utf8_is_an_encoding_error() {
    let converted = convert_bytes(b"<a>\xFF</a>");
    assert!(matches!(converted.result, Err(ConversionError::Utf8Error(_))));
    assert_eq!(
        converted.bytes,
        vec![0x41, 0x42, 0x58, 0x00, 0x10, 0x32, 0xFF, 0xFF, 0x00, 0x01, 0x61]
    );
}

#[test]
fn name_that_is_not_utf8_is_an_encoding_error() {
    let converted = convert_bytes(b"<a\xC3/>");
    assert!(matches!(converted.result, Err(ConversionError::Utf8Error(_))));
    assert_eq!(converted.bytes, vec![0x41, 0x42, 0x58, 0x00, 0x10]);
}

#[test]
fn text_that_is_too_long_is_an_error() {
    let xml = format!("<a>{}</a>", "t".repeat(65536));
    let converted = convert(&xml);
    assert!(matches!(converted.result, Err(ConversionError::StringTooLong(65536, 65535))));
    assert_eq!(
        converted.bytes,
        vec![0x41, 0x42, 0x58, 0x00, 0x10, 0x32, 0xFF, 0xFF, 0x00, 0x01, 0x61, 0x24]
    );
}

#[test]
fn text_of_the_greatest_length_is_written() {
    let xml = format!("<a>{}</a>", "t".repeat(65535));
    let converted = convert(&xml);
    assert!(converted.result.is_ok());
    assert_eq!(converted.bytes.len(), 5 + 6 + 3 + 65535 + 3 + 1);
}

#[test]
fn warnings_raised_before_a_failure_are_kept() {
    let converted = convert("<p:a></b>");
    assert!(matches!(converted.result, Err(ConversionError::XmlParsing(_))));
    assert_eq!(converted.warnings.len(), 1);
}

#[test]
fn parser_of_numbers_is_asked_only_about_text_with_an_exponent_marker() {
    fn refuses_plain_numbers(text: &str) -> Option<u64> {
        assert!(text.contains('e') || text.contains('E'));
        assert!(text != "true" && text != "false");
        text.parse::<f64>().ok().map(f64::to_bits)
    }
    let mut bytes = Vec::new();
    let mut warnings = Vec::new();
    let result = XmlToAbxConverter::convert_from_string(
        "<a p=\"12\" q=\"true\" r=\"false\" s=\"3E2\" t=\"text\"/>",
        &mut bytes,
        &refuses_plain_numbers,
        &mut warnings,
    );
    assert!(result.is_ok());
}

#[test]
fn byte_order_mark_is_passed_over() {
    assert_eq!(convert("\u{FEFF}<a/>").bytes, convert("<a/>").bytes);
    assert!(convert("\u{FEFF}<a/>").result.is_ok());
}

#[test]
fn character_reference_is_a_reference() {
    let converted = convert("<a>&#65;</a>");
    assert_eq!(
        body(&converted),
        vec![
            0x32, 0xFF, 0xFF, 0x00, 0x01, 0x61, // <a>
            0x26, 0x00, 0x03, 0x23, 0x36, 0x35, // &#65;
            0x33, 0x00, 0x00, // </a>
        ]
    );
}

#[test]
fn attribute_value_is_written_as_it_stands_in_the_document() {
    let converted = convert("<a k='&lt;' l=\"it's\"/>");
    assert_eq!(
        body(&converted),
        vec![
            0x32, 0xFF, 0xFF, 0x00, 0x01, 0x61, // <a
            0x3F, 0xFF, 0xFF, 0x00, 0x01, 0x6B, 0xFF, 0xFF, 0x00, 0x04, 0x26, 0x6C, 0x74,
            0x3B, // k='&lt;'
            0x3F, 0xFF, 0xFF, 0x00, 0x01, 0x6C, 0xFF, 0xFF, 0x00, 0x04, 0x69, 0x74, 0x27,
            0x73, // l="it's"
            0x33, 0x00, 0x00, // />
        ]
    );
}

#[test]
fn nested_elements_with_the_same_name() {
    let converted = convert("<a><a><a/></a></a>");
    assert_eq!(
        body(&converted),
        vec![
            0x32, 0xFF, 0xFF, 0x00, 0x01, 0x61, // <a>
            0x32, 0x00, 0x00, // <a>
            0x32, 0x00, 0x00, 0x33, 0x00, 0x00, // <a/>
            0x33, 0x00, 0x00, // </a>
            0x33, 0x00, 0x00, // </a>
        ]
    );
}

#[test]
fn end_tag_without_a_start_tag_is_a_parsing_error() {
    let converted = convert("</a>");
    assert!(matches!(converted.result, Err(ConversionError::XmlParsing(_))));
    assert_eq!(converted.bytes, vec![0x41, 0x42, 0x58, 0x00, 0x10]);
}

#[test]
fn element_that_is_left_open_is_converted_as_far_as_it_goes() {
    let converted = convert("<a><b/>");
    assert!(converted.result.is_ok());
    assert_eq!(
        body(&converted),
        vec![
            0x32, 0xFF, 0xFF, 0x00, 0x01, 0x61, // <a>
            0x32, 0xFF, 0xFF, 0x00, 0x01, 0x62, 0x33, 0x00, 0x01, // <b/>
        ]
    );
}

#[test]
fn conversions_do_not_share_their_pools() {
    let first = convert("<a/>");
    let second = convert("<a/>");
    assert_eq!(first.bytes, second.bytes);
    assert_eq!(
        body(&second),
        vec![0x32, 0xFF, 0xFF, 0x00, 0x01, 0x61, 0x33, 0x00, 0x00]
    );
}
