use xml2abx::type_detection::is_boolean;
use xml2abx::type_detection::is_scientific_notation;
use xml2abx::type_detection::is_white_space_char;
use xml2abx::type_detection::is_whitespace_only;
use xml2abx::BinaryXmlSerializer;
use xml2abx::XmlToAbxConverter;

fn parse_double(text: &str) -> Option<u64> {
    text.parse::<f64>().ok().map(f64::to_bits)
}

/// The bytes of the one attribute `k`, with this value, behind the magic
/// number. The name is the first string of the pool.
fn attribute(value: &str) -> Vec<u8> {
    let mut serializer = match BinaryXmlSerializer::new(Vec::new()) {
        Ok(serializer) => serializer,
        Err(_) => panic!("a serializer over a vector can always be made"),
    };
    let res = XmlToAbxConverter::write_attribute(&mut serializer, "k", value, parse_double(value));
    assert!(res.is_ok());
    serializer.into_inner()[4..].to_vec()
}

const NAME: [u8; 5] = [0xFF, 0xFF, 0x00, 0x01, 0x6B];

fn expected(control: u8, payload: &[u8]) -> Vec<u8> {
    let mut bytes = vec![control];
    bytes.extend_from_slice(&NAME);
    bytes.extend_from_slice(payload);
    bytes
}

fn interned(value: &str) -> Vec<u8> {
    let mut payload = vec![0xFF, 0xFF, (value.len() / 256) as u8, (value.len() % 256) as u8];
    payload.extend_from_slice(value.as_bytes());
    expected(0x3F, &payload)
}

fn plain(value: &str) -> Vec<u8> {
    let mut payload = vec![(value.len() / 256) as u8, (value.len() % 256) as u8];
    payload.extend_from_slice(value.as_bytes());
    expected(0x2F, &payload)
}

#[test]
fn only_the_two_literals_are_booleans() {
    assert!(is_boolean("true"));
    assert!(is_boolean("false"));
    assert!(!is_boolean("True"));
    assert!(!is_boolean("FALSE"));
    assert!(!is_boolean("tru"));
    assert!(!is_boolean("truee"));
    assert!(!is_boolean(" true"));
    assert!(!is_boolean(""));
    assert!(!is_boolean("1"));
    assert!(!is_boolean("falsé"));
}

#[test]
fn exponent_marker_in_either_case() {
    assert!(is_scientific_notation("1e10"));
    assert!(is_scientific_notation("1E10"));
    assert!(is_scientific_notation("hello"));
    assert!(is_scientific_notation("E"));
    assert!(!is_scientific_notation("123.5"));
    assert!(!is_scientific_notation(""));
    assert!(!is_scientific_notation("é"));
}

#[test]
fn whitespace_only_text() {
    assert!(is_whitespace_only(""));
    assert!(is_whitespace_only(" "));
    assert!(is_whitespace_only(" \t\r\n"));
    assert!(is_whitespace_only("\u{00A0}\u{2003}\u{3000}"));
    assert!(!is_whitespace_only(" a "));
    assert!(!is_whitespace_only("\u{200B}"));
    assert!(!is_whitespace_only("x"));
}

#[test]
fn white_space_is_what_the_standard_library_calls_white_space() {
    let mut code: u32 = 0;
    while code <= 0x10FFFF {
        if let Some(c) = char::from_u32(code) {
            assert_eq!(is_white_space_char(c), c.is_whitespace(), "U+{:04X}", code);
        }
        code += 1;
    }
}

#[test]
fn literal_true_is_a_boolean_with_no_value_bytes() {
    assert_eq!(attribute("true"), expected(0xCF, &[]));
}

#[test]
fn literal_false_is_a_boolean_with_no_value_bytes() {
    assert_eq!(attribute("false"), expected(0xDF, &[]));
}

#[test]
fn capitalised_true_is_a_string() {
    assert_eq!(attribute("True"), interned("True"));
}

#[test]
fn scientific_notation_is_a_double() {
    assert_eq!(
        attribute("1e10"),
        expected(0xBF, &[0x42, 0x02, 0xA0, 0x5F, 0x20, 0x00, 0x00, 0x00])
    );
    assert_eq!(attribute("1e10"), expected(0xBF, &1.0e10f64.to_bits().to_be_bytes()));
    assert_eq!(attribute("-2.5E-3"), expected(0xBF, &(-2.5e-3f64).to_bits().to_be_bytes()));
}

#[test]
fn exponent_without_digits_is_a_string() {
    assert_eq!(attribute("10e"), interned("10e"));
}

#[test]
fn word_with_an_e_is_a_string() {
    assert_eq!(attribute("value"), interned("value"));
    assert_eq!(attribute("some value"), plain("some value"));
}

#[test]
fn number_without_exponent_is_a_string() {
    assert_eq!(attribute("123"), interned("123"));
    assert_eq!(attribute("1.5"), interned("1.5"));
    assert_eq!(attribute("0x1F"), interned("0x1F"));
}

#[test]
fn double_counts_only_with_an_exponent_marker() {
    let mut serializer = match BinaryXmlSerializer::new(Vec::new()) {
        Ok(serializer) => serializer,
        Err(_) => panic!("a serializer over a vector can always be made"),
    };
    let res = XmlToAbxConverter::write_attribute(
        &mut serializer,
        "k",
        "123",
        Some(123.0f64.to_bits()),
    );
    assert!(res.is_ok());
    assert_eq!(serializer.into_inner()[4..].to_vec(), interned("123"));
}

#[test]
fn value_of_49_bytes_without_a_space_is_interned() {
    let value = "a".repeat(49);
    assert_eq!(attribute(&value), interned(&value));
}

#[test]
fn value_of_50_bytes_is_written_out() {
    let value = "a".repeat(50);
    assert_eq!(attribute(&value), plain(&value));
}

#[test]
fn limit_of_an_interned_value_counts_bytes() {
    // 25 characters, 50 bytes.
    let value = "ä".repeat(25);
    assert_eq!(attribute(&value), plain(&value));
    // 24 characters and one more byte: 49 bytes.
    let value = format!("{}a", "ä".repeat(24));
    assert_eq!(attribute(&value), interned(&value));
}

#[test]
fn value_with_a_space_is_written_out() {
    assert_eq!(attribute("nine char"), plain("nine char"));
    assert_eq!(attribute("ten  chars"), plain("ten  chars"));
    assert_eq!(attribute(" "), plain(" "));
}

#[test]
fn empty_value_is_interned() {
    assert_eq!(attribute(""), interned(""));
}
