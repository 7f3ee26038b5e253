use xml2abx::ConversionError;
use xml2abx::FastDataOutput;

fn written(out: FastDataOutput) -> Vec<u8> {
    out.into_inner()
}

#[test]
fn new_writer_keeps_the_bytes_it_was_given() {
    let out = FastDataOutput::new(vec![1, 2, 3]);
    assert_eq!(out.as_bytes(), &vec![1, 2, 3]);
    assert_eq!(written(out), vec![1, 2, 3]);
}

#[test]
fn write_byte_appends_one_byte() {
    let mut out = FastDataOutput::new(Vec::new());
    assert!(out.write_byte(0).is_ok());
    assert!(out.write_byte(0xAB).is_ok());
    assert!(out.write_byte(0xFF).is_ok());
    assert_eq!(written(out), vec![0x00, 0xAB, 0xFF]);
}

#[test]
fn write_short_is_big_endian() {
    let mut out = FastDataOutput::new(Vec::new());
    assert!(out.write_short(0x1234).is_ok());
    assert!(out.write_short(0).is_ok());
    assert!(out.write_short(1).is_ok());
    assert!(out.write_short(65535).is_ok());
    assert_eq!(written(out), vec![0x12, 0x34, 0x00, 0x00, 0x00, 0x01, 0xFF, 0xFF]);
}

#[test]
fn write_int_is_big_endian_twos_complement() {
    let mut out = FastDataOutput::new(Vec::new());
    assert!(out.write_int(0x01020304).is_ok());
    assert!(out.write_int(-2).is_ok());
    assert!(out.write_int(i32::MIN).is_ok());
    assert!(out.write_int(i32::MAX).is_ok());
    assert_eq!(
        written(out),
        vec![
            0x01, 0x02, 0x03, 0x04, 0xFF, 0xFF, 0xFF, 0xFE, 0x80, 0x00, 0x00, 0x00, 0x7F, 0xFF,
            0xFF, 0xFF
        ]
    );
}

#[test]
fn write_long_is_big_endian_twos_complement() {
    let mut out = FastDataOutput::new(Vec::new());
    assert!(out.write_long(0x0102030405060708).is_ok());
    assert!(out.write_long(-1234567890123).is_ok());
    assert!(out.write_long(i64::MIN).is_ok());
    assert_eq!(
        written(out),
        vec![
            0x01, 0x02, 0x03, 0x04, 0x05, 0x06, 0x07, 0x08, 0xFF, 0xFF, 0xFE, 0xE0, 0x8E, 0x04,
            0xFB, 0x35, 0x80, 0x00, 0x00, 0x00, 0x00, 0x00, 0x00, 0x00
        ]
    );
}

#[test]
fn write_float_writes_the_bits_of_the_single() {
    let mut out = FastDataOutput::new(Vec::new());
    assert!(out.write_float(1.5f32.to_bits()).is_ok());
    assert_eq!(written(out), vec![0x3F, 0xC0, 0x00, 0x00]);
}

#[test]
fn write_double_writes_the_bits_of_the_double() {
    let mut out = FastDataOutput::new(Vec::new());
    assert!(out.write_double(1e10f64.to_bits()).is_ok());
    assert!(out.write_double((-2.5e-3f64).to_bits()).is_ok());
    assert_eq!(
        written(out),
        vec![
            0x42, 0x02, 0xA0, 0x5F, 0x20, 0x00, 0x00, 0x00, 0xBF, 0x64, 0x7A, 0xE1, 0x47, 0xAE,
            0x14, 0x7B
        ]
    );
}

#[test]
fn write_utf_prefixes_the_byte_count() {
    let mut out = FastDataOutput::new(Vec::new());
    assert!(out.write_utf("héllo").is_ok());
    assert_eq!(written(out), vec![0x00, 0x06, 0x68, 0xC3, 0xA9, 0x6C, 0x6C, 0x6F]);
}

#[test]
fn write_utf_of_the_empty_string_is_its_count() {
    let mut out = FastDataOutput::new(Vec::new());
    assert!(out.write_utf("").is_ok());
    assert_eq!(written(out), vec![0x00, 0x00]);
}

#[test]
fn string_of_65535_bytes_is_written() {
    let text = "a".repeat(65535);
    let mut out = FastDataOutput::new(Vec::new());
    assert!(out.write_utf(&text).is_ok());
    let bytes = written(out);
    assert_eq!(bytes.len(), 2 + 65535);
    assert_eq!(&bytes[..2], &[0xFF, 0xFF]);
    assert!(bytes[2..].iter().all(|b| *b == b'a'));
}

#[test]
fn string_of_65536_bytes_is_too_long() {
    let text = "a".repeat(65536);
    let mut out = FastDataOutput::new(vec![9]);
    let res = out.write_utf(&text);
    assert!(matches!(res, Err(ConversionError::StringTooLong(65536, 65535))));
    assert_eq!(written(out), vec![9]);
}

#[test]
fn length_limit_counts_bytes_not_characters() {
    // 32768 characters of two bytes each: 65536 bytes.
    let text = "é".repeat(32768);
    let mut out = FastDataOutput::new(Vec::new());
    assert!(matches!(out.write_utf(&text), Err(ConversionError::StringTooLong(65536, 65535))));
    // One character less, and one byte more: 65535 bytes.
    let text = format!("{}a", "é".repeat(32767));
    assert!(out.write_utf(&text).is_ok());
    assert_eq!(out.as_bytes().len(), 2 + 65535);
}

#[test]
fn interned_string_is_written_out_once() {
    let mut out = FastDataOutput::new(Vec::new());
    assert!(out.write_interned_utf("ab").is_ok());
    assert!(out.write_interned_utf("ab").is_ok());
    assert!(out.write_interned_utf("ab").is_ok());
    assert_eq!(
        written(out),
        vec![0xFF, 0xFF, 0x00, 0x02, 0x61, 0x62, 0x00, 0x00, 0x00, 0x00]
    );
}

#[test]
fn interned_strings_are_indexed_in_the_order_they_came() {
    let mut out = FastDataOutput::new(Vec::new());
    assert!(out.write_interned_utf("x").is_ok());
    assert!(out.write_interned_utf("y").is_ok());
    assert!(out.write_interned_utf("z").is_ok());
    assert!(out.write_interned_utf("y").is_ok());
    assert!(out.write_interned_utf("z").is_ok());
    assert!(out.write_interned_utf("x").is_ok());
    assert_eq!(
        written(out),
        vec![
            0xFF, 0xFF, 0x00, 0x01, 0x78, 0xFF, 0xFF, 0x00, 0x01, 0x79, 0xFF, 0xFF, 0x00, 0x01,
            0x7A, 0x00, 0x01, 0x00, 0x02, 0x00, 0x00
        ]
    );
}

#[test]
fn plain_string_does_not_join_the_pool() {
    let mut out = FastDataOutput::new(Vec::new());
    assert!(out.write_utf("k").is_ok());
    assert!(out.write_interned_utf("k").is_ok());
    assert_eq!(written(out), vec![0x00, 0x01, 0x6B, 0xFF, 0xFF, 0x00, 0x01, 0x6B]);
}

#[test]
fn interned_string_that_is_too_long_leaves_its_announcement() {
    let text = "a".repeat(65536);
    let mut out = FastDataOutput::new(Vec::new());
    let res = out.write_interned_utf(&text);
    assert!(matches!(res, Err(ConversionError::StringTooLong(65536, 65535))));
    assert_eq!(out.as_bytes(), &vec![0xFF, 0xFF]);
    // It did not join the pool: the next string gets the first index.
    assert!(out.write_interned_utf("b").is_ok());
    assert!(out.write_interned_utf("b").is_ok());
    assert_eq!(
        written(out),
        vec![0xFF, 0xFF, 0xFF, 0xFF, 0x00, 0x01, 0x62, 0x00, 0x00]
    );
}

#[test]
fn pool_takes_65534_strings_and_no_more() {
    let mut out = FastDataOutput::new(Vec::new());
    for i in 0..65534 {
        assert!(out.write_interned_utf(&format!("s{}", i)).is_ok());
    }
    let before = out.as_bytes().len();
    let res = out.write_interned_utf("one too many");
    assert!(matches!(res, Err(ConversionError::StringPoolFull(65534))));
    assert_eq!(out.as_bytes().len(), before);
    // What the pool holds is still found: the last entry has index 65533.
    assert!(out.write_interned_utf("s65533").is_ok());
    let bytes = written(out);
    assert_eq!(bytes.len(), before + 2);
    assert_eq!(&bytes[before..], &[0xFF, 0xFD]);
}

#[test]
fn write_bytes_appends_them_as_they_are() {
    let mut out = FastDataOutput::new(Vec::new());
    assert!(out.write_bytes(&[0xDE, 0xAD]).is_ok());
    assert!(out.write_bytes(&[]).is_ok());
    assert!(out.write_bytes(&[0xBE, 0xEF]).is_ok());
    assert_eq!(written(out), vec![0xDE, 0xAD, 0xBE, 0xEF]);
}

#[test]
fn flush_changes_nothing() {
    let mut out = FastDataOutput::new(Vec::new());
    assert!(out.write_short(7).is_ok());
    assert!(out.flush().is_ok());
    assert_eq!(written(out), vec![0x00, 0x07]);
}

#[test]
fn limit_of_a_length_prefix() {
    assert_eq!(FastDataOutput::MAX_UNSIGNED_SHORT, 65535);
}

#[test]
fn new_string_that_is_too_long_is_refused_for_its_length_where_the_pool_is_full() {
    let mut out = FastDataOutput::new(Vec::new());
    for i in 0..65534 {
        assert!(out.write_interned_utf(&format!("s{}", i)).is_ok());
    }
    let before = out.as_bytes().len();
    let text = "a".repeat(65536);
    let res = out.write_interned_utf(&text);
    assert!(matches!(res, Err(ConversionError::StringTooLong(65536, 65535))));
    // Its announcement was written, and nothing of the string.
    assert_eq!(out.as_bytes().len(), before + 2);
    assert_eq!(&out.as_bytes()[before..], &[0xFF, 0xFF]);
    // It did not join the pool: it is refused for its length again.
    let res = out.write_interned_utf(&text);
    assert!(matches!(res, Err(ConversionError::StringTooLong(65536, 65535))));
    // A new string that fits is refused for want of room.
    let res = out.write_interned_utf("one too many");
    assert!(matches!(res, Err(ConversionError::StringPoolFull(65534))));
    assert_eq!(out.as_bytes().len(), before + 4);
}

#[test]
fn new_string_of_the_greatest_length_is_refused_where_the_pool_is_full() {
    let mut out = FastDataOutput::new(Vec::new());
    for i in 0..65534 {
        assert!(out.write_interned_utf(&format!("s{}", i)).is_ok());
    }
    let before = out.as_bytes().len();
    let res = out.write_interned_utf(&"a".repeat(65535));
    assert!(matches!(res, Err(ConversionError::StringPoolFull(65534))));
    assert_eq!(out.as_bytes().len(), before);
}
