use rsjvm::byte_reader::ByteReader;
use rsjvm::byte_reader::ReadError;
use rsjvm::class_reader::ClassReader;

#[test]
fn byte_reader_test_magic_success() {
    let data = [0xCA, 0xFE, 0xBA, 0xBE];
    let mut reader = ByteReader::new(&data);
    let magic = reader.read_u32().unwrap();

    assert_eq!(magic, 0xCAFEBABE);
}

#[test]
fn byte_reader_test_error_eof() {
    let data = [0xCA];
    let mut reader = ByteReader::new(&data);

    assert!(reader.read_u32().is_err());
}

#[test]
fn test_integer() {
    let data = [0x00, 0x14, 0x67, 0x8C];
    let mut reader = ByteReader::new(&data);
    assert_eq!(reader.read_i32().unwrap(), 1337228);
}

#[test]
fn class_reader_test_magic_success() {
    let data = [0xCA, 0xFE, 0xBA, 0xBE];
    let mut reader = ClassReader::new(&data);
    let magic = reader.read_u32().unwrap();

    assert_eq!(magic, 0xCAFEBABE);
}

#[test]
fn class_reader_error_eof() {
    let data = [0xCA];
    let mut reader = ClassReader::new(&data);

    assert_eq!(reader.read_u32(), Err(rsjvm::class_reader::ReadError::UnexpectedEOF));
}

#[test]
fn float_bits_infinity() {
    // The pool keeps floating-point constants as their raw bits; the
    // caller turns them into values.
    let data = [0x7F, 0x80, 0x00, 0x00];
    let mut reader = ByteReader::new(&data);
    assert_eq!(f32::from_bits(reader.read_u32().unwrap()), f32::INFINITY);
}

#[test]
fn float_bits_negative_infinity() {
    let data = [0xFF, 0x80, 0x00, 0x00];
    let mut reader = ByteReader::new(&data);
    assert_eq!(f32::from_bits(reader.read_u32().unwrap()), f32::NEG_INFINITY);
}

#[test]
fn signed_reads() {
    let data = [0xFF, 0xFF, 0xFF, 0xFE];
    let mut reader = ByteReader::new(&data);
    assert_eq!(reader.read_i32().unwrap(), -2);
    let data64 = [0xFF, 0xFF, 0xFF, 0xFF, 0xFF, 0xFF, 0xFF, 0xFD];
    let mut reader64 = ByteReader::new(&data64);
    assert_eq!(reader64.read_i64().unwrap(), -3);
}

#[test]
fn read_utf8_modified_encoding() {
    // Modified UTF-8: NUL is the two-byte sequence C0 80, and a
    // supplementary character is six bytes via a surrogate pair. Both
    // decode to something other than the raw input bytes.
    let data = [0xC0, 0x80, 0xED, 0xA0, 0x81, 0xED, 0xB0, 0x81];
    let mut reader = ByteReader::new(&data);
    let text = reader.read_utf8(8).unwrap();
    assert_eq!(text, "\u{0}\u{10401}".to_string());
}

#[test]
fn read_utf8_rejects_malformed_bytes() {
    let data = [0xFF, 0xFF];
    let mut reader = ByteReader::new(&data);
    assert_eq!(reader.read_utf8(2), Err(ReadError::Cesu8DecodingError));
}

#[test]
fn read_bytes_window() {
    let data = [1, 2, 3, 4, 5];
    let mut reader = ByteReader::new(&data);
    assert_eq!(reader.read_u8().unwrap(), 1);
    assert_eq!(reader.read_bytes(3).unwrap(), &[2, 3, 4]);
    assert!(reader.read_bytes(2).is_err());
}
