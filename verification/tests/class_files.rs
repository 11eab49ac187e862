use rsjvm::attribute::Attribute;
use rsjvm::byte_reader::ReadError;
use rsjvm::class_file_reader::{ClassFileReader, ClassReaderError};
use rsjvm::class_file_version::{ClassFileVersion, FileVersionError, MajorVersion};
use rsjvm::constant_pool::{Constant, ConstantKind, ConstantPoolError};
use rsjvm::field::{BaseType, FieldType};
use rsjvm::instruction::Instruction;
use rsjvm::predefined_attributes::{ConstantValue, LineNumber};

fn push_u16(out: &mut Vec<u8>, v: u16) {
    out.push((v >> 8) as u8);
    out.push(v as u8);
}

fn push_u32(out: &mut Vec<u8>, v: u32) {
    out.push((v >> 24) as u8);
    out.push((v >> 16) as u8);
    out.push((v >> 8) as u8);
    out.push(v as u8);
}

fn push_utf8(out: &mut Vec<u8>, text: &str) {
    out.push(1);
    push_u16(out, text.len() as u16);
    out.extend_from_slice(text.as_bytes());
}

fn header(minor: u16, major: u16) -> Vec<u8> {
    let mut out = vec![0xCA, 0xFE, 0xBA, 0xBE];
    push_u16(&mut out, minor);
    push_u16(&mut out, major);
    out
}

#[test]
fn minimal_class_file() {
    let data = [
        0xCA, 0xFE, 0xBA, 0xBE, 0x00, 0x00, 0x00, 0x34, 0x00, 0x01, 0x00, 0x00, 0x00, 0x00, 0x00,
        0x00, 0x00, 0x00, 0x00, 0x00, 0x00, 0x00, 0x00, 0x00,
    ];
    let cf = ClassFileReader::read_class(&data).unwrap();
    assert_eq!(cf.version, ClassFileVersion(MajorVersion::JavaSE_8, 0));
    assert_eq!(cf.constant_pool.len(), 0);
    assert_eq!(cf.flags.flags().len(), 0);
    assert_eq!(cf.this_class, "".to_string());
    assert_eq!(cf.super_class, None);
    assert_eq!(cf.interfaces.len(), 0);
    assert_eq!(cf.fields.len(), 0);
    assert_eq!(cf.methods.len(), 0);
    assert_eq!(cf.attributes.len(), 0);
}

#[test]
fn wrong_magic_number() {
    let mut data = vec![0xDE, 0xAD, 0xBE, 0xEF];
    push_u16(&mut data, 0);
    push_u16(&mut data, 52);
    let err = ClassFileReader::read_class(&data).unwrap_err();
    assert!(matches!(err.err, ClassReaderError::InvalidMagicNumber(0xDEADBEEF)));
    // The snippet is a window around the failure position; here it holds
    // the whole short input.
    assert_eq!(err.snippet, data);
}

#[test]
fn unsupported_major_version() {
    let data_full = {
        let mut d = header(0, 100);
        push_u16(&mut d, 1);
        d
    };
    let err = ClassFileReader::read_class(&data_full).unwrap_err();
    assert!(matches!(
        err.err,
        ClassReaderError::FileVersionError(FileVersionError::UnsupportedMajorVersion(100))
    ));
}

#[test]
fn unsupported_minor_version() {
    let data = header(5, 52);
    let err = ClassFileReader::read_class(&data).unwrap_err();
    assert!(matches!(
        err.err,
        ClassReaderError::FileVersionError(FileVersionError::UnsupportedMinorVersion(52, 5))
    ));
}

#[test]
fn truncated_file() {
    let err = ClassFileReader::read_class(&[0xCA]).unwrap_err();
    assert!(matches!(
        err.err,
        ClassReaderError::ReadError(ReadError::UnexpectedEOF)
    ));
}

#[test]
fn unassigned_pool_tag() {
    let mut data = header(0, 52);
    push_u16(&mut data, 2);
    data.push(2); // tag 2 is unassigned
    let err = ClassFileReader::read_class(&data).unwrap_err();
    assert!(matches!(err.err, ClassReaderError::TagNotSupported(2)));
}

#[test]
fn malformed_utf8_entry() {
    let mut data = header(0, 52);
    push_u16(&mut data, 2);
    data.push(1); // Utf8 tag
    push_u16(&mut data, 1);
    data.push(0xFF);
    let err = ClassFileReader::read_class(&data).unwrap_err();
    assert!(matches!(
        err.err,
        ClassReaderError::ReadError(ReadError::Cesu8DecodingError)
    ));
}

#[test]
fn this_class_of_wrong_kind() {
    let mut data = header(0, 52);
    push_u16(&mut data, 2);
    data.push(3); // Integer entry at index 1
    push_u32(&mut data, 5);
    push_u16(&mut data, 0); // access flags
    push_u16(&mut data, 1); // this_class -> Integer
    let err = ClassFileReader::read_class(&data).unwrap_err();
    assert!(matches!(
        err.err,
        ClassReaderError::UnexpectedConstant {
            expected: ConstantKind::ClassIndex,
            actual: ConstantKind::Integer,
        }
    ));
}

#[test]
fn super_class_on_unusable_slot() {
    let mut data = header(0, 52);
    push_u16(&mut data, 3); // one Long entry fills slots 1 and 2
    data.push(5);
    push_u32(&mut data, 0);
    push_u32(&mut data, 9);
    push_u16(&mut data, 0); // access flags
    push_u16(&mut data, 0); // this_class skipped
    push_u16(&mut data, 2); // super_class -> the Long's second slot
    let err = ClassFileReader::read_class(&data).unwrap_err();
    assert!(matches!(
        err.err,
        ClassReaderError::ConstantPoolError(ConstantPoolError::UnusableConstant(2))
    ));
}

fn small_class(constant_value_index: u16, field_desc: &str) -> Vec<u8> {
    let mut data = header(0, 52);
    push_u16(&mut data, 12); // pool count: 11 entries
    push_utf8(&mut data, "Code"); // 1
    push_utf8(&mut data, "x"); // 2
    push_utf8(&mut data, field_desc); // 3
    push_utf8(&mut data, "f"); // 4
    push_utf8(&mut data, "()V"); // 5
    push_utf8(&mut data, "ConstantValue"); // 6
    data.push(3); // 7: Integer 42
    push_u32(&mut data, 42);
    data.push(7); // 8: ClassIndex -> 9
    push_u16(&mut data, 9);
    push_utf8(&mut data, "Main"); // 9
    push_utf8(&mut data, "SourceFile"); // 10
    push_utf8(&mut data, "Main.java"); // 11
    push_u16(&mut data, 0x0021); // access flags: public super
    push_u16(&mut data, 8); // this_class
    push_u16(&mut data, 0); // super_class
    push_u16(&mut data, 1); // one interface
    push_u16(&mut data, 8);
    push_u16(&mut data, 1); // one field
    push_u16(&mut data, 0x0009);
    push_u16(&mut data, 2);
    push_u16(&mut data, 3);
    push_u16(&mut data, 1); // one field attribute
    push_u16(&mut data, 6); // ConstantValue
    push_u32(&mut data, 2);
    push_u16(&mut data, constant_value_index);
    push_u16(&mut data, 1); // one method
    push_u16(&mut data, 0x0001);
    push_u16(&mut data, 4);
    push_u16(&mut data, 5);
    push_u16(&mut data, 1); // one method attribute
    push_u16(&mut data, 1); // Code
    push_u32(&mut data, 15);
    push_u16(&mut data, 1); // max_stack
    push_u16(&mut data, 1); // max_locals
    push_u32(&mut data, 3); // code_length
    data.extend_from_slice(&[0x03, 0x3b, 0xb1]);
    push_u16(&mut data, 0); // exception table
    push_u16(&mut data, 0); // nested attributes
    push_u16(&mut data, 1); // one class attribute
    push_u16(&mut data, 10); // SourceFile
    push_u32(&mut data, 2);
    push_u16(&mut data, 11);
    data
}

#[test]
fn class_with_field_method_and_code() {
    let data = small_class(7, "I");
    let cf = ClassFileReader::read_class(&data).unwrap();
    assert_eq!(cf.this_class, "Main".to_string());
    assert_eq!(cf.super_class, None);
    assert_eq!(cf.interfaces, vec!["Main".to_string()]);

    assert_eq!(cf.fields.len(), 1);
    let field = &cf.fields[0];
    assert_eq!(field.name, "x".to_string());
    assert_eq!(field.type_descriptor, FieldType::Base(BaseType::Int));
    assert_eq!(
        field.attributes,
        vec![Attribute::ConstantValue(ConstantValue::new(Constant::Integer(42)))]
    );

    assert_eq!(cf.methods.len(), 1);
    let method = &cf.methods[0];
    assert_eq!(method.name, "f".to_string());
    match &method.attributes[0] {
        Attribute::Code(code) => {
            assert_eq!(code.max_stack, 1);
            assert_eq!(code.max_locals, 1);
            assert_eq!(
                code.code,
                vec![
                    (Instruction::Iconst_0, 0),
                    (Instruction::Istore_0, 1),
                    (Instruction::Return, 2),
                ]
            );
            assert_eq!(code.exception_table.len(), 0);
            assert_eq!(code.attributes.len(), 0);
        },
        other => panic!("expected a Code attribute, found {:?}", other),
    }

    match &cf.attributes[0] {
        Attribute::SourceFile(sf) => assert_eq!(sf.file_name, "Main.java".to_string()),
        other => panic!("expected a SourceFile attribute, found {:?}", other),
    }
}

#[test]
fn constant_value_of_wrong_kind() {
    // An int field whose ConstantValue points at a Utf8 entry.
    let data = small_class(2, "I");
    let err = ClassFileReader::read_class(&data).unwrap_err();
    assert!(matches!(
        err.err,
        ClassReaderError::MismatchedConstantType(ConstantKind::Utf8, 2)
    ));
}

#[test]
fn string_constant_value_accepts_utf8() {
    let data = small_class(2, "Ljava/lang/String;");
    let cf = ClassFileReader::read_class(&data).unwrap();
    assert_eq!(
        cf.fields[0].attributes,
        vec![Attribute::ConstantValue(ConstantValue::new(Constant::Utf8("x".to_string())))]
    );
}

#[test]
fn source_file_with_wrong_length() {
    let mut data = header(0, 52);
    push_u16(&mut data, 2);
    push_utf8(&mut data, "SourceFile"); // 1
    push_u16(&mut data, 0); // access flags
    push_u16(&mut data, 0); // this
    push_u16(&mut data, 0); // super
    push_u16(&mut data, 0); // interfaces
    push_u16(&mut data, 0); // fields
    push_u16(&mut data, 0); // methods
    push_u16(&mut data, 1); // one class attribute
    push_u16(&mut data, 1);
    push_u32(&mut data, 3); // SourceFile must declare length 2
    data.extend_from_slice(&[0, 0, 0]);
    let err = ClassFileReader::read_class(&data).unwrap_err();
    assert!(matches!(err.err, ClassReaderError::InvalidAttributeSize(3, 2)));
}

#[test]
fn class_level_metadata_attributes() {
    let mut data = header(0, 52);
    push_u16(&mut data, 9);
    push_utf8(&mut data, "LineNumberTable"); // 1
    push_utf8(&mut data, "NestHost"); // 2
    push_utf8(&mut data, "NestMembers"); // 3
    push_utf8(&mut data, "PermittedSubclasses"); // 4
    push_utf8(&mut data, "BootstrapMethods"); // 5
    push_utf8(&mut data, "Custom"); // 6
    data.push(7); // 7: ClassIndex -> 8
    push_u16(&mut data, 8);
    push_utf8(&mut data, "Outer"); // 8
    push_u16(&mut data, 0); // access flags
    push_u16(&mut data, 7); // this
    push_u16(&mut data, 7); // super
    push_u16(&mut data, 0); // interfaces
    push_u16(&mut data, 0); // fields
    push_u16(&mut data, 0); // methods
    push_u16(&mut data, 6); // class attributes
    push_u16(&mut data, 1); // LineNumberTable
    push_u32(&mut data, 6);
    push_u16(&mut data, 1);
    push_u16(&mut data, 0);
    push_u16(&mut data, 7);
    push_u16(&mut data, 2); // NestHost
    push_u32(&mut data, 2);
    push_u16(&mut data, 7);
    push_u16(&mut data, 3); // NestMembers
    push_u32(&mut data, 4);
    push_u16(&mut data, 1);
    push_u16(&mut data, 7);
    push_u16(&mut data, 4); // PermittedSubclasses
    push_u32(&mut data, 4);
    push_u16(&mut data, 1);
    push_u16(&mut data, 7);
    push_u16(&mut data, 5); // BootstrapMethods
    push_u32(&mut data, 8);
    push_u16(&mut data, 1);
    push_u16(&mut data, 7);
    push_u16(&mut data, 1);
    push_u16(&mut data, 8);
    push_u16(&mut data, 6); // Custom
    push_u32(&mut data, 3);
    data.extend_from_slice(&[9, 9, 9]);

    let cf = ClassFileReader::read_class(&data).unwrap();
    assert_eq!(cf.this_class, "Outer".to_string());
    assert_eq!(cf.super_class, Some("Outer".to_string()));
    assert_eq!(cf.attributes.len(), 6);
    match &cf.attributes[0] {
        Attribute::LineNumberTable(t) => {
            assert_eq!(t.line_number_table, vec![LineNumber { start_pc: 0, line_number: 7 }]);
        },
        other => panic!("expected a LineNumberTable, found {:?}", other),
    }
    match &cf.attributes[1] {
        Attribute::NestHost(h) => assert_eq!(h.name, "Outer".to_string()),
        other => panic!("expected a NestHost, found {:?}", other),
    }
    match &cf.attributes[2] {
        Attribute::NestMembers(m) => assert_eq!(m.names, vec!["Outer".to_string()]),
        other => panic!("expected a NestMembers, found {:?}", other),
    }
    match &cf.attributes[3] {
        Attribute::PermittedSubclasses(p) => assert_eq!(p.names, vec!["Outer".to_string()]),
        other => panic!("expected a PermittedSubclasses, found {:?}", other),
    }
    match &cf.attributes[4] {
        Attribute::BootstrapMethods(b) => {
            assert_eq!(b.bootstrap_methods.len(), 1);
            assert_eq!(b.bootstrap_methods[0].bootstrap_method_ref, 7);
            assert_eq!(b.bootstrap_methods[0].bootstrap_arguments, vec![8]);
        },
        other => panic!("expected a BootstrapMethods, found {:?}", other),
    }
    match &cf.attributes[5] {
        Attribute::UserDefined(u) => {
            assert_eq!(u.name, "Custom".to_string());
            assert_eq!(u.info, vec![9, 9, 9]);
        },
        other => panic!("expected a user-defined attribute, found {:?}", other),
    }
}

#[test]
fn pool_survives_in_the_class_file() {
    let data = small_class(7, "I");
    let cf = ClassFileReader::read_class(&data).unwrap();
    assert_eq!(cf.constant_pool.get(7), Ok(&Constant::Integer(42)));
    assert_eq!(cf.constant_pool.get(8), Ok(&Constant::ClassIndex(9)));
    assert_eq!(cf.constant_pool.get(9), Ok(&Constant::Utf8("Main".to_string())));
}
