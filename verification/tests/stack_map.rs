use rsjvm::byte_reader::ByteReader;
use rsjvm::class_file_reader::ClassReaderError;
use rsjvm::constant_pool::{Constant, ConstantPool};
use rsjvm::attribute_reader::{read_stack_map_frame, read_verification_type};
use rsjvm::predefined_attributes::{StackMapFrame, VerificationTypeInfo};

fn pool_with_class_at_13() -> ConstantPool {
    let mut pool = ConstantPool::default();
    let mut i = 0;
    while i < 12 {
        pool.add(Constant::Integer(i));
        i += 1;
    }
    pool.add(Constant::ClassIndex(13));
    pool
}

#[test]
fn append_frame_with_object_local() {
    let pool = pool_with_class_at_13();
    let data = [252, 0x00, 0x1c, 0x07, 0x00, 0x0d];
    let mut reader = ByteReader::new(&data);
    let frame = read_stack_map_frame(&mut reader, &pool).unwrap();
    assert_eq!(
        frame,
        StackMapFrame::AppendFrame {
            frame_type: 252,
            offset_delta: 28,
            locals: vec![VerificationTypeInfo::Object { constant: Constant::ClassIndex(13) }],
        }
    );
}

#[test]
fn same_frame_and_extended_forms() {
    let pool = ConstantPool::default();
    let data = [5];
    let mut reader = ByteReader::new(&data);
    assert_eq!(
        read_stack_map_frame(&mut reader, &pool).unwrap(),
        StackMapFrame::SameFrame { frame_type: 5 }
    );

    let data = [251, 0x01, 0x02];
    let mut reader = ByteReader::new(&data);
    assert_eq!(
        read_stack_map_frame(&mut reader, &pool).unwrap(),
        StackMapFrame::SameFrameExtended { frame_type: 251, offset_delta: 258 }
    );

    let data = [248, 0x00, 0x07];
    let mut reader = ByteReader::new(&data);
    assert_eq!(
        read_stack_map_frame(&mut reader, &pool).unwrap(),
        StackMapFrame::ChopFrame { frame_type: 248, offset_delta: 7 }
    );
}

#[test]
fn full_frame_collects_both_lists() {
    let pool = ConstantPool::default();
    let data = [
        255, 0x00, 0x09, // full frame, offset_delta 9
        0x00, 0x02, 1, 4, // two locals: Integer, Long
        0x00, 0x01, 8, 0x00, 0x03, // one stack slot: Uninitialized { offset: 3 }
    ];
    let mut reader = ByteReader::new(&data);
    assert_eq!(
        read_stack_map_frame(&mut reader, &pool).unwrap(),
        StackMapFrame::FullFrame {
            frame_type: 255,
            offset_delta: 9,
            locals: vec![VerificationTypeInfo::Integer, VerificationTypeInfo::Long],
            stack: vec![VerificationTypeInfo::Uninitialized { offset: 3 }],
        }
    );
}

#[test]
fn reserved_frame_type_is_an_error() {
    let pool = ConstantPool::default();
    let data = [128];
    let mut reader = ByteReader::new(&data);
    assert!(matches!(
        read_stack_map_frame(&mut reader, &pool),
        Err(ClassReaderError::InvalidStackMapFrameType(128))
    ));
}

#[test]
fn bad_verification_tag_is_an_error() {
    let pool = ConstantPool::default();
    let data = [9];
    let mut reader = ByteReader::new(&data);
    assert!(matches!(
        read_verification_type(&mut reader, &pool),
        Err(ClassReaderError::InvalidVerificationType(9))
    ));
}
