use rsjvm::class_file_reader::ClassReaderError;
use rsjvm::instruction::{decode_code, read_instruction, Instruction, WideInstruction};

#[test]
fn decode_three_simple_instructions() {
    let code = [0x03, 0x3b, 0xb1];
    let decoded = decode_code(&code).unwrap();
    assert_eq!(
        decoded,
        vec![
            (Instruction::Iconst_0, 0),
            (Instruction::Istore_0, 1),
            (Instruction::Return, 2),
        ]
    );
}

#[test]
fn decode_operand_instructions() {
    let code = [
        0x10, 0x2a, // bipush 42
        0x12, 0x07, // ldc 7
        0xb6, 0x00, 0x10, // invokevirtual 16
        0x84, 0x03, 0xff, // iinc 3, -1
        0x11, 0xff, 0xfe, // sipush -2
        0xa7, 0xff, 0xf3, // goto -13
    ];
    let decoded = decode_code(&code).unwrap();
    assert_eq!(
        decoded,
        vec![
            (Instruction::Bipush(0x2a), 0),
            (Instruction::Ldc(7), 2),
            (Instruction::Invokevirtual(16), 4),
            (Instruction::Iinc(3, -1), 7),
            (Instruction::Sipush(-2), 10),
            (Instruction::Goto(-13), 13),
        ]
    );
}

#[test]
fn decode_wide_forms() {
    let code = [
        0xc4, 0x15, 0x01, 0x00, // wide iload 256
        0xc4, 0x84, 0x00, 0x05, 0xff, 0xfe, // wide iinc 5, -2
    ];
    let decoded = decode_code(&code).unwrap();
    assert_eq!(
        decoded,
        vec![
            (Instruction::Wide(WideInstruction::Iload(256)), 0),
            (Instruction::Wide(WideInstruction::Iinc(5, -2)), 4),
        ]
    );
}

#[test]
fn decode_tableswitch_with_padding() {
    // Opcode at pc 0; three bytes of padding align the operands to 4.
    let code = [
        0xaa, 0x00, 0x00, 0x00, // tableswitch + padding
        0x00, 0x00, 0x00, 0x0c, // default 12
        0x00, 0x00, 0x00, 0x01, // low 1
        0x00, 0x00, 0x00, 0x02, // high 2
        0x00, 0x00, 0x00, 0x14, // offset for 1
        0x00, 0x00, 0x00, 0x1e, // offset for 2
    ];
    let (i, next) = read_instruction(&code, 0).unwrap();
    assert_eq!(next, 24);
    assert_eq!(
        i,
        Instruction::Tableswitch { default: 12, low: 1, high: 2, offsets: vec![20, 30] }
    );
}

#[test]
fn decode_lookupswitch_with_padding() {
    let code = [
        0x00, // nop, so the switch sits at pc 1 and needs 2 padding bytes
        0xab, 0x00, 0x00, // lookupswitch + padding
        0x00, 0x00, 0x00, 0x08, // default 8
        0x00, 0x00, 0x00, 0x01, // npairs 1
        0x00, 0x00, 0x00, 0x63, // match 99
        0x00, 0x00, 0x00, 0x10, // offset 16
    ];
    let decoded = decode_code(&code).unwrap();
    assert_eq!(decoded[0], (Instruction::Nop, 0));
    assert_eq!(
        decoded[1],
        (Instruction::Lookupswitch { default: 8, pairs: vec![(99, 16)] }, 1)
    );
}

#[test]
fn decode_invokeinterface_consumes_padding() {
    let code = [0xb9, 0x00, 0x02, 0x01, 0x00];
    let decoded = decode_code(&code).unwrap();
    assert_eq!(decoded, vec![(Instruction::Invokeinterface(2, 1), 0)]);
}

#[test]
fn unknown_opcode_is_an_error() {
    let code = [0xcb];
    assert!(matches!(
        decode_code(&code),
        Err(ClassReaderError::UnknownOpcode(0xcb))
    ));
}

#[test]
fn truncated_instruction_is_an_error() {
    let code = [0x10]; // bipush missing its operand
    assert!(matches!(
        decode_code(&code),
        Err(ClassReaderError::ReadError(rsjvm::byte_reader::ReadError::UnexpectedEOF))
    ));
}

#[test]
fn goto_w_and_jsr() {
    let code = [
        0xc8, 0x00, 0x00, 0x01, 0x00, // goto_w 256
        0xa8, 0x00, 0x03, // jsr 3
    ];
    let decoded = decode_code(&code).unwrap();
    assert_eq!(
        decoded,
        vec![(Instruction::Goto_w(256), 0), (Instruction::Jsr(3), 5)]
    );
}

#[test]
fn pc_values_cover_the_whole_array() {
    // The layout law on a concrete stream: the first pc is 0, the pcs
    // strictly increase, and the encoded lengths sum to the array length.
    let code = [0x03, 0x10, 0x05, 0xb1];
    let decoded = decode_code(&code).unwrap();
    assert_eq!(decoded[0].1, 0);
    for w in decoded.windows(2) {
        assert!(w[0].1 < w[1].1);
    }
    assert_eq!(decoded.last().unwrap().1, 3);
}
