//! The JVM instruction set: one variant per opcode, carrying the decoded
//! operands, and the decoder that reads one instruction or a whole
//! bytecode array. The specification layer states, byte for byte, which
//! instruction a position decodes to and where the next one starts.

use vstd::prelude::*;
use vstd::slice::slice_index_get;

use crate::byte_reader::{i16_at, i32_at, i8_at, u16_at, u32_at, ReadError};
use crate::class_file_reader::ClassReaderError;

verus! {

/// The instruction a `wide` opcode modifies, with its widened operands.
#[derive(Debug, Clone, Copy, PartialEq, Eq, Structural)]
pub enum WideInstruction {
    Iload(u16),
    Lload(u16),
    Fload(u16),
    Dload(u16),
    Aload(u16),
    Istore(u16),
    Lstore(u16),
    Fstore(u16),
    Dstore(u16),
    Astore(u16),
    Ret(u16),
    Iinc(u16, i16),
}

/// One JVM instruction with its decoded operands.
#[allow(non_camel_case_types)]
#[derive(Debug, Clone, PartialEq)]
pub enum Instruction {
    Nop,
    Aconst_null,
    Iconst_m1,
    Iconst_0,
    Iconst_1,
    Iconst_2,
    Iconst_3,
    Iconst_4,
    Iconst_5,
    Lconst_0,
    Lconst_1,
    Fconst_0,
    Fconst_1,
    Fconst_2,
    Dconst_0,
    Dconst_1,
    Iload_0,
    Iload_1,
    Iload_2,
    Iload_3,
    Lload_0,
    Lload_1,
    Lload_2,
    Lload_3,
    Fload_0,
    Fload_1,
    Fload_2,
    Fload_3,
    Dload_0,
    Dload_1,
    Dload_2,
    Dload_3,
    Aload_0,
    Aload_1,
    Aload_2,
    Aload_3,
    Iaload,
    Laload,
    Faload,
    Daload,
    Aaload,
    Baload,
    Caload,
    Saload,
    Istore_0,
    Istore_1,
    Istore_2,
    Istore_3,
    Lstore_0,
    Lstore_1,
    Lstore_2,
    Lstore_3,
    Fstore_0,
    Fstore_1,
    Fstore_2,
    Fstore_3,
    Dstore_0,
    Dstore_1,
    Dstore_2,
    Dstore_3,
    Astore_0,
    Astore_1,
    Astore_2,
    Astore_3,
    Iastore,
    Lastore,
    Fastore,
    Dastore,
    Aastore,
    Bastore,
    Castore,
    Sastore,
    Pop,
    Pop2,
    Dup,
    Dup_x1,
    Dup_x2,
    Dup_2,
    Dup2_x1,
    Dup2_x2,
    Swap,
    Iadd,
    Ladd,
    Fadd,
    Dadd,
    Isub,
    Lsub,
    Fsub,
    Dsub,
    Imul,
    Lmul,
    Fmul,
    Dmul,
    Idiv,
    Ldiv,
    Fdiv,
    Ddiv,
    Irem,
    Lrem,
    Frem,
    Drem,
    Ineg,
    Lneg,
    Fneg,
    Dneg,
    Ishl,
    Lshl,
    Ishr,
    Lshr,
    Iushr,
    Lushr,
    Iand,
    Land,
    Ior,
    Lor,
    Ixor,
    Lxor,
    I2l,
    I2f,
    I2d,
    L2i,
    L2f,
    L2d,
    F2i,
    F2l,
    F2d,
    D2i,
    D2l,
    D2f,
    I2b,
    I2c,
    I2s,
    Lcmp,
    Fcmpl,
    Fcmpg,
    Dcmpl,
    Dcmpg,
    Ireturn,
    Lreturn,
    Freturn,
    Dreturn,
    Areturn,
    Return,
    Arraylength,
    Athrow,
    Monitorenter,
    Monitorexit,
    Bipush(u8),
    Ldc(u8),
    Iload(u8),
    Lload(u8),
    Fload(u8),
    Dload(u8),
    Aload(u8),
    Istore(u8),
    Lstore(u8),
    Fstore(u8),
    Dstore(u8),
    Astore(u8),
    Ret(u8),
    Newarray(u8),
    Ldc_w(u16),
    Ldc2_w(u16),
    Getstatic(u16),
    Putstatic(u16),
    Getfield(u16),
    Putfield(u16),
    Invokevirtual(u16),
    Invokespecial(u16),
    Invokestatic(u16),
    Invokedynamic(u16),
    New(u16),
    Anewarray(u16),
    Checkcast(u16),
    Instanceof(u16),
    Ifeq(i16),
    Ifne(i16),
    Iflt(i16),
    Ifge(i16),
    Ifgt(i16),
    Ifle(i16),
    If_icmpeq(i16),
    If_icmpne(i16),
    If_icmplt(i16),
    If_icmpge(i16),
    If_icmpgt(i16),
    If_icmple(i16),
    If_acmpeq(i16),
    If_acmpne(i16),
    Goto(i16),
    Jsr(i16),
    Ifnull(i16),
    Ifnonnull(i16),
    Sipush(i16),
    Iinc(u8, i8),
    Multianewarray(u16, u8),
    Invokeinterface(u16, u8),
    Goto_w(i32),
    Jsr_w(i32),
    Tableswitch { default: i32, low: i32, high: i32, offsets: Vec<i32> },
    Lookupswitch { default: i32, pairs: Vec<(i32, i32)> },
    Wide(WideInstruction),
}

/// The error a truncated instruction raises.
pub open spec fn spec_eof() -> ClassReaderError {
    ClassReaderError::ReadError(ReadError::UnexpectedEOF)
}

/// Opcodes that carry one byte operand.
pub open spec fn spec_opcode_u8_operand(b: u8) -> bool {
    b == 0x10 || b == 0x12 || b == 0x15 || b == 0x16 || b == 0x17 || b == 0x18 || b == 0x19 || b == 0x36 || b == 0x37 || b == 0x38 || b == 0x39 || b == 0x3a || b == 0xa9 || b == 0xbc
}

/// Opcodes that carry one two-byte operand.
pub open spec fn spec_opcode_u16_operand(b: u8) -> bool {
    b == 0x13 || b == 0x14 || b == 0xb2 || b == 0xb3 || b == 0xb4 || b == 0xb5 || b == 0xb6 || b == 0xb7 || b == 0xb8 || b == 0xba || b == 0xbb || b == 0xbd || b == 0xc0 || b == 0xc1
}

/// Opcodes that carry one signed 16-bit branch offset.
pub open spec fn spec_opcode_branch16(b: u8) -> bool {
    (0x99 <= b && b <= 0xa8) || b == 0xc6 || b == 0xc7
}

/// Assigned opcodes that carry no operand.
pub open spec fn spec_opcode_no_operand(b: u8) -> bool {
    b <= 0xc9 && !spec_opcode_u8_operand(b) && !spec_opcode_u16_operand(b)
        && !spec_opcode_branch16(b) && b != 0x11 && b != 0x84 && b != 0xaa && b != 0xab
        && b != 0xb9 && b != 0xc4 && b != 0xc5 && b != 0xc8 && b != 0xc9
}

/// Modifier opcodes that `wide` widens to a two-byte index.
pub open spec fn spec_wide_u16_modifier(m: u8) -> bool {
    m == 0x15 || m == 0x16 || m == 0x17 || m == 0x18 || m == 0x19 || m == 0x36 || m == 0x37 || m == 0x38 || m == 0x39 || m == 0x3a || m == 0xa9
}

/// Bytes of padding after a switch opcode at `pc`: they align the
/// operands that follow to a four-byte boundary.
pub open spec fn spec_switch_pad(pc: int) -> int {
    3 - pc % 4
}

/// How many jump offsets a `tableswitch` with bounds `low..=high` holds.
pub open spec fn spec_table_count(low: i32, high: i32) -> int {
    if high >= low {
        high - low + 1
    } else {
        0
    }
}

/// How many match pairs a `lookupswitch` with count `npairs` holds.
pub open spec fn spec_pair_count(npairs: i32) -> int {
    if npairs >= 0 {
        npairs as int
    } else {
        0
    }
}

/// `e` when it lies inside the code, the truncation error otherwise.
pub open spec fn spec_chk(code: Seq<u8>, e: int) -> Result<int, ClassReaderError> {
    if e <= code.len() {
        Ok(e)
    } else {
        Err(spec_eof())
    }
}

/// Where the instruction at `pc` ends (the pc of the next one), or the
/// error that position raises: `UnknownOpcode` for an unassigned opcode
/// byte or a bad `wide` modifier, and end-of-input for a truncated
/// encoding.
pub open spec fn spec_instr_end(code: Seq<u8>, pc: int) -> Result<int, ClassReaderError> {
    if pc >= code.len() {
        Err(spec_eof())
    } else {
        let b = code[pc];
        if spec_opcode_no_operand(b) {
            spec_chk(code, pc + 1)
        } else if spec_opcode_u8_operand(b) {
            spec_chk(code, pc + 2)
        } else if spec_opcode_u16_operand(b) || spec_opcode_branch16(b) || b == 0x11 || b == 0x84 {
            spec_chk(code, pc + 3)
        } else if b == 0xc5 {
            spec_chk(code, pc + 4)
        } else if b == 0xb9 || b == 0xc8 || b == 0xc9 {
            spec_chk(code, pc + 5)
        } else if b == 0xc4 {
            if pc + 2 > code.len() {
                Err(spec_eof())
            } else {
                let m = code[pc + 1];
                if m == 0x84 {
                    spec_chk(code, pc + 6)
                } else if spec_wide_u16_modifier(m) {
                    spec_chk(code, pc + 4)
                } else {
                    Err(ClassReaderError::UnknownOpcode(m))
                }
            }
        } else if b == 0xaa {
            let q = pc + 1 + spec_switch_pad(pc);
            if q + 12 > code.len() {
                Err(spec_eof())
            } else {
                spec_chk(code, q + 12 + 4 * spec_table_count(i32_at(code, q + 4), i32_at(code, q + 8)))
            }
        } else if b == 0xab {
            let q = pc + 1 + spec_switch_pad(pc);
            if q + 8 > code.len() {
                Err(spec_eof())
            } else {
                spec_chk(code, q + 8 + 8 * spec_pair_count(i32_at(code, q + 4)))
            }
        } else {
            Err(ClassReaderError::UnknownOpcode(b))
        }
    }
}

/// The operand-free instruction of opcode `b`.
pub open spec fn spec_simple_instr(b: u8) -> Instruction {
    match b {
        0x00u8 => Instruction::Nop,
        0x01u8 => Instruction::Aconst_null,
        0x02u8 => Instruction::Iconst_m1,
        0x03u8 => Instruction::Iconst_0,
        0x04u8 => Instruction::Iconst_1,
        0x05u8 => Instruction::Iconst_2,
        0x06u8 => Instruction::Iconst_3,
        0x07u8 => Instruction::Iconst_4,
        0x08u8 => Instruction::Iconst_5,
        0x09u8 => Instruction::Lconst_0,
        0x0au8 => Instruction::Lconst_1,
        0x0bu8 => Instruction::Fconst_0,
        0x0cu8 => Instruction::Fconst_1,
        0x0du8 => Instruction::Fconst_2,
        0x0eu8 => Instruction::Dconst_0,
        0x0fu8 => Instruction::Dconst_1,
        0x1au8 => Instruction::Iload_0,
        0x1bu8 => Instruction::Iload_1,
        0x1cu8 => Instruction::Iload_2,
        0x1du8 => Instruction::Iload_3,
        0x1eu8 => Instruction::Lload_0,
        0x1fu8 => Instruction::Lload_1,
        0x20u8 => Instruction::Lload_2,
        0x21u8 => Instruction::Lload_3,
        0x22u8 => Instruction::Fload_0,
        0x23u8 => Instruction::Fload_1,
        0x24u8 => Instruction::Fload_2,
        0x25u8 => Instruction::Fload_3,
        0x26u8 => Instruction::Dload_0,
        0x27u8 => Instruction::Dload_1,
        0x28u8 => Instruction::Dload_2,
        0x29u8 => Instruction::Dload_3,
        0x2au8 => Instruction::Aload_0,
        0x2bu8 => Instruction::Aload_1,
        0x2cu8 => Instruction::Aload_2,
        0x2du8 => Instruction::Aload_3,
        0x2eu8 => Instruction::Iaload,
        0x2fu8 => Instruction::Laload,
        0x30u8 => Instruction::Faload,
        0x31u8 => Instruction::Daload,
        0x32u8 => Instruction::Aaload,
        0x33u8 => Instruction::Baload,
        0x34u8 => Instruction::Caload,
        0x35u8 => Instruction::Saload,
        0x3bu8 => Instruction::Istore_0,
        0x3cu8 => Instruction::Istore_1,
        0x3du8 => Instruction::Istore_2,
        0x3eu8 => Instruction::Istore_3,
        0x3fu8 => Instruction::Lstore_0,
        0x40u8 => Instruction::Lstore_1,
        0x41u8 => Instruction::Lstore_2,
        0x42u8 => Instruction::Lstore_3,
        0x43u8 => Instruction::Fstore_0,
        0x44u8 => Instruction::Fstore_1,
        0x45u8 => Instruction::Fstore_2,
        0x46u8 => Instruction::Fstore_3,
        0x47u8 => Instruction::Dstore_0,
        0x48u8 => Instruction::Dstore_1,
        0x49u8 => Instruction::Dstore_2,
        0x4au8 => Instruction::Dstore_3,
        0x4bu8 => Instruction::Astore_0,
        0x4cu8 => Instruction::Astore_1,
        0x4du8 => Instruction::Astore_2,
        0x4eu8 => Instruction::Astore_3,
        0x4fu8 => Instruction::Iastore,
        0x50u8 => Instruction::Lastore,
        0x51u8 => Instruction::Fastore,
        0x52u8 => Instruction::Dastore,
        0x53u8 => Instruction::Aastore,
        0x54u8 => Instruction::Bastore,
        0x55u8 => Instruction::Castore,
        0x56u8 => Instruction::Sastore,
        0x57u8 => Instruction::Pop,
        0x58u8 => Instruction::Pop2,
        0x59u8 => Instruction::Dup,
        0x5au8 => Instruction::Dup_x1,
        0x5bu8 => Instruction::Dup_x2,
        0x5cu8 => Instruction::Dup_2,
        0x5du8 => Instruction::Dup2_x1,
        0x5eu8 => Instruction::Dup2_x2,
        0x5fu8 => Instruction::Swap,
        0x60u8 => Instruction::Iadd,
        0x61u8 => Instruction::Ladd,
        0x62u8 => Instruction::Fadd,
        0x63u8 => Instruction::Dadd,
        0x64u8 => Instruction::Isub,
        0x65u8 => Instruction::Lsub,
        0x66u8 => Instruction::Fsub,
        0x67u8 => Instruction::Dsub,
        0x68u8 => Instruction::Imul,
        0x69u8 => Instruction::Lmul,
        0x6au8 => Instruction::Fmul,
        0x6bu8 => Instruction::Dmul,
        0x6cu8 => Instruction::Idiv,
        0x6du8 => Instruction::Ldiv,
        0x6eu8 => Instruction::Fdiv,
        0x6fu8 => Instruction::Ddiv,
        0x70u8 => Instruction::Irem,
        0x71u8 => Instruction::Lrem,
        0x72u8 => Instruction::Frem,
        0x73u8 => Instruction::Drem,
        0x74u8 => Instruction::Ineg,
        0x75u8 => Instruction::Lneg,
        0x76u8 => Instruction::Fneg,
        0x77u8 => Instruction::Dneg,
        0x78u8 => Instruction::Ishl,
        0x79u8 => Instruction::Lshl,
        0x7au8 => Instruction::Ishr,
        0x7bu8 => Instruction::Lshr,
        0x7cu8 => Instruction::Iushr,
        0x7du8 => Instruction::Lushr,
        0x7eu8 => Instruction::Iand,
        0x7fu8 => Instruction::Land,
        0x80u8 => Instruction::Ior,
        0x81u8 => Instruction::Lor,
        0x82u8 => Instruction::Ixor,
        0x83u8 => Instruction::Lxor,
        0x85u8 => Instruction::I2l,
        0x86u8 => Instruction::I2f,
        0x87u8 => Instruction::I2d,
        0x88u8 => Instruction::L2i,
        0x89u8 => Instruction::L2f,
        0x8au8 => Instruction::L2d,
        0x8bu8 => Instruction::F2i,
        0x8cu8 => Instruction::F2l,
        0x8du8 => Instruction::F2d,
        0x8eu8 => Instruction::D2i,
        0x8fu8 => Instruction::D2l,
        0x90u8 => Instruction::D2f,
        0x91u8 => Instruction::I2b,
        0x92u8 => Instruction::I2c,
        0x93u8 => Instruction::I2s,
        0x94u8 => Instruction::Lcmp,
        0x95u8 => Instruction::Fcmpl,
        0x96u8 => Instruction::Fcmpg,
        0x97u8 => Instruction::Dcmpl,
        0x98u8 => Instruction::Dcmpg,
        0xacu8 => Instruction::Ireturn,
        0xadu8 => Instruction::Lreturn,
        0xaeu8 => Instruction::Freturn,
        0xafu8 => Instruction::Dreturn,
        0xb0u8 => Instruction::Areturn,
        0xb1u8 => Instruction::Return,
        0xbeu8 => Instruction::Arraylength,
        0xbfu8 => Instruction::Athrow,
        0xc2u8 => Instruction::Monitorenter,
        0xc3u8 => Instruction::Monitorexit,
        _ => Instruction::Nop,
    }
}

/// The instruction of a one-byte-operand opcode `b` with operand `v`.
pub open spec fn spec_u8_instr(b: u8, v: u8) -> Instruction {
    match b {
        0x10u8 => Instruction::Bipush(v),
        0x12u8 => Instruction::Ldc(v),
        0x15u8 => Instruction::Iload(v),
        0x16u8 => Instruction::Lload(v),
        0x17u8 => Instruction::Fload(v),
        0x18u8 => Instruction::Dload(v),
        0x19u8 => Instruction::Aload(v),
        0x36u8 => Instruction::Istore(v),
        0x37u8 => Instruction::Lstore(v),
        0x38u8 => Instruction::Fstore(v),
        0x39u8 => Instruction::Dstore(v),
        0x3au8 => Instruction::Astore(v),
        0xa9u8 => Instruction::Ret(v),
        0xbcu8 => Instruction::Newarray(v),
        _ => Instruction::Nop,
    }
}

/// The instruction of a two-byte-operand opcode `b` with operand `v`.
pub open spec fn spec_u16_instr(b: u8, v: u16) -> Instruction {
    match b {
        0x13u8 => Instruction::Ldc_w(v),
        0x14u8 => Instruction::Ldc2_w(v),
        0xb2u8 => Instruction::Getstatic(v),
        0xb3u8 => Instruction::Putstatic(v),
        0xb4u8 => Instruction::Getfield(v),
        0xb5u8 => Instruction::Putfield(v),
        0xb6u8 => Instruction::Invokevirtual(v),
        0xb7u8 => Instruction::Invokespecial(v),
        0xb8u8 => Instruction::Invokestatic(v),
        0xbau8 => Instruction::Invokedynamic(v),
        0xbbu8 => Instruction::New(v),
        0xbdu8 => Instruction::Anewarray(v),
        0xc0u8 => Instruction::Checkcast(v),
        0xc1u8 => Instruction::Instanceof(v),
        _ => Instruction::Nop,
    }
}

/// The instruction of a branch opcode `b` with offset `off`.
pub open spec fn spec_branch_instr(b: u8, off: i16) -> Instruction {
    match b {
        0x99u8 => Instruction::Ifeq(off),
        0x9au8 => Instruction::Ifne(off),
        0x9bu8 => Instruction::Iflt(off),
        0x9cu8 => Instruction::Ifge(off),
        0x9du8 => Instruction::Ifgt(off),
        0x9eu8 => Instruction::Ifle(off),
        0x9fu8 => Instruction::If_icmpeq(off),
        0xa0u8 => Instruction::If_icmpne(off),
        0xa1u8 => Instruction::If_icmplt(off),
        0xa2u8 => Instruction::If_icmpge(off),
        0xa3u8 => Instruction::If_icmpgt(off),
        0xa4u8 => Instruction::If_icmple(off),
        0xa5u8 => Instruction::If_acmpeq(off),
        0xa6u8 => Instruction::If_acmpne(off),
        0xa7u8 => Instruction::Goto(off),
        0xa8u8 => Instruction::Jsr(off),
        0xc6u8 => Instruction::Ifnull(off),
        0xc7u8 => Instruction::Ifnonnull(off),
        _ => Instruction::Nop,
    }
}

/// The widened instruction of modifier `m` with index `v`.
pub open spec fn spec_wide_u16_instr(m: u8, v: u16) -> WideInstruction {
    match m {
        0x15u8 => WideInstruction::Iload(v),
        0x16u8 => WideInstruction::Lload(v),
        0x17u8 => WideInstruction::Fload(v),
        0x18u8 => WideInstruction::Dload(v),
        0x19u8 => WideInstruction::Aload(v),
        0x36u8 => WideInstruction::Istore(v),
        0x37u8 => WideInstruction::Lstore(v),
        0x38u8 => WideInstruction::Fstore(v),
        0x39u8 => WideInstruction::Dstore(v),
        0x3au8 => WideInstruction::Astore(v),
        0xa9u8 => WideInstruction::Ret(v),
        _ => WideInstruction::Ret(v),
    }
}

/// Whether `i` is the instruction encoded at `pc`. Meaningful where
/// `spec_instr_end(code, pc)` is `Ok`; it then pins every operand to the
/// bytes. The padding bytes of a switch are not retained.
pub open spec fn spec_instr_matches(code: Seq<u8>, pc: int, i: Instruction) -> bool {
    let b = code[pc];
    if spec_opcode_no_operand(b) {
        i == spec_simple_instr(b)
    } else if spec_opcode_u8_operand(b) {
        i == spec_u8_instr(b, code[pc + 1])
    } else if spec_opcode_u16_operand(b) {
        i == spec_u16_instr(b, u16_at(code, pc + 1))
    } else if spec_opcode_branch16(b) {
        i == spec_branch_instr(b, i16_at(code, pc + 1))
    } else if b == 0x11 {
        i == Instruction::Sipush(i16_at(code, pc + 1))
    } else if b == 0x84 {
        i == Instruction::Iinc(code[pc + 1], i8_at(code, pc + 2))
    } else if b == 0xc5 {
        i == Instruction::Multianewarray(u16_at(code, pc + 1), code[pc + 3])
    } else if b == 0xb9 {
        i == Instruction::Invokeinterface(u16_at(code, pc + 1), code[pc + 3])
    } else if b == 0xc8 {
        i == Instruction::Goto_w(i32_at(code, pc + 1))
    } else if b == 0xc9 {
        i == Instruction::Jsr_w(i32_at(code, pc + 1))
    } else if b == 0xc4 {
        let m = code[pc + 1];
        if m == 0x84 {
            i == Instruction::Wide(WideInstruction::Iinc(u16_at(code, pc + 2), i16_at(code, pc + 4)))
        } else {
            i == Instruction::Wide(spec_wide_u16_instr(m, u16_at(code, pc + 2)))
        }
    } else if b == 0xaa {
        let q = pc + 1 + spec_switch_pad(pc);
        let low = i32_at(code, q + 4);
        let high = i32_at(code, q + 8);
        let n = spec_table_count(low, high);
        i matches Instruction::Tableswitch { default, low: l, high: h, offsets } && default
            == i32_at(code, q) && l == low && h == high && offsets@ == Seq::new(
            n as nat,
            |k: int| i32_at(code, q + 12 + 4 * k),
        )
    } else if b == 0xab {
        let q = pc + 1 + spec_switch_pad(pc);
        let n = spec_pair_count(i32_at(code, q + 4));
        i matches Instruction::Lookupswitch { default, pairs } && default == i32_at(code, q)
            && pairs@ == Seq::new(
            n as nat,
            |k: int| (i32_at(code, q + 8 + 8 * k), i32_at(code, q + 12 + 8 * k)),
        )
    } else {
        false
    }
}

/// A decoded instruction ends after the position it starts at and inside
/// the code.
pub proof fn lemma_instr_end_advances(code: Seq<u8>, pc: int)
    requires
        0 <= pc,
        spec_instr_end(code, pc) is Ok,
    ensures
        pc < spec_instr_end(code, pc).unwrap() <= code.len(),
{
    let b = code[pc];
    if b == 0xaa || b == 0xab {
        assert(0 <= pc % 4 < 4);
    }
}

/// The byte at `i`, or the truncation error past the end.
fn take_u8(code: &[u8], i: usize) -> (r: Result<u8, ClassReaderError>)
    ensures
        i < code@.len() ==> r == Ok::<u8, ClassReaderError>(code@[i as int]),
        i >= code@.len() ==> r == Err::<u8, ClassReaderError>(spec_eof()),
{
    if i < code.len() {
        Ok(*slice_index_get(code, i))
    } else {
        Err(ClassReaderError::ReadError(ReadError::UnexpectedEOF))
    }
}

/// The big-endian `u16` at `i`, or the truncation error.
fn take_u16(code: &[u8], i: usize) -> (r: Result<u16, ClassReaderError>)
    requires
        i <= code@.len(),
    ensures
        i + 2 <= code@.len() ==> r == Ok::<u16, ClassReaderError>(u16_at(code@, i as int)),
        i + 2 > code@.len() ==> r == Err::<u16, ClassReaderError>(spec_eof()),
{
    if code.len() - i < 2 {
        Err(ClassReaderError::ReadError(ReadError::UnexpectedEOF))
    } else {
        let b0 = *slice_index_get(code, i);
        let b1 = *slice_index_get(code, i + 1);
        Ok((b0 as u16) * 0x100 + (b1 as u16))
    }
}

/// The big-endian `i16` at `i`, or the truncation error.
fn take_i16(code: &[u8], i: usize) -> (r: Result<i16, ClassReaderError>)
    requires
        i <= code@.len(),
    ensures
        i + 2 <= code@.len() ==> r == Ok::<i16, ClassReaderError>(i16_at(code@, i as int)),
        i + 2 > code@.len() ==> r == Err::<i16, ClassReaderError>(spec_eof()),
{
    let v = take_u16(code, i)?;
    if v >= 0x8000 {
        Ok(-((u16::MAX - v) as i16) - 1)
    } else {
        Ok(v as i16)
    }
}

/// The `i8` at `i`, or the truncation error.
fn take_i8(code: &[u8], i: usize) -> (r: Result<i8, ClassReaderError>)
    ensures
        i < code@.len() ==> r == Ok::<i8, ClassReaderError>(i8_at(code@, i as int)),
        i >= code@.len() ==> r == Err::<i8, ClassReaderError>(spec_eof()),
{
    let v = take_u8(code, i)?;
    if v >= 0x80 {
        Ok(-((u8::MAX - v) as i8) - 1)
    } else {
        Ok(v as i8)
    }
}

/// The big-endian `i32` at `i`, or the truncation error.
fn take_i32(code: &[u8], i: usize) -> (r: Result<i32, ClassReaderError>)
    requires
        i <= code@.len(),
    ensures
        i + 4 <= code@.len() ==> r == Ok::<i32, ClassReaderError>(i32_at(code@, i as int)),
        i + 4 > code@.len() ==> r == Err::<i32, ClassReaderError>(spec_eof()),
{
    if code.len() - i < 4 {
        Err(ClassReaderError::ReadError(ReadError::UnexpectedEOF))
    } else {
        let b0 = *slice_index_get(code, i);
        let b1 = *slice_index_get(code, i + 1);
        let b2 = *slice_index_get(code, i + 2);
        let b3 = *slice_index_get(code, i + 3);
        let v = (b0 as u32) * 0x100_0000 + (b1 as u32) * 0x1_0000 + (b2 as u32) * 0x100 + (b3
            as u32);
        proof {
            assert(v == u32_at(code@, i as int));
        }
        if v >= 0x8000_0000 {
            Ok(-((u32::MAX - v) as i32) - 1)
        } else {
            Ok(v as i32)
        }
    }
}

/// The operand-free instruction of `b`, when `b` is such an opcode.
fn simple_instruction(b: u8) -> (r: Option<Instruction>)
    ensures
        r is Some <==> spec_opcode_no_operand(b),
        r matches Some(i) ==> i == spec_simple_instr(b),
{
    match b {
        0x00 => Some(Instruction::Nop),
        0x01 => Some(Instruction::Aconst_null),
        0x02 => Some(Instruction::Iconst_m1),
        0x03 => Some(Instruction::Iconst_0),
        0x04 => Some(Instruction::Iconst_1),
        0x05 => Some(Instruction::Iconst_2),
        0x06 => Some(Instruction::Iconst_3),
        0x07 => Some(Instruction::Iconst_4),
        0x08 => Some(Instruction::Iconst_5),
        0x09 => Some(Instruction::Lconst_0),
        0x0a => Some(Instruction::Lconst_1),
        0x0b => Some(Instruction::Fconst_0),
        0x0c => Some(Instruction::Fconst_1),
        0x0d => Some(Instruction::Fconst_2),
        0x0e => Some(Instruction::Dconst_0),
        0x0f => Some(Instruction::Dconst_1),
        0x1a => Some(Instruction::Iload_0),
        0x1b => Some(Instruction::Iload_1),
        0x1c => Some(Instruction::Iload_2),
        0x1d => Some(Instruction::Iload_3),
        0x1e => Some(Instruction::Lload_0),
        0x1f => Some(Instruction::Lload_1),
        0x20 => Some(Instruction::Lload_2),
        0x21 => Some(Instruction::Lload_3),
        0x22 => Some(Instruction::Fload_0),
        0x23 => Some(Instruction::Fload_1),
        0x24 => Some(Instruction::Fload_2),
        0x25 => Some(Instruction::Fload_3),
        0x26 => Some(Instruction::Dload_0),
        0x27 => Some(Instruction::Dload_1),
        0x28 => Some(Instruction::Dload_2),
        0x29 => Some(Instruction::Dload_3),
        0x2a => Some(Instruction::Aload_0),
        0x2b => Some(Instruction::Aload_1),
        0x2c => Some(Instruction::Aload_2),
        0x2d => Some(Instruction::Aload_3),
        0x2e => Some(Instruction::Iaload),
        0x2f => Some(Instruction::Laload),
        0x30 => Some(Instruction::Faload),
        0x31 => Some(Instruction::Daload),
        0x32 => Some(Instruction::Aaload),
        0x33 => Some(Instruction::Baload),
        0x34 => Some(Instruction::Caload),
        0x35 => Some(Instruction::Saload),
        0x3b => Some(Instruction::Istore_0),
        0x3c => Some(Instruction::Istore_1),
        0x3d => Some(Instruction::Istore_2),
        0x3e => Some(Instruction::Istore_3),
        0x3f => Some(Instruction::Lstore_0),
        0x40 => Some(Instruction::Lstore_1),
        0x41 => Some(Instruction::Lstore_2),
        0x42 => Some(Instruction::Lstore_3),
        0x43 => Some(Instruction::Fstore_0),
        0x44 => Some(Instruction::Fstore_1),
        0x45 => Some(Instruction::Fstore_2),
        0x46 => Some(Instruction::Fstore_3),
        0x47 => Some(Instruction::Dstore_0),
        0x48 => Some(Instruction::Dstore_1),
        0x49 => Some(Instruction::Dstore_2),
        0x4a => Some(Instruction::Dstore_3),
        0x4b => Some(Instruction::Astore_0),
        0x4c => Some(Instruction::Astore_1),
        0x4d => Some(Instruction::Astore_2),
        0x4e => Some(Instruction::Astore_3),
        0x4f => Some(Instruction::Iastore),
        0x50 => Some(Instruction::Lastore),
        0x51 => Some(Instruction::Fastore),
        0x52 => Some(Instruction::Dastore),
        0x53 => Some(Instruction::Aastore),
        0x54 => Some(Instruction::Bastore),
        0x55 => Some(Instruction::Castore),
        0x56 => Some(Instruction::Sastore),
        0x57 => Some(Instruction::Pop),
        0x58 => Some(Instruction::Pop2),
        0x59 => Some(Instruction::Dup),
        0x5a => Some(Instruction::Dup_x1),
        0x5b => Some(Instruction::Dup_x2),
        0x5c => Some(Instruction::Dup_2),
        0x5d => Some(Instruction::Dup2_x1),
        0x5e => Some(Instruction::Dup2_x2),
        0x5f => Some(Instruction::Swap),
        0x60 => Some(Instruction::Iadd),
        0x61 => Some(Instruction::Ladd),
        0x62 => Some(Instruction::Fadd),
        0x63 => Some(Instruction::Dadd),
        0x64 => Some(Instruction::Isub),
        0x65 => Some(Instruction::Lsub),
        0x66 => Some(Instruction::Fsub),
        0x67 => Some(Instruction::Dsub),
        0x68 => Some(Instruction::Imul),
        0x69 => Some(Instruction::Lmul),
        0x6a => Some(Instruction::Fmul),
        0x6b => Some(Instruction::Dmul),
        0x6c => Some(Instruction::Idiv),
        0x6d => Some(Instruction::Ldiv),
        0x6e => Some(Instruction::Fdiv),
        0x6f => Some(Instruction::Ddiv),
        0x70 => Some(Instruction::Irem),
        0x71 => Some(Instruction::Lrem),
        0x72 => Some(Instruction::Frem),
        0x73 => Some(Instruction::Drem),
        0x74 => Some(Instruction::Ineg),
        0x75 => Some(Instruction::Lneg),
        0x76 => Some(Instruction::Fneg),
        0x77 => Some(Instruction::Dneg),
        0x78 => Some(Instruction::Ishl),
        0x79 => Some(Instruction::Lshl),
        0x7a => Some(Instruction::Ishr),
        0x7b => Some(Instruction::Lshr),
        0x7c => Some(Instruction::Iushr),
        0x7d => Some(Instruction::Lushr),
        0x7e => Some(Instruction::Iand),
        0x7f => Some(Instruction::Land),
        0x80 => Some(Instruction::Ior),
        0x81 => Some(Instruction::Lor),
        0x82 => Some(Instruction::Ixor),
        0x83 => Some(Instruction::Lxor),
        0x85 => Some(Instruction::I2l),
        0x86 => Some(Instruction::I2f),
        0x87 => Some(Instruction::I2d),
        0x88 => Some(Instruction::L2i),
        0x89 => Some(Instruction::L2f),
        0x8a => Some(Instruction::L2d),
        0x8b => Some(Instruction::F2i),
        0x8c => Some(Instruction::F2l),
        0x8d => Some(Instruction::F2d),
        0x8e => Some(Instruction::D2i),
        0x8f => Some(Instruction::D2l),
        0x90 => Some(Instruction::D2f),
        0x91 => Some(Instruction::I2b),
        0x92 => Some(Instruction::I2c),
        0x93 => Some(Instruction::I2s),
        0x94 => Some(Instruction::Lcmp),
        0x95 => Some(Instruction::Fcmpl),
        0x96 => Some(Instruction::Fcmpg),
        0x97 => Some(Instruction::Dcmpl),
        0x98 => Some(Instruction::Dcmpg),
        0xac => Some(Instruction::Ireturn),
        0xad => Some(Instruction::Lreturn),
        0xae => Some(Instruction::Freturn),
        0xaf => Some(Instruction::Dreturn),
        0xb0 => Some(Instruction::Areturn),
        0xb1 => Some(Instruction::Return),
        0xbe => Some(Instruction::Arraylength),
        0xbf => Some(Instruction::Athrow),
        0xc2 => Some(Instruction::Monitorenter),
        0xc3 => Some(Instruction::Monitorexit),
        _ => None,
    }
}

/// Whether `b` carries one byte operand.
fn opcode_has_u8_operand(b: u8) -> (r: bool)
    ensures
        r == spec_opcode_u8_operand(b),
{
    match b {
        0x10 | 0x12 | 0x15 | 0x16 | 0x17 | 0x18 | 0x19 | 0x36 | 0x37 | 0x38 | 0x39 | 0x3a | 0xa9 | 0xbc => true,
        _ => false,
    }
}

/// The instruction of a one-byte-operand opcode.
fn u8_instruction(b: u8, v: u8) -> (r: Instruction)
    ensures
        r == spec_u8_instr(b, v),
{
    match b {
        0x10 => Instruction::Bipush(v),
        0x12 => Instruction::Ldc(v),
        0x15 => Instruction::Iload(v),
        0x16 => Instruction::Lload(v),
        0x17 => Instruction::Fload(v),
        0x18 => Instruction::Dload(v),
        0x19 => Instruction::Aload(v),
        0x36 => Instruction::Istore(v),
        0x37 => Instruction::Lstore(v),
        0x38 => Instruction::Fstore(v),
        0x39 => Instruction::Dstore(v),
        0x3a => Instruction::Astore(v),
        0xa9 => Instruction::Ret(v),
        0xbc => Instruction::Newarray(v),
        _ => Instruction::Nop,
    }
}

/// Whether `b` carries one two-byte operand.
fn opcode_has_u16_operand(b: u8) -> (r: bool)
    ensures
        r == spec_opcode_u16_operand(b),
{
    match b {
        0x13 | 0x14 | 0xb2 | 0xb3 | 0xb4 | 0xb5 | 0xb6 | 0xb7 | 0xb8 | 0xba | 0xbb | 0xbd | 0xc0 | 0xc1 => true,
        _ => false,
    }
}

/// The instruction of a two-byte-operand opcode.
fn u16_instruction(b: u8, v: u16) -> (r: Instruction)
    ensures
        r == spec_u16_instr(b, v),
{
    match b {
        0x13 => Instruction::Ldc_w(v),
        0x14 => Instruction::Ldc2_w(v),
        0xb2 => Instruction::Getstatic(v),
        0xb3 => Instruction::Putstatic(v),
        0xb4 => Instruction::Getfield(v),
        0xb5 => Instruction::Putfield(v),
        0xb6 => Instruction::Invokevirtual(v),
        0xb7 => Instruction::Invokespecial(v),
        0xb8 => Instruction::Invokestatic(v),
        0xba => Instruction::Invokedynamic(v),
        0xbb => Instruction::New(v),
        0xbd => Instruction::Anewarray(v),
        0xc0 => Instruction::Checkcast(v),
        0xc1 => Instruction::Instanceof(v),
        _ => Instruction::Nop,
    }
}

/// Whether `b` is a branch opcode with a signed 16-bit offset.
fn opcode_is_branch16(b: u8) -> (r: bool)
    ensures
        r == spec_opcode_branch16(b),
{
    (0x99 <= b && b <= 0xa8) || b == 0xc6 || b == 0xc7
}

/// The instruction of a branch opcode.
fn branch_instruction(b: u8, off: i16) -> (r: Instruction)
    ensures
        r == spec_branch_instr(b, off),
{
    match b {
        0x99 => Instruction::Ifeq(off),
        0x9a => Instruction::Ifne(off),
        0x9b => Instruction::Iflt(off),
        0x9c => Instruction::Ifge(off),
        0x9d => Instruction::Ifgt(off),
        0x9e => Instruction::Ifle(off),
        0x9f => Instruction::If_icmpeq(off),
        0xa0 => Instruction::If_icmpne(off),
        0xa1 => Instruction::If_icmplt(off),
        0xa2 => Instruction::If_icmpge(off),
        0xa3 => Instruction::If_icmpgt(off),
        0xa4 => Instruction::If_icmple(off),
        0xa5 => Instruction::If_acmpeq(off),
        0xa6 => Instruction::If_acmpne(off),
        0xa7 => Instruction::Goto(off),
        0xa8 => Instruction::Jsr(off),
        0xc6 => Instruction::Ifnull(off),
        0xc7 => Instruction::Ifnonnull(off),
        _ => Instruction::Nop,
    }
}

/// The widened instruction of a `wide` modifier that takes a two-byte
/// index.
fn wide_u16_instruction(m: u8, v: u16) -> (r: WideInstruction)
    ensures
        r == spec_wide_u16_instr(m, v),
{
    match m {
        0x15 => WideInstruction::Iload(v),
        0x16 => WideInstruction::Lload(v),
        0x17 => WideInstruction::Fload(v),
        0x18 => WideInstruction::Dload(v),
        0x19 => WideInstruction::Aload(v),
        0x36 => WideInstruction::Istore(v),
        0x37 => WideInstruction::Lstore(v),
        0x38 => WideInstruction::Fstore(v),
        0x39 => WideInstruction::Dstore(v),
        0x3a => WideInstruction::Astore(v),
        0xa9 => WideInstruction::Ret(v),
        _ => WideInstruction::Ret(v),
    }
}

/// Reads the one instruction at `pc`, giving the instruction and the pc
/// of the next one.
pub fn read_instruction(code: &[u8], pc: usize) -> (r: Result<(Instruction, usize), ClassReaderError>)
    requires
        pc <= code@.len(),
        code@.len() <= u32::MAX,
    ensures
        (match r {
            Ok((i, next)) => spec_instr_end(code@, pc as int) == Ok::<int, ClassReaderError>(
                next as int,
            ) && spec_instr_matches(code@, pc as int, i),
            Err(e) => spec_instr_end(code@, pc as int) == Err::<int, ClassReaderError>(e),
        }),
{
    if pc >= code.len() {
        return Err(ClassReaderError::ReadError(ReadError::UnexpectedEOF));
    }
    let b = *slice_index_get(code, pc);
    if let Some(i) = simple_instruction(b) {
        Ok((i, pc + 1))
    } else if opcode_has_u8_operand(b) {
        let v = take_u8(code, pc + 1)?;
        Ok((u8_instruction(b, v), pc + 2))
    } else if opcode_has_u16_operand(b) {
        let v = take_u16(code, pc + 1)?;
        Ok((u16_instruction(b, v), pc + 3))
    } else if opcode_is_branch16(b) {
        let off = take_i16(code, pc + 1)?;
        Ok((branch_instruction(b, off), pc + 3))
    } else if b == 0x11 {
        let v = take_i16(code, pc + 1)?;
        Ok((Instruction::Sipush(v), pc + 3))
    } else if b == 0x84 {
        let index = take_u8(code, pc + 1)?;
        let delta = take_i8(code, pc + 2)?;
        Ok((Instruction::Iinc(index, delta), pc + 3))
    } else if b == 0xc5 {
        let index = take_u16(code, pc + 1)?;
        let dimensions = take_u8(code, pc + 3)?;
        Ok((Instruction::Multianewarray(index, dimensions), pc + 4))
    } else if b == 0xb9 {
        let index = take_u16(code, pc + 1)?;
        let count = take_u8(code, pc + 3)?;
        let _padding = take_u8(code, pc + 4)?;
        Ok((Instruction::Invokeinterface(index, count), pc + 5))
    } else if b == 0xc8 {
        let off = take_i32(code, pc + 1)?;
        Ok((Instruction::Goto_w(off), pc + 5))
    } else if b == 0xc9 {
        let off = take_i32(code, pc + 1)?;
        Ok((Instruction::Jsr_w(off), pc + 5))
    } else if b == 0xc4 {
        let m = take_u8(code, pc + 1)?;
        if m == 0x84 {
            let index = take_u16(code, pc + 2)?;
            let delta = take_i16(code, pc + 4)?;
            Ok((Instruction::Wide(WideInstruction::Iinc(index, delta)), pc + 6))
        } else {
            let is_u16_modifier = match m {
                0x15 | 0x16 | 0x17 | 0x18 | 0x19 | 0x36 | 0x37 | 0x38 | 0x39 | 0x3a | 0xa9 => true,
                _ => false,
            };
            if is_u16_modifier {
                let index = take_u16(code, pc + 2)?;
                Ok((Instruction::Wide(wide_u16_instruction(m, index)), pc + 4))
            } else {
                Err(ClassReaderError::UnknownOpcode(m))
            }
        }
    } else if b == 0xaa {
        let pad = 3 - (pc % 4);
        if code.len() - pc < 13 + pad {
            return Err(ClassReaderError::ReadError(ReadError::UnexpectedEOF));
        }
        let q = pc + 1 + pad;
        let default = take_i32(code, q)?;
        let low = take_i32(code, q + 4)?;
        let high = take_i32(code, q + 8)?;
        let n: u64 = if high >= low {
            ((high as i64) - (low as i64) + 1) as u64
        } else {
            0
        };
        proof {
            assert(n == spec_table_count(low, high));
        }
        if ((code.len() - q) as u64) < 12 + 4 * n {
            return Err(ClassReaderError::ReadError(ReadError::UnexpectedEOF));
        }
        let mut offsets: Vec<i32> = Vec::new();
        let mut idx = q + 12;
        let mut k: u64 = 0;
        while k < n
            invariant
                0 <= k <= n,
                idx == q + 12 + 4 * k,
                q + 12 + 4 * n <= code@.len(),
                code@.len() <= u32::MAX,
                offsets@.len() == k,
                forall|t: int|
                    0 <= t < k ==> offsets@[t] == i32_at(code@, q + 12 + 4 * t),
            decreases n - k,
        {
            let off = match take_i32(code, idx) {
                Ok(v) => v,
                Err(_) => {
                    proof {
                        assert(false);
                    }
                    return Err(ClassReaderError::ReadError(ReadError::UnexpectedEOF));
                },
            };
            offsets.push(off);
            idx = idx + 4;
            k = k + 1;
        }
        proof {
            assert(offsets@ =~= Seq::new(
                spec_table_count(low, high) as nat,
                |t: int| i32_at(code@, q + 12 + 4 * t),
            ));
        }
        Ok((Instruction::Tableswitch { default, low, high, offsets }, idx))
    } else if b == 0xab {
        let pad = 3 - (pc % 4);
        if code.len() - pc < 9 + pad {
            return Err(ClassReaderError::ReadError(ReadError::UnexpectedEOF));
        }
        let q = pc + 1 + pad;
        let default = take_i32(code, q)?;
        let npairs = take_i32(code, q + 4)?;
        let n: u64 = if npairs >= 0 {
            npairs as u64
        } else {
            0
        };
        proof {
            assert(n == spec_pair_count(npairs));
        }
        if ((code.len() - q) as u64) < 8 + 8 * n {
            return Err(ClassReaderError::ReadError(ReadError::UnexpectedEOF));
        }
        let mut pairs: Vec<(i32, i32)> = Vec::new();
        let mut idx = q + 8;
        let mut k: u64 = 0;
        while k < n
            invariant
                0 <= k <= n,
                idx == q + 8 + 8 * k,
                q + 8 + 8 * n <= code@.len(),
                code@.len() <= u32::MAX,
                pairs@.len() == k,
                forall|t: int|
                    0 <= t < k ==> pairs@[t] == (
                        i32_at(code@, q + 8 + 8 * t),
                        i32_at(code@, q + 12 + 8 * t),
                    ),
            decreases n - k,
        {
            let m = match take_i32(code, idx) {
                Ok(v) => v,
                Err(_) => {
                    proof {
                        assert(false);
                    }
                    return Err(ClassReaderError::ReadError(ReadError::UnexpectedEOF));
                },
            };
            let off = match take_i32(code, idx + 4) {
                Ok(v) => v,
                Err(_) => {
                    proof {
                        assert(false);
                    }
                    return Err(ClassReaderError::ReadError(ReadError::UnexpectedEOF));
                },
            };
            pairs.push((m, off));
            idx = idx + 8;
            k = k + 1;
        }
        proof {
            assert(pairs@ =~= Seq::new(
                spec_pair_count(npairs) as nat,
                |t: int| (i32_at(code@, q + 8 + 8 * t), i32_at(code@, q + 12 + 8 * t)),
            ));
        }
        Ok((Instruction::Lookupswitch { default, pairs }, idx))
    } else {
        Err(ClassReaderError::UnknownOpcode(b))
    }
}

/// Whether `out` lists, in order, the instructions encoded from `pc` up
/// to position `end`, each paired with its own pc.
pub open spec fn spec_code_matches_upto(
    code: Seq<u8>,
    pc: int,
    out: Seq<(Instruction, u32)>,
    end: int,
) -> bool
    decreases out.len(),
{
    if out.len() == 0 {
        end == pc
    } else {
        match spec_instr_end(code, pc) {
            Ok(next) => out[0].1 == pc && spec_instr_matches(code, pc, out[0].0)
                && spec_code_matches_upto(code, next, out.drop_first(), end),
            Err(_) => false,
        }
    }
}

/// Whether `out` lists exactly the instructions that fill `code`.
pub open spec fn spec_code_matches(code: Seq<u8>, out: Seq<(Instruction, u32)>) -> bool {
    spec_code_matches_upto(code, 0, out, code.len() as int)
}

/// The first error a decode of all of `code` from `pc` on raises, if any.
pub open spec fn spec_code_err(code: Seq<u8>, pc: int) -> Option<ClassReaderError>
    decreases code.len() - pc,
    when 0 <= pc <= code.len()
{
    if pc >= code.len() {
        None
    } else {
        match spec_instr_end(code, pc) {
            Err(e) => Some(e),
            Ok(next) => if pc < next <= code.len() {
                spec_code_err(code, next)
            } else {
                None
            },
        }
    }
}

/// One more decoded instruction extends a decoded prefix.
proof fn lemma_code_matches_snoc(
    code: Seq<u8>,
    pc: int,
    out: Seq<(Instruction, u32)>,
    end: int,
    i: Instruction,
)
    requires
        spec_code_matches_upto(code, pc, out, end),
        spec_instr_end(code, end) is Ok,
        spec_instr_matches(code, end, i),
        0 <= end <= u32::MAX,
    ensures
        spec_code_matches_upto(
            code,
            pc,
            out.push((i, end as u32)),
            spec_instr_end(code, end).unwrap(),
        ),
    decreases out.len(),
{
    let next = spec_instr_end(code, end).unwrap();
    if out.len() == 0 {
        assert(out.push((i, end as u32))[0] == (i, end as u32));
        assert(out.push((i, end as u32)).drop_first() =~= Seq::<(Instruction, u32)>::empty());
        assert(spec_code_matches_upto(code, next, Seq::<(Instruction, u32)>::empty(), next));
    } else {
        let mid = spec_instr_end(code, pc).unwrap();
        lemma_code_matches_snoc(code, mid, out.drop_first(), end, i);
        assert(out.push((i, end as u32))[0] == out[0]);
        assert(out.push((i, end as u32)).drop_first() =~= out.drop_first().push((i, end as u32)));
    }
}

/// Decodes a whole bytecode array: the instructions in order, each
/// paired with its starting pc, or the first error. The decoded
/// instructions fill the array exactly: each starts where the previous
/// one ends, and the last one ends at `code_length`.
pub fn decode_code(code: &[u8]) -> (r: Result<Vec<(Instruction, u32)>, ClassReaderError>)
    requires
        code@.len() <= u32::MAX,
    ensures
        (match r {
            Ok(v) => spec_code_err(code@, 0) is None && spec_code_matches(code@, v@),
            Err(e) => spec_code_err(code@, 0) == Some(e),
        }),
{
    let mut out: Vec<(Instruction, u32)> = Vec::new();
    let mut pc: usize = 0;
    while pc < code.len()
        invariant
            0 <= pc <= code@.len(),
            code@.len() <= u32::MAX,
            spec_code_matches_upto(code@, 0, out@, pc as int),
            spec_code_err(code@, 0) == spec_code_err(code@, pc as int),
        decreases code@.len() - pc,
    {
        match read_instruction(code, pc) {
            Err(e) => {
                return Err(e);
            },
            Ok((i, next)) => {
                proof {
                    lemma_instr_end_advances(code@, pc as int);
                    lemma_code_matches_snoc(code@, 0, out@, pc as int, i);
                }
                out.push((i, pc as u32));
                pc = next;
            },
        }
    }
    Ok(out)
}

/// The layout law of a decoded bytecode array: the first instruction
/// sits at pc 0, each following instruction starts exactly where the one
/// before it ends, and the last one ends at the length of the array. The
/// sum of the encoded lengths, alignment padding included, is therefore
/// exactly the length of the array, and the pc values strictly increase.
pub proof fn lemma_code_layout(code: Seq<u8>, out: Seq<(Instruction, u32)>)
    requires
        spec_code_matches(code, out),
    ensures
        out.len() > 0 ==> out[0].1 == 0,
        forall|k: int| 0 <= k < out.len() ==> spec_instr_end(code, #[trigger] out[k].1 as int) is Ok,
        forall|k: int|
            0 <= k < out.len() - 1 ==> out[k + 1].1 == spec_instr_end(code, #[trigger] out[k].1 as int).unwrap(),
        forall|k: int| 0 <= k < out.len() - 1 ==> out[k].1 < #[trigger] out[k + 1].1,
        out.len() > 0 ==> spec_instr_end(code, out[out.len() - 1].1 as int).unwrap()
            == code.len(),
        out.len() == 0 ==> code.len() == 0,
{
    lemma_code_layout_upto(code, 0, out, code.len() as int);
}

/// The layout law, generalized over the window a decode fills.
proof fn lemma_code_layout_upto(code: Seq<u8>, pc: int, out: Seq<(Instruction, u32)>, end: int)
    requires
        0 <= pc,
        spec_code_matches_upto(code, pc, out, end),
    ensures
        out.len() > 0 ==> out[0].1 == pc,
        forall|k: int| 0 <= k < out.len() ==> spec_instr_end(code, #[trigger] out[k].1 as int) is Ok,
        forall|k: int|
            0 <= k < out.len() - 1 ==> out[k + 1].1 == spec_instr_end(code, #[trigger] out[k].1 as int).unwrap(),
        forall|k: int| 0 <= k < out.len() - 1 ==> out[k].1 < #[trigger] out[k + 1].1,
        out.len() > 0 ==> spec_instr_end(code, out[out.len() - 1].1 as int).unwrap() == end,
        out.len() == 0 ==> end == pc,
    decreases out.len(),
{
    if out.len() > 0 {
        let next = spec_instr_end(code, pc).unwrap();
        lemma_instr_end_advances(code, pc);
        lemma_code_layout_upto(code, next, out.drop_first(), end);
        assert forall|k: int| 0 <= k < out.len() implies spec_instr_end(
            code,
            #[trigger] out[k].1 as int,
        ) is Ok by {
            if k > 0 {
                assert(out.drop_first()[k - 1] == out[k]);
            }
        }
        assert forall|k: int| 0 <= k < out.len() - 1 implies out[k + 1].1 == spec_instr_end(
            code,
            #[trigger] out[k].1 as int,
        ).unwrap() by {
            if k == 0 {
                assert(out.drop_first()[0] == out[1]);
            } else {
                assert(out.drop_first()[k - 1] == out[k]);
                assert(out.drop_first()[k] == out[k + 1]);
            }
        }
        assert forall|k: int| 0 <= k < out.len() - 1 implies out[k].1 < #[trigger] out[k + 1].1 by {
            lemma_instr_end_advances(code, out[k].1 as int);
        }
        if out.len() == 1 {
            assert(out[out.len() - 1] == out[0]);
        } else {
            assert(out.drop_first()[out.len() - 2] == out[out.len() - 1]);
        }
    }
}


} // verus!

