//! The predefined attributes the reader decodes into structured form:
//! constant values, code with its exception table, stack map frames,
//! line number and local variable tables, bootstrap methods, nest
//! metadata and source file names.

use vstd::prelude::*;

use crate::attribute::Attribute;
use crate::constant_pool::Constant;
use crate::instruction::Instruction;

verus! {

/// The constant a `ConstantValue` attribute assigns to its field.
#[derive(Debug, Clone, PartialEq)]
pub struct ConstantValue {
    pub value: Constant,
}

impl ConstantValue {
    pub fn new(constant_value: Constant) -> (r: Self)
        ensures
            r == (ConstantValue { value: constant_value }),
    {
        ConstantValue { value: constant_value }
    }
}

/// A decoded `Code` attribute: limits, the instructions paired with
/// their bytecode offsets, the exception table and the nested attributes.
#[derive(Debug, PartialEq)]
pub struct Code {
    pub max_stack: u16,
    pub max_locals: u16,
    pub code: Vec<(Instruction, u32)>,
    pub exception_table: Vec<ExceptionHandler>,
    pub attributes: Vec<Attribute>,
}

/// One row of a `Code` attribute's exception table.
#[derive(Debug, Clone, Copy, PartialEq, Eq, Structural)]
pub struct ExceptionHandler {
    pub start_pc: u16,
    pub end_pc: u16,
    pub handler_pc: u16,
    pub catch_type: u16,
}

impl ExceptionHandler {
    pub fn new(start_pc: u16, end_pc: u16, handler_pc: u16, catch_type: u16) -> (r: Self)
        ensures
            r == (ExceptionHandler { start_pc, end_pc, handler_pc, catch_type }),
    {
        ExceptionHandler { start_pc, end_pc, handler_pc, catch_type }
    }
}

/// A decoded `LineNumberTable` attribute.
#[derive(Debug, Clone, PartialEq)]
pub struct LineNumberTable {
    pub line_number_table: Vec<LineNumber>,
}

impl LineNumberTable {
    pub fn new(line_number_table: Vec<LineNumber>) -> (r: Self)
        ensures
            r == (LineNumberTable { line_number_table }),
    {
        LineNumberTable { line_number_table }
    }
}

/// One row of a `LineNumberTable` attribute.
#[derive(Debug, Clone, Copy, PartialEq, Eq, Structural)]
pub struct LineNumber {
    pub start_pc: u16,
    pub line_number: u16,
}

/// A decoded `LocalVariableTable` attribute.
#[derive(Debug, Clone, PartialEq)]
pub struct LocalVariableTable {
    pub local_variable_table: Vec<LocalVariable>,
}

impl LocalVariableTable {
    pub fn new(local_variable_table: Vec<LocalVariable>) -> (r: Self)
        ensures
            r == (LocalVariableTable { local_variable_table }),
    {
        LocalVariableTable { local_variable_table }
    }
}

/// One row of a `LocalVariableTable` attribute.
#[derive(Debug, Clone, Copy, PartialEq, Eq, Structural)]
pub struct LocalVariable {
    pub start_pc: u16,
    pub length: u16,
    pub name_index: u16,
    pub descriptor_index: u16,
    pub index: u16,
}

impl LocalVariable {
    pub fn new(start_pc: u16, length: u16, name_index: u16, descriptor_index: u16, index: u16) -> (r:
        Self)
        ensures
            r == (LocalVariable { start_pc, length, name_index, descriptor_index, index }),
    {
        LocalVariable { start_pc, length, name_index, descriptor_index, index }
    }
}

/// A decoded `LocalVariableTypeTable` attribute.
#[derive(Debug, Clone, PartialEq)]
pub struct LocalVariableTypeTable {
    pub local_variable_type_table: Vec<LocalVariableType>,
}

impl LocalVariableTypeTable {
    pub fn new(local_variable_type_table: Vec<LocalVariableType>) -> (r: Self)
        ensures
            r == (LocalVariableTypeTable { local_variable_type_table }),
    {
        LocalVariableTypeTable { local_variable_type_table }
    }
}

/// One row of a `LocalVariableTypeTable` attribute: like a local
/// variable row, with a signature in place of a descriptor.
#[derive(Debug, Clone, Copy, PartialEq, Eq, Structural)]
pub struct LocalVariableType {
    pub start_pc: u16,
    pub length: u16,
    pub name_index: u16,
    pub signature_index: u16,
    pub index: u16,
}

impl LocalVariableType {
    pub fn new(start_pc: u16, length: u16, name_index: u16, signature_index: u16, index: u16) -> (r:
        Self)
        ensures
            r == (LocalVariableType { start_pc, length, name_index, signature_index, index }),
    {
        LocalVariableType { start_pc, length, name_index, signature_index, index }
    }
}

/// A decoded `StackMapTable` attribute.
#[derive(Debug, Clone, PartialEq)]
pub struct StackMapTable {
    pub frames: Vec<StackMapFrame>,
}

impl StackMapTable {
    pub fn new(frames: Vec<StackMapFrame>) -> (r: StackMapTable)
        ensures
            r == (StackMapTable { frames }),
    {
        StackMapTable { frames }
    }
}

/// One stack map frame, discriminated by its frame type byte.
#[derive(Debug, Clone, PartialEq)]
pub enum StackMapFrame {
    SameFrame { frame_type: u8 },
    SameLocals1StackItemFrame { frame_type: u8, stack: VerificationTypeInfo },
    SameLocals1StackItemFrameExtended { frame_type: u8, offset_delta: u16, stack: VerificationTypeInfo },
    ChopFrame { frame_type: u8, offset_delta: u16 },
    SameFrameExtended { frame_type: u8, offset_delta: u16 },
    AppendFrame { frame_type: u8, offset_delta: u16, locals: Vec<VerificationTypeInfo> },
    FullFrame {
        frame_type: u8,
        offset_delta: u16,
        locals: Vec<VerificationTypeInfo>,
        stack: Vec<VerificationTypeInfo>,
    },
}

/// A decoded `BootstrapMethods` attribute.
#[derive(Debug, Clone, PartialEq)]
pub struct BootstrapMethods {
    pub bootstrap_methods: Vec<BootstrapMethod>,
}

impl BootstrapMethods {
    pub fn new(bootstrap_methods: Vec<BootstrapMethod>) -> (r: BootstrapMethods)
        ensures
            r == (BootstrapMethods { bootstrap_methods }),
    {
        BootstrapMethods { bootstrap_methods }
    }
}

/// One bootstrap method: the handle it calls and its static arguments,
/// all as pool indices.
#[derive(Debug, Clone, PartialEq)]
pub struct BootstrapMethod {
    pub bootstrap_method_ref: u16,
    pub bootstrap_arguments: Vec<u16>,
}

/// A decoded `NestHost` attribute: the resolved host class name.
#[derive(Debug, Clone, PartialEq)]
pub struct NestHost {
    pub name: String,
}

/// A decoded `NestMembers` attribute: the resolved member class names.
#[derive(Debug, Clone, PartialEq)]
pub struct NestMembers {
    pub names: Vec<String>,
}

/// A decoded `PermittedSubclasses` attribute: the resolved class names.
#[derive(Debug, Clone, PartialEq)]
pub struct PetrmittedSubclasses {
    pub names: Vec<String>,
}

/// The type state of one verification slot in a stack map frame.
#[derive(Debug, Clone, PartialEq)]
pub enum VerificationTypeInfo {
    Top,
    Integer,
    Float,
    Long,
    Double,
    Null,
    UninitializedThis,
    Object { constant: Constant },
    Uninitialized { offset: u16 },
}

/// A decoded `SourceFile` attribute: the resolved file name.
#[derive(Debug, Clone, PartialEq)]
pub struct SourceFile {
    pub file_name: String,
}

} // verus!
