//! A reader for the Java Virtual Machine class file format.
//!
//! The crate decodes a byte slice holding one compiled class into an
//! in-memory `ClassFile`: version, constant pool, access flags, fields,
//! methods and attributes, including decoded bytecode and stack map frames.
//! Every parsing function carries a contract that ties its result to the
//! input bytes.

pub mod access_flag;
pub mod attribute;
pub mod attribute_reader;
pub mod byte_reader;
pub mod class_file;
pub mod class_file_reader;
pub mod class_file_version;
pub mod class_reader;
pub mod constant_pool;
pub mod field;
pub mod instruction;
pub mod method;
pub mod predefined_attributes;
