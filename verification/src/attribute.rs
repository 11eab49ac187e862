//! The attribute sum type: each predefined attribute in decoded form,
//! and a raw fallback for names the reader does not recognize.

use vstd::prelude::*;
use vstd::slice::slice_to_vec;

use crate::predefined_attributes::{
    BootstrapMethods, Code, ConstantValue, LineNumberTable, LocalVariableTable,
    LocalVariableTypeTable, NestHost, NestMembers, PetrmittedSubclasses, SourceFile, StackMapTable,
};

verus! {

/// One attribute of a class, field, method or `Code` attribute.
#[derive(Debug, PartialEq)]
pub enum Attribute {
    ConstantValue(ConstantValue),
    Code(Code),
    StackMapTable(StackMapTable),
    LineNumberTable(LineNumberTable),
    LocalVariableTable(LocalVariableTable),
    LocalVariableTypeTable(LocalVariableTypeTable),
    NestHost(NestHost),
    NestMembers(NestMembers),
    PermittedSubclasses(PetrmittedSubclasses),
    UserDefined(UserDefinedAttribute),
    SourceFile(SourceFile),
    BootstrapMethods(BootstrapMethods),
}

/// An attribute the reader does not recognize: its name and its raw
/// bytes, kept verbatim.
#[derive(Debug, Clone, PartialEq)]
pub struct UserDefinedAttribute {
    pub name: String,
    pub info: Vec<u8>,
}

impl UserDefinedAttribute {
    pub fn new(name: String, info: &[u8]) -> (r: Self)
        ensures
            r.name == name,
            r.info@ == info@,
    {
        UserDefinedAttribute { name, info: slice_to_vec(info) }
    }
}

} // verus!
