//! The root aggregate a parse produces: everything one compiled class
//! declares, fully materialized and immutable after construction.

use vstd::prelude::*;

use crate::access_flag::ClassFileAccessFlags;
use crate::attribute::Attribute;
use crate::class_file_version::{ClassFileVersion, MajorVersion};
use crate::constant_pool::{Constant, ConstantPool};
use crate::field::Field;
use crate::method::Method;

verus! {

/// Whether `cf` still holds only what a parse starts from: the oldest
/// version, an empty pool and nothing declared.
pub open spec fn spec_fresh_class_file(cf: ClassFile) -> bool {
    cf.version == ClassFileVersion(MajorVersion::JavaSE_1_1, 0) && cf.constant_pool@ == Seq::<
        Constant,
    >::empty() && cf.flags@ == crate::access_flag::spec_class_flags(0) && cf.this_class@ == Seq::<
        char,
    >::empty() && cf.super_class is None && cf.interfaces@ == Seq::<String>::empty() && cf.fields@
        == Seq::<Field>::empty() && cf.methods@ == Seq::<Method>::empty() && cf.attributes@ == Seq::<
        Attribute,
    >::empty()
}

/// One parsed class file: version, constant pool, flags, its own and its
/// super class's names, the interfaces it implements, and its fields,
/// methods and class-level attributes. `this_class` is empty when the
/// file names no class (index zero); `super_class` is `None` for the
/// class without a super class.
#[derive(Debug, PartialEq)]
pub struct ClassFile {
    pub version: ClassFileVersion,
    pub constant_pool: ConstantPool,
    pub flags: ClassFileAccessFlags,
    pub this_class: String,
    pub super_class: Option<String>,
    pub interfaces: Vec<String>,
    pub fields: Vec<Field>,
    pub methods: Vec<Method>,
    pub attributes: Vec<Attribute>,
}

impl Default for ClassFile {
    /// The empty class file a parse starts from: the oldest version,
    /// an empty pool and nothing declared.
    fn default() -> (r: Self)
        ensures
            spec_fresh_class_file(r),
    {
        ClassFile {
            version: ClassFileVersion(MajorVersion::JavaSE_1_1, 0),
            constant_pool: ConstantPool::default(),
            flags: ClassFileAccessFlags::new(0),
            this_class: String::new(),
            super_class: None,
            interfaces: Vec::new(),
            fields: Vec::new(),
            methods: Vec::new(),
            attributes: Vec::new(),
        }
    }
}

} // verus!
