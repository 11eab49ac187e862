//! The top-level reader: its error taxonomy and, around it, the
//! orchestration that drives the class file grammar section by section.

use vstd::prelude::*;

use crate::access_flag::{spec_class_flags, ClassFileAccessFlags};
use crate::attribute::Attribute;
use crate::attribute_reader::{
    read_attributes, read_class_names, ru16, ru32, spec_attrs_end, spec_attrs_prefix,
    spec_class_indices_end, spec_class_names_val,
};
use crate::byte_reader::{i32_at, i64_at, u16_at, u32_at, u64_at, ByteReader, ReadError};
use crate::class_file::{spec_fresh_class_file, ClassFile};
use crate::class_file_version::{spec_version, ClassFileVersion};
use crate::field::{
    spec_field_desc_end, spec_field_desc_val, spec_field_flags, Field, FieldAccessFlags, FieldType,
};
use crate::instruction::spec_eof;
use crate::method::{
    spec_method_desc_end, spec_method_desc_val, spec_method_flags, Method, MethodAccessFlags,
    MethodDescriptor,
};
use crate::class_file_version::FileVersionError;
use crate::constant_pool::{
    spec_constant_kind, spec_is_wide, spec_pool_get, spec_pool_wf, Constant, ConstantKind,
    ConstantPool, ConstantPoolError,
};
use crate::field::FieldError;
use crate::method::MethodParsingError;

verus! {

/// Everything that can go wrong while reading a class file. Each kind of
/// violation is one variant; errors of the lower layers are wrapped.
#[derive(Debug, Clone, PartialEq)]
pub enum ClassReaderError {
    /// The file does not start with `0xCAFEBABE`; the field carries what
    /// it starts with.
    InvalidMagicNumber(u32),
    /// A constant pool entry carries an unassigned tag.
    TagNotSupported(u8),
    /// A pool entry has the wrong kind for its use.
    UnexpectedConstant { expected: ConstantKind, actual: ConstantKind },
    /// A `ConstantValue` attribute does not fit the field's type; the
    /// fields carry the kind of the pool entry and its index.
    MismatchedConstantType(ConstantKind, u16),
    /// An attribute declares one length and holds another; the fields
    /// carry the declared and the expected length.
    InvalidAttributeSize(u32, u32),
    /// A verification type carries an unassigned tag.
    InvalidVerificationType(u8),
    /// A stack map frame carries a reserved frame type.
    InvalidStackMapFrameType(u8),
    /// A `SourceFile` attribute's name does not read `SourceFile`.
    InvalidSourceFileString(String),
    /// A bytecode array holds an unassigned opcode byte.
    UnknownOpcode(u8),
    /// The byte cursor failed: truncated input or malformed text.
    ReadError(ReadError),
    /// The version word was rejected.
    FileVersionError(FileVersionError),
    /// A pool lookup failed.
    ConstantPoolError(ConstantPoolError),
    /// A field descriptor was rejected.
    FieldError(FieldError),
    /// A method descriptor was rejected.
    MethodParsingError(MethodParsingError),
}

/// An error together with a window of bytes around the position where
/// the parse stopped.
#[derive(Debug, Clone, PartialEq)]
pub struct ContextualError {
    pub err: ClassReaderError,
    pub snippet: Vec<u8>,
}

/// The string at 1-based `index` of the pool: the `Utf8` entry there, an
/// `UnexpectedConstant` for an entry of another kind, or the lookup error.
pub open spec fn spec_get_utf8(pool: Seq<Constant>, index: u16) -> Result<String, ClassReaderError> {
    match spec_pool_get(pool, index as usize) {
        Err(e) => Err(ClassReaderError::ConstantPoolError(e)),
        Ok(c) => match c {
            Constant::Utf8(t) => Ok(t),
            _ => Err(
                ClassReaderError::UnexpectedConstant {
                    expected: ConstantKind::Utf8,
                    actual: spec_constant_kind(c),
                },
            ),
        },
    }
}

/// The class name at 1-based `index` of the pool: the `Utf8` string the
/// `ClassIndex` entry there points at, or the first error on that path.
pub open spec fn spec_get_class_name(pool: Seq<Constant>, index: u16) -> Result<
    String,
    ClassReaderError,
> {
    match spec_pool_get(pool, index as usize) {
        Err(e) => Err(ClassReaderError::ConstantPoolError(e)),
        Ok(c) => match c {
            Constant::ClassIndex(j) => spec_get_utf8(pool, j),
            _ => Err(
                ClassReaderError::UnexpectedConstant {
                    expected: ConstantKind::ClassIndex,
                    actual: spec_constant_kind(c),
                },
            ),
        },
    }
}

/// Resolves `index` to the `Utf8` string it must hold.
pub fn get_utf8(pool: &ConstantPool, index: u16) -> (r: Result<String, ClassReaderError>)
    ensures
        r == spec_get_utf8(pool@, index),
{
    match pool.get(index as usize) {
        Err(e) => Err(ClassReaderError::ConstantPoolError(e)),
        Ok(c) => match c {
            Constant::Utf8(t) => Ok(t.clone()),
            _ => Err(
                ClassReaderError::UnexpectedConstant {
                    expected: ConstantKind::Utf8,
                    actual: c.kind(),
                },
            ),
        },
    }
}

/// Resolves `index` through a `ClassIndex` entry to the class name.
pub fn get_class_name(pool: &ConstantPool, index: u16) -> (r: Result<String, ClassReaderError>)
    ensures
        r == spec_get_class_name(pool@, index),
{
    match pool.get(index as usize) {
        Err(e) => Err(ClassReaderError::ConstantPoolError(e)),
        Ok(c) => match c {
            Constant::ClassIndex(j) => get_utf8(pool, *j),
            _ => Err(
                ClassReaderError::UnexpectedConstant {
                    expected: ConstantKind::ClassIndex,
                    actual: c.kind(),
                },
            ),
        },
    }
}

/// Where the magic number ends: after the first four bytes, when they
/// read `0xCAFEBABE`.
pub open spec fn spec_magic_end(s: Seq<u8>) -> Result<int, ClassReaderError> {
    if s.len() < 4 {
        Err(spec_eof())
    } else if u32_at(s, 0) == 0xCAFEBABE {
        Ok(4int)
    } else {
        Err(ClassReaderError::InvalidMagicNumber(u32_at(s, 0)))
    }
}

/// Where the version word at `pos` ends: after the minor and major
/// halves, when the pair is a supported version.
pub open spec fn spec_version_end(s: Seq<u8>, pos: int) -> Result<int, ClassReaderError> {
    if pos + 4 > s.len() {
        Err(spec_eof())
    } else {
        match spec_version(u16_at(s, pos + 2), u16_at(s, pos)) {
            Ok(_) => Ok(pos + 4),
            Err(e) => Err(ClassReaderError::FileVersionError(e)),
        }
    }
}

/// Where the constant pool entry at `pos` — tag and payload — ends, or
/// the error it raises.
pub open spec fn spec_pool_entry_end(s: Seq<u8>, pos: int) -> Result<int, ClassReaderError> {
    if pos + 1 > s.len() {
        Err(spec_eof())
    } else {
        let tag = s[pos];
        if tag == 1 {
            if pos + 3 > s.len() {
                Err(spec_eof())
            } else {
                let n = u16_at(s, pos + 1) as int;
                if pos + 3 + n > s.len() {
                    Err(spec_eof())
                } else {
                    match crate::byte_reader::java_cesu8_decoded(s.subrange(pos + 3, pos + 3 + n)) {
                        Some(_) => Ok(pos + 3 + n),
                        None => Err(ClassReaderError::ReadError(ReadError::Cesu8DecodingError)),
                    }
                }
            }
        } else if tag == 3 || tag == 4 || tag == 9 || tag == 10 || tag == 11 || tag == 12 || tag
            == 17 || tag == 18 {
            if pos + 5 > s.len() {
                Err(spec_eof())
            } else {
                Ok(pos + 5)
            }
        } else if tag == 5 || tag == 6 {
            if pos + 9 > s.len() {
                Err(spec_eof())
            } else {
                Ok(pos + 9)
            }
        } else if tag == 7 || tag == 8 || tag == 16 || tag == 19 || tag == 20 {
            if pos + 3 > s.len() {
                Err(spec_eof())
            } else {
                Ok(pos + 3)
            }
        } else if tag == 15 {
            if pos + 4 > s.len() {
                Err(spec_eof())
            } else {
                Ok(pos + 4)
            }
        } else {
            Err(ClassReaderError::TagNotSupported(tag))
        }
    }
}

/// Whether `c` is the constant the entry at `pos` decodes to.
pub open spec fn spec_pool_entry_val(s: Seq<u8>, pos: int, c: Constant) -> bool {
    let tag = s[pos];
    if tag == 1 {
        let n = u16_at(s, pos + 1) as int;
        c matches Constant::Utf8(t) && crate::byte_reader::java_cesu8_decoded(
            s.subrange(pos + 3, pos + 3 + n),
        ) == Some(t@)
    } else if tag == 3 {
        c == Constant::Integer(i32_at(s, pos + 1))
    } else if tag == 4 {
        c == Constant::Float(u32_at(s, pos + 1))
    } else if tag == 5 {
        c == Constant::Long(i64_at(s, pos + 1))
    } else if tag == 6 {
        c == Constant::Double(u64_at(s, pos + 1))
    } else if tag == 7 {
        c == Constant::ClassIndex(u16_at(s, pos + 1))
    } else if tag == 8 {
        c == Constant::StringIndex(u16_at(s, pos + 1))
    } else if tag == 9 {
        c == Constant::FieldRef(u16_at(s, pos + 1), u16_at(s, pos + 3))
    } else if tag == 10 {
        c == Constant::MethodRef(u16_at(s, pos + 1), u16_at(s, pos + 3))
    } else if tag == 11 {
        c == Constant::InterfaceMethodRef(u16_at(s, pos + 1), u16_at(s, pos + 3))
    } else if tag == 12 {
        c == Constant::NameAndType(u16_at(s, pos + 1), u16_at(s, pos + 3))
    } else if tag == 15 {
        c == Constant::MethodHandle(s[pos + 1], u16_at(s, pos + 2))
    } else if tag == 16 {
        c == Constant::MethodType(u16_at(s, pos + 1))
    } else if tag == 17 {
        c == Constant::Dynamic(u16_at(s, pos + 1), u16_at(s, pos + 3))
    } else if tag == 18 {
        c == Constant::InvokeDynamic(u16_at(s, pos + 1), u16_at(s, pos + 3))
    } else if tag == 19 {
        c == Constant::Module(u16_at(s, pos + 1))
    } else if tag == 20 {
        c == Constant::Package(u16_at(s, pos + 1))
    } else {
        false
    }
}

/// Whether the entry at `pos` owns two pool slots.
pub open spec fn spec_wide_tag(s: Seq<u8>, pos: int) -> bool {
    s[pos] == 5 || s[pos] == 6
}

/// Where the constant pool entries filling `slots` slots from `pos` on
/// end: the pool count names one more slot than the entries fill, and a
/// wide entry fills two.
pub open spec fn spec_pool_rest_end(s: Seq<u8>, pos: int, slots: int) -> Result<
    int,
    ClassReaderError,
>
    decreases slots,
{
    if slots <= 1 {
        Ok(pos)
    } else {
        match spec_pool_entry_end(s, pos) {
            Err(e) => Err(e),
            Ok(p2) => spec_pool_rest_end(
                s,
                p2,
                slots - (if spec_wide_tag(s, pos) {
                    2int
                } else {
                    1int
                }),
            ),
        }
    }
}

/// Whether `cs` lists the pool slots filled from `pos` up to `end`: each
/// decoded entry, with the sentinel slot after each wide one.
pub open spec fn spec_pool_prefix(s: Seq<u8>, pos: int, cs: Seq<Constant>, end: int) -> bool
    decreases cs.len(),
{
    if cs.len() == 0 {
        end == pos
    } else {
        match spec_pool_entry_end(s, pos) {
            Err(_) => false,
            Ok(p2) => if spec_wide_tag(s, pos) {
                cs.len() >= 2 && spec_pool_entry_val(s, pos, cs[0]) && cs[1] == Constant::Unusable
                    && spec_pool_prefix(s, p2, cs.skip(2), end)
            } else {
                spec_pool_entry_val(s, pos, cs[0]) && spec_pool_prefix(s, p2, cs.skip(1), end)
            },
        }
    }
}

/// One more entry extends a decoded pool prefix, filling one slot, or
/// two for a wide entry.
proof fn lemma_pool_prefix_snoc(s: Seq<u8>, pos: int, cs: Seq<Constant>, e: int, c: Constant)
    requires
        spec_pool_prefix(s, pos, cs, e),
        spec_pool_entry_end(s, e) is Ok,
        spec_pool_entry_val(s, e, c),
    ensures
        spec_wide_tag(s, e) ==> spec_pool_prefix(
            s,
            pos,
            cs.push(c).push(Constant::Unusable),
            spec_pool_entry_end(s, e).unwrap(),
        ),
        !spec_wide_tag(s, e) ==> spec_pool_prefix(s, pos, cs.push(c), spec_pool_entry_end(s, e).unwrap()),
    decreases cs.len(),
{
    let p2 = spec_pool_entry_end(s, e).unwrap();
    if cs.len() == 0 {
        if spec_wide_tag(s, e) {
            let t = cs.push(c).push(Constant::Unusable);
            assert(t[0] == c);
            assert(t[1] == Constant::Unusable);
            assert(t.skip(2) =~= Seq::<Constant>::empty());
            assert(spec_pool_prefix(s, p2, Seq::<Constant>::empty(), p2));
        } else {
            assert(cs.push(c)[0] == c);
            assert(cs.push(c).skip(1) =~= Seq::<Constant>::empty());
            assert(spec_pool_prefix(s, p2, Seq::<Constant>::empty(), p2));
        }
    } else {
        let m = spec_pool_entry_end(s, pos).unwrap();
        if spec_wide_tag(s, pos) {
            lemma_pool_prefix_snoc(s, m, cs.skip(2), e, c);
            let t = cs.push(c);
            let t2 = cs.push(c).push(Constant::Unusable);
            assert(t[0] == cs[0]);
            assert(t2[0] == cs[0]);
            assert(t2[1] == cs[1]);
            assert(t.skip(1) =~= cs.skip(1).push(c));
            assert(t.skip(2) =~= cs.skip(2).push(c));
            assert(t2.skip(2) =~= cs.skip(2).push(c).push(Constant::Unusable));
        } else {
            lemma_pool_prefix_snoc(s, m, cs.skip(1), e, c);
            let t = cs.push(c);
            let t2 = cs.push(c).push(Constant::Unusable);
            assert(t[0] == cs[0]);
            assert(t2[0] == cs[0]);
            assert(t.skip(1) =~= cs.skip(1).push(c));
            assert(t2.skip(1) =~= cs.skip(1).push(c).push(Constant::Unusable));
        }
    }
}

/// Reads one tagged constant pool entry.
fn read_constant(reader: &mut ByteReader<'_>) -> (r: Result<Constant, ClassReaderError>)
    requires
        old(reader).wf(),
    ensures
        final(reader).wf(),
        final(reader).data() == old(reader).data(),
        old(reader).position() <= final(reader).position(),
        (match r {
            Ok(c) => spec_pool_entry_end(old(reader).data(), old(reader).position()) == Ok::<
                int,
                ClassReaderError,
            >(final(reader).position()) && spec_pool_entry_val(
                old(reader).data(),
                old(reader).position(),
                c,
            ),
            Err(e) => spec_pool_entry_end(old(reader).data(), old(reader).position()) == Err::<
                int,
                ClassReaderError,
            >(e),
        }),
{
    let tag = crate::attribute_reader::ru8(reader)?;
    match tag {
        1 => {
            let length = ru16(reader)?;
            match reader.read_utf8(length as u32) {
                Ok(t) => Ok(Constant::Utf8(t)),
                Err(e) => Err(ClassReaderError::ReadError(e)),
            }
        },
        3 => {
            match reader.read_i32() {
                Ok(v) => Ok(Constant::Integer(v)),
                Err(e) => Err(ClassReaderError::ReadError(e)),
            }
        },
        4 => {
            match reader.read_u32() {
                Ok(v) => Ok(Constant::Float(v)),
                Err(e) => Err(ClassReaderError::ReadError(e)),
            }
        },
        5 => {
            match reader.read_i64() {
                Ok(v) => Ok(Constant::Long(v)),
                Err(e) => Err(ClassReaderError::ReadError(e)),
            }
        },
        6 => {
            match reader.read_u64() {
                Ok(v) => Ok(Constant::Double(v)),
                Err(e) => Err(ClassReaderError::ReadError(e)),
            }
        },
        7 => {
            let class_index = ru16(reader)?;
            Ok(Constant::ClassIndex(class_index))
        },
        8 => {
            let string_index = ru16(reader)?;
            Ok(Constant::StringIndex(string_index))
        },
        9 => {
            let class_index = ru16(reader)?;
            let name_and_type = ru16(reader)?;
            Ok(Constant::FieldRef(class_index, name_and_type))
        },
        10 => {
            let class_index = ru16(reader)?;
            let name_and_type = ru16(reader)?;
            Ok(Constant::MethodRef(class_index, name_and_type))
        },
        11 => {
            let class_index = ru16(reader)?;
            let name_and_type = ru16(reader)?;
            Ok(Constant::InterfaceMethodRef(class_index, name_and_type))
        },
        12 => {
            let name_index = ru16(reader)?;
            let descriptor_index = ru16(reader)?;
            Ok(Constant::NameAndType(name_index, descriptor_index))
        },
        15 => {
            let reference_kind = crate::attribute_reader::ru8(reader)?;
            let reference_index = ru16(reader)?;
            Ok(Constant::MethodHandle(reference_kind, reference_index))
        },
        16 => {
            let descriptor_index = ru16(reader)?;
            Ok(Constant::MethodType(descriptor_index))
        },
        17 => {
            let bootstrap_index = ru16(reader)?;
            let name_and_type = ru16(reader)?;
            Ok(Constant::Dynamic(bootstrap_index, name_and_type))
        },
        18 => {
            let bootstrap_index = ru16(reader)?;
            let name_and_type = ru16(reader)?;
            Ok(Constant::InvokeDynamic(bootstrap_index, name_and_type))
        },
        19 => {
            let name_index = ru16(reader)?;
            Ok(Constant::Module(name_index))
        },
        20 => {
            let name_index = ru16(reader)?;
            Ok(Constant::Package(name_index))
        },
        _ => Err(ClassReaderError::TagNotSupported(tag)),
    }
}

/// Where the field starting at `pos` ends, or the error it raises.
pub open spec fn spec_field_end(s: Seq<u8>, pos: int, pool: Seq<Constant>) -> Result<
    int,
    ClassReaderError,
> {
    if pos + 4 > s.len() {
        Err(spec_eof())
    } else {
        match spec_get_utf8(pool, u16_at(s, pos + 2)) {
            Err(e) => Err(e),
            Ok(_) => if pos + 8 > s.len() {
                Err(spec_eof())
            } else {
                match spec_get_utf8(pool, u16_at(s, pos + 4)) {
                    Err(e) => Err(e),
                    Ok(d) => match spec_field_desc_end(d@, 0) {
                        Err(fe) => Err(ClassReaderError::FieldError(fe)),
                        Ok(_) => spec_attrs_end(
                            s,
                            pos + 8,
                            pool,
                            Some(d@),
                            u16_at(s, pos + 6) as int,
                        ),
                    },
                }
            },
        }
    }
}

/// Whether `f` is the field decoded at `pos`.
pub open spec fn spec_field_val(s: Seq<u8>, pos: int, pool: Seq<Constant>, f: Field) -> bool {
    let d = spec_get_utf8(pool, u16_at(s, pos + 4)).unwrap();
    f.flags@ == spec_field_flags(u16_at(s, pos)) && spec_get_utf8(pool, u16_at(s, pos + 2)) == Ok::<
        String,
        ClassReaderError,
    >(f.name) && spec_field_desc_val(d@, 0, f.type_descriptor) && spec_attrs_prefix(
        s,
        pos + 8,
        pool,
        Some(d@),
        f.attributes@,
        spec_attrs_end(s, pos + 8, pool, Some(d@), u16_at(s, pos + 6) as int).unwrap(),
    )
}

/// Where the method starting at `pos` ends, or the error it raises.
pub open spec fn spec_method_end(s: Seq<u8>, pos: int, pool: Seq<Constant>) -> Result<
    int,
    ClassReaderError,
> {
    if pos + 4 > s.len() {
        Err(spec_eof())
    } else {
        match spec_get_utf8(pool, u16_at(s, pos + 2)) {
            Err(e) => Err(e),
            Ok(_) => if pos + 8 > s.len() {
                Err(spec_eof())
            } else {
                match spec_get_utf8(pool, u16_at(s, pos + 4)) {
                    Err(e) => Err(e),
                    Ok(d) => match spec_method_desc_end(d@) {
                        Err(me) => Err(ClassReaderError::MethodParsingError(me)),
                        Ok(_) => spec_attrs_end(s, pos + 8, pool, None, u16_at(s, pos + 6) as int),
                    },
                }
            },
        }
    }
}

/// Whether `m` is the method decoded at `pos`.
pub open spec fn spec_method_val(s: Seq<u8>, pos: int, pool: Seq<Constant>, m: Method) -> bool {
    let d = spec_get_utf8(pool, u16_at(s, pos + 4)).unwrap();
    m.flags@ == spec_method_flags(u16_at(s, pos)) && spec_get_utf8(pool, u16_at(s, pos + 2)) == Ok::<
        String,
        ClassReaderError,
    >(m.name) && spec_method_desc_val(d@, m.type_descriptor) && spec_attrs_prefix(
        s,
        pos + 8,
        pool,
        None,
        m.attributes@,
        spec_attrs_end(s, pos + 8, pool, None, u16_at(s, pos + 6) as int).unwrap(),
    )
}

/// Where a run of `count` fields starting at `pos` ends.
pub open spec fn spec_fields_end(s: Seq<u8>, pos: int, pool: Seq<Constant>, count: int) -> Result<
    int,
    ClassReaderError,
>
    decreases count,
{
    if count <= 0 {
        Ok(pos)
    } else {
        match spec_field_end(s, pos, pool) {
            Err(e) => Err(e),
            Ok(p2) => spec_fields_end(s, p2, pool, count - 1),
        }
    }
}

/// Whether `fs` lists the fields decoded from `pos` up to `end`.
pub open spec fn spec_fields_prefix(
    s: Seq<u8>,
    pos: int,
    pool: Seq<Constant>,
    fs: Seq<Field>,
    end: int,
) -> bool
    decreases fs.len(),
{
    if fs.len() == 0 {
        end == pos
    } else {
        match spec_field_end(s, pos, pool) {
            Err(_) => false,
            Ok(p2) => spec_field_val(s, pos, pool, fs[0]) && spec_fields_prefix(
                s,
                p2,
                pool,
                fs.drop_first(),
                end,
            ),
        }
    }
}

/// One more field extends a decoded prefix.
proof fn lemma_fields_prefix_snoc(
    s: Seq<u8>,
    pos: int,
    pool: Seq<Constant>,
    fs: Seq<Field>,
    e: int,
    f: Field,
)
    requires
        spec_fields_prefix(s, pos, pool, fs, e),
        spec_field_end(s, e, pool) is Ok,
        spec_field_val(s, e, pool, f),
    ensures
        spec_fields_prefix(s, pos, pool, fs.push(f), spec_field_end(s, e, pool).unwrap()),
    decreases fs.len(),
{
    let p2 = spec_field_end(s, e, pool).unwrap();
    if fs.len() == 0 {
        assert(fs.push(f)[0] == f);
        assert(fs.push(f).drop_first() =~= Seq::<Field>::empty());
        assert(spec_fields_prefix(s, p2, pool, Seq::<Field>::empty(), p2));
    } else {
        let m = spec_field_end(s, pos, pool).unwrap();
        lemma_fields_prefix_snoc(s, m, pool, fs.drop_first(), e, f);
        assert(fs.push(f)[0] == fs[0]);
        assert(fs.push(f).drop_first() =~= fs.drop_first().push(f));
    }
}

/// Where a run of `count` methods starting at `pos` ends.
pub open spec fn spec_methods_end(s: Seq<u8>, pos: int, pool: Seq<Constant>, count: int) -> Result<
    int,
    ClassReaderError,
>
    decreases count,
{
    if count <= 0 {
        Ok(pos)
    } else {
        match spec_method_end(s, pos, pool) {
            Err(e) => Err(e),
            Ok(p2) => spec_methods_end(s, p2, pool, count - 1),
        }
    }
}

/// Whether `ms` lists the methods decoded from `pos` up to `end`.
pub open spec fn spec_methods_prefix(
    s: Seq<u8>,
    pos: int,
    pool: Seq<Constant>,
    ms: Seq<Method>,
    end: int,
) -> bool
    decreases ms.len(),
{
    if ms.len() == 0 {
        end == pos
    } else {
        match spec_method_end(s, pos, pool) {
            Err(_) => false,
            Ok(p2) => spec_method_val(s, pos, pool, ms[0]) && spec_methods_prefix(
                s,
                p2,
                pool,
                ms.drop_first(),
                end,
            ),
        }
    }
}

/// One more method extends a decoded prefix.
proof fn lemma_methods_prefix_snoc(
    s: Seq<u8>,
    pos: int,
    pool: Seq<Constant>,
    ms: Seq<Method>,
    e: int,
    m: Method,
)
    requires
        spec_methods_prefix(s, pos, pool, ms, e),
        spec_method_end(s, e, pool) is Ok,
        spec_method_val(s, e, pool, m),
    ensures
        spec_methods_prefix(s, pos, pool, ms.push(m), spec_method_end(s, e, pool).unwrap()),
    decreases ms.len(),
{
    let p2 = spec_method_end(s, e, pool).unwrap();
    if ms.len() == 0 {
        assert(ms.push(m)[0] == m);
        assert(ms.push(m).drop_first() =~= Seq::<Method>::empty());
        assert(spec_methods_prefix(s, p2, pool, Seq::<Method>::empty(), p2));
    } else {
        let m0 = spec_method_end(s, pos, pool).unwrap();
        lemma_methods_prefix_snoc(s, m0, pool, ms.drop_first(), e, m);
        assert(ms.push(m)[0] == ms[0]);
        assert(ms.push(m).drop_first() =~= ms.drop_first().push(m));
    }
}

/// Reads one field: flags, name, descriptor and attributes.
fn read_field(reader: &mut ByteReader<'_>, pool: &ConstantPool) -> (r: Result<
    Field,
    ClassReaderError,
>)
    requires
        old(reader).wf(),
        old(reader).data().len() <= u32::MAX,
    ensures
        final(reader).wf(),
        final(reader).data() == old(reader).data(),
        old(reader).position() <= final(reader).position(),
        (match r {
            Ok(f) => spec_field_end(old(reader).data(), old(reader).position(), pool@) == Ok::<
                int,
                ClassReaderError,
            >(final(reader).position()) && spec_field_val(
                old(reader).data(),
                old(reader).position(),
                pool@,
                f,
            ),
            Err(e) => spec_field_end(old(reader).data(), old(reader).position(), pool@) == Err::<
                int,
                ClassReaderError,
            >(e),
        }),
{
    let access_flags = ru16(reader)?;
    let name_index = ru16(reader)?;
    let flags = FieldAccessFlags::new(access_flags);
    let name = match get_utf8(pool, name_index) {
        Ok(n) => n,
        Err(e) => {
            return Err(e);
        },
    };
    let descriptor_index = ru16(reader)?;
    let attributes_count = ru16(reader)?;
    let field_descriptor = match get_utf8(pool, descriptor_index) {
        Ok(d) => d,
        Err(e) => {
            return Err(e);
        },
    };
    let type_descriptor = match FieldType::try_from(field_descriptor.as_str()) {
        Ok(t) => t,
        Err(fe) => {
            return Err(ClassReaderError::FieldError(fe));
        },
    };
    let attributes = match read_attributes(
        reader,
        pool,
        Some(&type_descriptor),
        Ghost(Some(field_descriptor@)),
        attributes_count,
    ) {
        Ok(v) => v,
        Err(e) => {
            return Err(e);
        },
    };
    Ok(Field::new(flags, name, type_descriptor, attributes))
}

/// Reads one method: flags, name, descriptor and attributes.
fn read_method(reader: &mut ByteReader<'_>, pool: &ConstantPool) -> (r: Result<
    Method,
    ClassReaderError,
>)
    requires
        old(reader).wf(),
        old(reader).data().len() <= u32::MAX,
    ensures
        final(reader).wf(),
        final(reader).data() == old(reader).data(),
        old(reader).position() <= final(reader).position(),
        (match r {
            Ok(m) => spec_method_end(old(reader).data(), old(reader).position(), pool@) == Ok::<
                int,
                ClassReaderError,
            >(final(reader).position()) && spec_method_val(
                old(reader).data(),
                old(reader).position(),
                pool@,
                m,
            ),
            Err(e) => spec_method_end(old(reader).data(), old(reader).position(), pool@) == Err::<
                int,
                ClassReaderError,
            >(e),
        }),
{
    let access_flag = ru16(reader)?;
    let name_index = ru16(reader)?;
    let flags = MethodAccessFlags::new(access_flag);
    let name = match get_utf8(pool, name_index) {
        Ok(n) => n,
        Err(e) => {
            return Err(e);
        },
    };
    let descriptor_index = ru16(reader)?;
    let attributes_count = ru16(reader)?;
    let method_descriptor = match get_utf8(pool, descriptor_index) {
        Ok(d) => d,
        Err(e) => {
            return Err(e);
        },
    };
    let type_descriptor = match MethodDescriptor::try_from(method_descriptor.as_str()) {
        Ok(t) => t,
        Err(me) => {
            return Err(ClassReaderError::MethodParsingError(me));
        },
    };
    let attributes = match read_attributes(reader, pool, None, Ghost(None), attributes_count) {
        Ok(v) => v,
        Err(e) => {
            return Err(e);
        },
    };
    Ok(Method { flags, name, type_descriptor, attributes })
}

/// Reads `count` fields in order.
fn read_fields(reader: &mut ByteReader<'_>, pool: &ConstantPool, count: u16) -> (r: Result<
    Vec<Field>,
    ClassReaderError,
>)
    requires
        old(reader).wf(),
        old(reader).data().len() <= u32::MAX,
    ensures
        final(reader).wf(),
        final(reader).data() == old(reader).data(),
        old(reader).position() <= final(reader).position(),
        (match r {
            Ok(v) => spec_fields_end(old(reader).data(), old(reader).position(), pool@, count as int)
                == Ok::<int, ClassReaderError>(final(reader).position()) && spec_fields_prefix(
                old(reader).data(),
                old(reader).position(),
                pool@,
                v@,
                final(reader).position(),
            ),
            Err(e) => spec_fields_end(
                old(reader).data(),
                old(reader).position(),
                pool@,
                count as int,
            ) == Err::<int, ClassReaderError>(e),
        }),
{
    let ghost s = old(reader).data();
    let ghost pos0 = old(reader).position();
    let mut fields: Vec<Field> = Vec::new();
    let mut k: u16 = 0;
    while k < count
        invariant
            0 <= k <= count,
            reader.wf(),
            s == old(reader).data(),
            pos0 == old(reader).position(),
            reader.data() == s,
            s.len() <= u32::MAX,
            pos0 <= reader.position(),
            spec_fields_end(s, pos0, pool@, count as int) == spec_fields_end(
                s,
                reader.position(),
                pool@,
                count - k,
            ),
            spec_fields_prefix(s, pos0, pool@, fields@, reader.position()),
        decreases count - k,
    {
        let ghost cur = reader.position();
        match read_field(reader, pool) {
            Err(e) => {
                return Err(e);
            },
            Ok(f) => {
                proof {
                    lemma_fields_prefix_snoc(s, pos0, pool@, fields@, cur, f);
                }
                fields.push(f);
                k = k + 1;
            },
        }
    }
    Ok(fields)
}

/// Reads `count` methods in order.
fn read_methods(reader: &mut ByteReader<'_>, pool: &ConstantPool, count: u16) -> (r: Result<
    Vec<Method>,
    ClassReaderError,
>)
    requires
        old(reader).wf(),
        old(reader).data().len() <= u32::MAX,
    ensures
        final(reader).wf(),
        final(reader).data() == old(reader).data(),
        old(reader).position() <= final(reader).position(),
        (match r {
            Ok(v) => spec_methods_end(
                old(reader).data(),
                old(reader).position(),
                pool@,
                count as int,
            ) == Ok::<int, ClassReaderError>(final(reader).position()) && spec_methods_prefix(
                old(reader).data(),
                old(reader).position(),
                pool@,
                v@,
                final(reader).position(),
            ),
            Err(e) => spec_methods_end(
                old(reader).data(),
                old(reader).position(),
                pool@,
                count as int,
            ) == Err::<int, ClassReaderError>(e),
        }),
{
    let ghost s = old(reader).data();
    let ghost pos0 = old(reader).position();
    let mut methods: Vec<Method> = Vec::new();
    let mut k: u16 = 0;
    while k < count
        invariant
            0 <= k <= count,
            reader.wf(),
            s == old(reader).data(),
            pos0 == old(reader).position(),
            reader.data() == s,
            s.len() <= u32::MAX,
            pos0 <= reader.position(),
            spec_methods_end(s, pos0, pool@, count as int) == spec_methods_end(
                s,
                reader.position(),
                pool@,
                count - k,
            ),
            spec_methods_prefix(s, pos0, pool@, methods@, reader.position()),
        decreases count - k,
    {
        let ghost cur = reader.position();
        match read_method(reader, pool) {
            Err(e) => {
                return Err(e);
            },
            Ok(m) => {
                proof {
                    lemma_methods_prefix_snoc(s, pos0, pool@, methods@, cur, m);
                }
                methods.push(m);
                k = k + 1;
            },
        }
    }
    Ok(methods)
}

/// Whether the optional class reference `index` resolves: index zero
/// stands for no reference and always passes.
pub open spec fn spec_opt_class_name_ok(pool: Seq<Constant>, index: u16) -> Result<
    (),
    ClassReaderError,
> {
    if index == 0 {
        Ok(())
    } else {
        match spec_get_class_name(pool, index) {
            Ok(_) => Ok(()),
            Err(e) => Err(e),
        }
    }
}

/// Where the sections after the constant pool — flags, class names,
/// interfaces, fields, methods and class attributes — end, given the
/// decoded pool, or the error they raise.
pub open spec fn spec_sections_end(s: Seq<u8>, pos: int, pool: Seq<Constant>) -> Result<
    int,
    ClassReaderError,
> {
    if pos + 4 > s.len() {
        Err(spec_eof())
    } else {
        let this_index = u16_at(s, pos + 2);
        match spec_opt_class_name_ok(pool, this_index) {
            Err(e) => Err(e),
            Ok(_) => if pos + 6 > s.len() {
                Err(spec_eof())
            } else {
                let super_index = u16_at(s, pos + 4);
                match spec_opt_class_name_ok(pool, super_index) {
                    Err(e) => Err(e),
                    Ok(_) => if pos + 8 > s.len() {
                        Err(spec_eof())
                    } else {
                        match spec_class_indices_end(s, pos + 8, pool, u16_at(s, pos + 6) as int) {
                            Err(e) => Err(e),
                            Ok(pf) => if pf + 2 > s.len() {
                                Err(spec_eof())
                            } else {
                                match spec_fields_end(s, pf + 2, pool, u16_at(s, pf) as int) {
                                    Err(e) => Err(e),
                                    Ok(pm) => if pm + 2 > s.len() {
                                        Err(spec_eof())
                                    } else {
                                        match spec_methods_end(
                                            s,
                                            pm + 2,
                                            pool,
                                            u16_at(s, pm) as int,
                                        ) {
                                            Err(e) => Err(e),
                                            Ok(pa) => if pa + 2 > s.len() {
                                                Err(spec_eof())
                                            } else {
                                                spec_attrs_end(
                                                    s,
                                                    pa + 2,
                                                    pool,
                                                    None,
                                                    u16_at(s, pa) as int,
                                                )
                                            },
                                        }
                                    },
                                }
                            },
                        }
                    },
                }
            },
        }
    }
}

/// Whether `cf` holds what the sections after the constant pool decode
/// to, given the decoded pool.
pub open spec fn spec_sections_val(s: Seq<u8>, pos: int, pool: Seq<Constant>, cf: ClassFile) -> bool {
    let this_index = u16_at(s, pos + 2);
    let super_index = u16_at(s, pos + 4);
    let icount = u16_at(s, pos + 6) as int;
    let pf = spec_class_indices_end(s, pos + 8, pool, icount).unwrap();
    let pm = spec_fields_end(s, pf + 2, pool, u16_at(s, pf) as int).unwrap();
    let pa = spec_methods_end(s, pm + 2, pool, u16_at(s, pm) as int).unwrap();
    cf.flags@ == spec_class_flags(u16_at(s, pos)) && (if this_index == 0 {
        cf.this_class@ == Seq::<char>::empty()
    } else {
        spec_get_class_name(pool, this_index) == Ok::<String, ClassReaderError>(cf.this_class)
    }) && (if super_index == 0 {
        cf.super_class is None
    } else {
        cf.super_class matches Some(n) && spec_get_class_name(pool, super_index) == Ok::<
            String,
            ClassReaderError,
        >(n)
    }) && spec_class_names_val(s, pos + 8, pool, icount, cf.interfaces@) && spec_fields_prefix(
        s,
        pf + 2,
        pool,
        cf.fields@,
        pm,
    ) && spec_methods_prefix(s, pm + 2, pool, cf.methods@, pa) && spec_attrs_prefix(
        s,
        pa + 2,
        pool,
        None,
        cf.attributes@,
        spec_attrs_end(s, pa + 2, pool, None, u16_at(s, pa) as int).unwrap(),
    )
}

/// Whether `cf` is the class file the bytes `s` decode to: magic and
/// version accepted, the pool slots decoded in order, and every later
/// section decoded against that pool.
pub open spec fn spec_class_file_val(s: Seq<u8>, cf: ClassFile) -> bool {
    spec_magic_end(s) == Ok::<int, ClassReaderError>(4int) && spec_version_end(s, 4) == Ok::<
        int,
        ClassReaderError,
    >(8int) && cf.version == spec_version(u16_at(s, 6), u16_at(s, 4)).unwrap() && s.len() >= 10
        && (spec_pool_rest_end(s, 10, u16_at(s, 8) as int) matches Ok(p3) && spec_pool_prefix(
        s,
        10,
        cf.constant_pool@,
        p3,
    ) && spec_sections_end(s, p3, cf.constant_pool@) is Ok && spec_sections_val(
        s,
        p3,
        cf.constant_pool@,
        cf,
    ))
}

/// Which error a read of `s` raises, when the pool decoded so far is
/// `pool`: the first failure along the section order.
pub open spec fn spec_class_file_err(s: Seq<u8>, pool: Seq<Constant>, e: ClassReaderError) -> bool {
    match spec_magic_end(s) {
        Err(e0) => e == e0,
        Ok(_) => match spec_version_end(s, 4) {
            Err(e0) => e == e0,
            Ok(_) => if s.len() < 10 {
                e == spec_eof()
            } else {
                match spec_pool_rest_end(s, 10, u16_at(s, 8) as int) {
                    Err(e0) => e == e0,
                    Ok(p3) => spec_pool_prefix(s, 10, pool, p3) && spec_sections_end(s, p3, pool)
                        == Err::<int, ClassReaderError>(e),
                }
            },
        },
    }
}

/// The reader that drives the class file grammar: a cursor over the
/// input and the class file under construction.
#[derive(Debug)]
pub struct ClassFileReader<'a> {
    byte_reader: ByteReader<'a>,
    class_file: ClassFile,
}

impl<'a> ClassFileReader<'a> {
    /// The input bytes.
    pub closed spec fn data(self) -> Seq<u8> {
        self.byte_reader.data()
    }

    /// The cursor's offset into the input.
    pub closed spec fn position(self) -> int {
        self.byte_reader.position()
    }

    /// The cursor stays inside the input.
    pub closed spec fn wf(self) -> bool {
        self.byte_reader.wf()
    }

    /// The class file as built so far.
    pub closed spec fn current(self) -> ClassFile {
        self.class_file
    }

    fn new(data: &'a [u8]) -> (r: Self)
        ensures
            r.data() == data@,
            r.position() == 0,
            r.wf(),
            spec_fresh_class_file(r.current()),
    {
        ClassFileReader { byte_reader: ByteReader::new(data), class_file: ClassFile::default() }
    }

    /// Reads and checks the magic number.
    pub fn read_magic_number(&mut self) -> (r: Result<(), ClassReaderError>)
        requires
            old(self).wf(),
        ensures
            final(self).wf(),
            final(self).data() == old(self).data(),
            final(self).current() == old(self).current(),
            old(self).position() <= final(self).position(),
            old(self).position() == 0 ==> (match r {
                Ok(()) => spec_magic_end(old(self).data()) == Ok::<int, ClassReaderError>(
                    final(self).position(),
                ),
                Err(e) => spec_magic_end(old(self).data()) == Err::<int, ClassReaderError>(e),
            }),
    {
        match self.byte_reader.read_u32() {
            Ok(magic) => {
                if magic == 0xCAFEBABE {
                    Ok(())
                } else {
                    Err(ClassReaderError::InvalidMagicNumber(magic))
                }
            },
            Err(e) => Err(ClassReaderError::ReadError(e)),
        }
    }

    /// Reads and validates the version word, recording the version.
    pub fn read_version(&mut self) -> (r: Result<(), ClassReaderError>)
        requires
            old(self).wf(),
        ensures
            final(self).wf(),
            final(self).data() == old(self).data(),
            old(self).position() <= final(self).position(),
            (match r {
                Ok(()) => spec_version_end(old(self).data(), old(self).position()) == Ok::<
                    int,
                    ClassReaderError,
                >(final(self).position()) && final(self).current() == (ClassFile {
                    version: spec_version(
                        u16_at(old(self).data(), old(self).position() + 2),
                        u16_at(old(self).data(), old(self).position()),
                    ).unwrap(),
                    ..old(self).current()
                }),
                Err(e) => spec_version_end(old(self).data(), old(self).position()) == Err::<
                    int,
                    ClassReaderError,
                >(e) && final(self).current() == old(self).current(),
            }),
    {
        let minor_version = match self.byte_reader.read_u16() {
            Ok(v) => v,
            Err(e) => {
                return Err(ClassReaderError::ReadError(e));
            },
        };
        let major_version = match self.byte_reader.read_u16() {
            Ok(v) => v,
            Err(e) => {
                return Err(ClassReaderError::ReadError(e));
            },
        };
        match ClassFileVersion::from(major_version, minor_version) {
            Ok(version) => {
                self.class_file.version = version;
                Ok(())
            },
            Err(e) => Err(ClassReaderError::FileVersionError(e)),
        }
    }

    /// Reads the pool count and the entries it names, filling the pool.
    /// The count names one more slot than the entries fill; a `Long` or
    /// `Double` entry fills two slots.
    pub fn read_constant_pool(&mut self) -> (r: Result<(), ClassReaderError>)
        requires
            old(self).wf(),
        ensures
            final(self).wf(),
            final(self).data() == old(self).data(),
            old(self).position() <= final(self).position(),
            (match r {
                Ok(()) => old(self).position() + 2 <= old(self).data().len() && {
                    let slots = u16_at(old(self).data(), old(self).position()) as int;
                    spec_pool_rest_end(old(self).data(), old(self).position() + 2, slots) == Ok::<
                        int,
                        ClassReaderError,
                    >(final(self).position()) && spec_pool_prefix(
                        old(self).data(),
                        old(self).position() + 2,
                        final(self).current().constant_pool@.skip(
                            old(self).current().constant_pool@.len() as int,
                        ),
                        final(self).position(),
                    ) && final(self).current() == (ClassFile {
                        constant_pool: final(self).current().constant_pool,
                        ..old(self).current()
                    }) && old(self).current().constant_pool@.is_prefix_of(
                        final(self).current().constant_pool@,
                    )
                },
                Err(e) => (if old(self).position() + 2 > old(self).data().len() {
                    e == spec_eof()
                } else {
                    spec_pool_rest_end(
                        old(self).data(),
                        old(self).position() + 2,
                        u16_at(old(self).data(), old(self).position()) as int,
                    ) == Err::<int, ClassReaderError>(e)
                }),
            }),
    {
        let ghost s = old(self).data();
        let constant_pool_count = match self.byte_reader.read_u16() {
            Ok(v) => v,
            Err(e) => {
                return Err(ClassReaderError::ReadError(e));
            },
        };
        let ghost pos0 = self.byte_reader.position();
        let ghost base = self.class_file.constant_pool@.len() as int;
        let mut index: u32 = 1;
        while index < constant_pool_count as u32
            invariant
                1 <= index,
                self.wf(),
                s == old(self).data(),
                self.data() == s,
                pos0 == old(self).position() + 2,
                pos0 <= self.position(),
                base == old(self).current().constant_pool@.len(),
                constant_pool_count == u16_at(s, old(self).position()),
                index <= constant_pool_count as u32 + 1,
                self.current() == (ClassFile {
                    constant_pool: self.current().constant_pool,
                    ..old(self).current()
                }),
                old(self).current().constant_pool@.is_prefix_of(self.current().constant_pool@),
                spec_pool_rest_end(s, pos0, constant_pool_count as int) == spec_pool_rest_end(
                    s,
                    self.position(),
                    constant_pool_count as int - (index - 1),
                ),
                spec_pool_prefix(
                    s,
                    pos0,
                    self.current().constant_pool@.skip(base),
                    self.position(),
                ),
            decreases constant_pool_count as int + 1 - index,
        {
            let ghost cur = self.byte_reader.position();
            let ghost built = self.class_file.constant_pool@.skip(base);
            let constant = match read_constant(&mut self.byte_reader) {
                Ok(c) => c,
                Err(e) => {
                    return Err(e);
                },
            };
            let wide = match &constant {
                Constant::Long(_) => true,
                Constant::Double(_) => true,
                _ => false,
            };
            proof {
                lemma_pool_prefix_snoc(s, pos0, built, cur, constant);
            }
            self.class_file.constant_pool.add(constant);
            proof {
                assert(old(self).current().constant_pool@.is_prefix_of(
                    self.current().constant_pool@,
                ));
                assert(self.current().constant_pool@.skip(base) =~= (if wide {
                    built.push(constant).push(Constant::Unusable)
                } else {
                    built.push(constant)
                }));
            }
            if wide {
                index = index + 2;
            } else {
                index = index + 1;
            }
        }
        Ok(())
    }

    /// Drives the whole grammar in order, filling `class_file`.
    #[verifier::rlimit(100)]
    #[verifier::spinoff_prover]
    fn read(&mut self) -> (r: Result<(), ClassReaderError>)
        requires
            old(self).wf(),
            old(self).position() == 0,
            spec_fresh_class_file(old(self).current()),
            old(self).data().len() <= u32::MAX,
        ensures
            final(self).wf(),
            final(self).data() == old(self).data(),
            (match r {
                Ok(()) => spec_class_file_val(old(self).data(), final(self).current()),
                Err(e) => spec_class_file_err(
                    old(self).data(),
                    final(self).current().constant_pool@,
                    e,
                ),
            }),
    {
        let ghost s = old(self).data();
        match self.read_magic_number() {
            Ok(()) => (),
            Err(e) => {
                return Err(e);
            },
        }
        match self.read_version() {
            Ok(()) => (),
            Err(e) => {
                return Err(e);
            },
        }
        match self.read_constant_pool() {
            Ok(()) => (),
            Err(e) => {
                return Err(e);
            },
        }
        proof {
            assert(self.current().constant_pool@.skip(0) =~= self.current().constant_pool@);
        }
        let ghost p3 = self.position();
        let ghost pool = self.current().constant_pool@;
        let flags_mask = match ru16(&mut self.byte_reader) {
            Ok(v) => v,
            Err(e) => {
                return Err(e);
            },
        };
        self.class_file.flags = ClassFileAccessFlags::new(flags_mask);
        let this_index = match ru16(&mut self.byte_reader) {
            Ok(v) => v,
            Err(e) => {
                return Err(e);
            },
        };
        if this_index != 0 {
            let name = match get_class_name(&self.class_file.constant_pool, this_index) {
                Ok(n) => n,
                Err(e) => {
                    return Err(e);
                },
            };
            self.class_file.this_class = name;
        }
        let super_index = match ru16(&mut self.byte_reader) {
            Ok(v) => v,
            Err(e) => {
                return Err(e);
            },
        };
        if super_index != 0 {
            let name = match get_class_name(&self.class_file.constant_pool, super_index) {
                Ok(n) => n,
                Err(e) => {
                    return Err(e);
                },
            };
            self.class_file.super_class = Some(name);
        }
        let interfaces_count = match ru16(&mut self.byte_reader) {
            Ok(v) => v,
            Err(e) => {
                return Err(e);
            },
        };
        let interfaces = match read_class_names(
            &mut self.byte_reader,
            &self.class_file.constant_pool,
            interfaces_count,
        ) {
            Ok(v) => v,
            Err(e) => {
                return Err(e);
            },
        };
        self.class_file.interfaces = interfaces;
        let ghost pf = self.position();
        let fields_count = match ru16(&mut self.byte_reader) {
            Ok(v) => v,
            Err(e) => {
                return Err(e);
            },
        };
        let fields = match read_fields(
            &mut self.byte_reader,
            &self.class_file.constant_pool,
            fields_count,
        ) {
            Ok(v) => v,
            Err(e) => {
                return Err(e);
            },
        };
        self.class_file.fields = fields;
        let ghost pm = self.position();
        let methods_count = match ru16(&mut self.byte_reader) {
            Ok(v) => v,
            Err(e) => {
                return Err(e);
            },
        };
        let methods = match read_methods(
            &mut self.byte_reader,
            &self.class_file.constant_pool,
            methods_count,
        ) {
            Ok(v) => v,
            Err(e) => {
                return Err(e);
            },
        };
        self.class_file.methods = methods;
        let ghost pa = self.position();
        let attributes_count = match ru16(&mut self.byte_reader) {
            Ok(v) => v,
            Err(e) => {
                return Err(e);
            },
        };
        let attributes = match read_attributes(
            &mut self.byte_reader,
            &self.class_file.constant_pool,
            None,
            Ghost(None),
            attributes_count,
        ) {
            Ok(v) => v,
            Err(e) => {
                return Err(e);
            },
        };
        self.class_file.attributes = attributes;
        Ok(())
    }

    /// Reads a whole class file out of `data`: the fully populated
    /// `ClassFile`, or the first error together with a window of bytes
    /// around the position where the parse stopped.
    pub fn read_class(data: &[u8]) -> (r: Result<ClassFile, ContextualError>)
        requires
            data@.len() <= u32::MAX,
        ensures
            (match r {
                Ok(cf) => spec_class_file_val(data@, cf),
                Err(ce) => (exists|pool: Seq<Constant>|
                    spec_class_file_err(data@, pool, ce.err)) && (exists|p: int|
                    0 <= p <= data@.len() && ce.snippet@ == data@.subrange(
                        ByteReader::snippet_lo(data@, p),
                        ByteReader::snippet_hi(data@, p),
                    )),
            }),
    {
        let mut class_reader = ClassFileReader::new(data);
        let result = class_reader.read();
        match result {
            Ok(()) => Ok(class_reader.class_file),
            Err(err) => {
                let snippet = class_reader.byte_reader.snippet();
                proof {
                    assert(spec_class_file_err(
                        data@,
                        class_reader.current().constant_pool@,
                        err,
                    ));
                }
                Err(ContextualError { err, snippet })
            },
        }
    }
}

/// A resolved class reference reaches a string: when `index` resolves to
/// a class name, the pool holds a `ClassIndex` entry at `index`, and a
/// `Utf8` entry holding the name at the index that entry carries.
pub proof fn lemma_class_name_reaches_utf8(pool: Seq<Constant>, index: u16)
    requires
        spec_get_class_name(pool, index) is Ok,
    ensures
        spec_pool_get(pool, index as usize) matches Ok(c) && (c matches Constant::ClassIndex(j)
            && (spec_pool_get(pool, j as usize) matches Ok(c2) && c2 matches Constant::Utf8(t)
            && t == spec_get_class_name(pool, index).unwrap())),
{
}

/// The position right after the constant pool of `s`.
pub open spec fn spec_pool_section_end(s: Seq<u8>) -> int {
    spec_pool_rest_end(s, 10, u16_at(s, 8) as int).unwrap()
}

/// Every class reference a produced `ClassFile` carries was resolved:
/// the class's own name where its index is not zero, the super class
/// name where one is named, and each interface name, all through the
/// produced pool.
pub proof fn lemma_produced_references_resolve(s: Seq<u8>, cf: ClassFile)
    requires
        spec_class_file_val(s, cf),
    ensures
        u16_at(s, spec_pool_section_end(s) + 2) != 0 ==> spec_get_class_name(
            cf.constant_pool@,
            u16_at(s, spec_pool_section_end(s) + 2),
        ) == Ok::<String, ClassReaderError>(cf.this_class),
        u16_at(s, spec_pool_section_end(s) + 4) != 0 ==> (cf.super_class matches Some(n)
            && spec_get_class_name(cf.constant_pool@, u16_at(s, spec_pool_section_end(s) + 4))
            == Ok::<String, ClassReaderError>(n)),
        forall|k: int|
            0 <= k < cf.interfaces@.len() ==> spec_get_class_name(
                cf.constant_pool@,
                u16_at(s, spec_pool_section_end(s) + 8 + 2 * k),
            ) == Ok::<String, ClassReaderError>(#[trigger] cf.interfaces@[k]),
{
}

/// A decoded pool entry is a usable constant: never the sentinel, and
/// wide exactly when its tag is wide.
proof fn lemma_pool_entry_val_shape(s: Seq<u8>, pos: int, c: Constant)
    requires
        spec_pool_entry_val(s, pos, c),
    ensures
        c != Constant::Unusable,
        spec_is_wide(c) == spec_wide_tag(s, pos),
{
}

/// A decoded pool keeps the two-slot rule: the sentinel follows every
/// wide entry and stands nowhere else.
proof fn lemma_pool_prefix_wf(s: Seq<u8>, pos: int, cs: Seq<Constant>, end: int)
    requires
        spec_pool_prefix(s, pos, cs, end),
    ensures
        spec_pool_wf(cs),
    decreases cs.len(),
{
    if cs.len() > 0 {
        let p2 = spec_pool_entry_end(s, pos).unwrap();
        lemma_pool_entry_val_shape(s, pos, cs[0]);
        if spec_wide_tag(s, pos) {
            let rest = cs.skip(2);
            lemma_pool_prefix_wf(s, p2, rest, end);
            assert forall|i: int| 0 <= i < cs.len() implies ((spec_is_wide(#[trigger] cs[i]) ==> i
                + 1 < cs.len() && cs[i + 1] == Constant::Unusable) && (cs[i] == Constant::Unusable
                ==> i > 0 && spec_is_wide(cs[i - 1]))) by {
                if i >= 2 {
                    assert(cs[i] == rest[i - 2]);
                    if i + 1 < cs.len() {
                        assert(cs[i + 1] == rest[i - 1]);
                    }
                    if i >= 3 {
                        assert(cs[i - 1] == rest[i - 3]);
                    }
                }
            }
        } else {
            let rest = cs.skip(1);
            lemma_pool_prefix_wf(s, p2, rest, end);
            assert forall|i: int| 0 <= i < cs.len() implies ((spec_is_wide(#[trigger] cs[i]) ==> i
                + 1 < cs.len() && cs[i + 1] == Constant::Unusable) && (cs[i] == Constant::Unusable
                ==> i > 0 && spec_is_wide(cs[i - 1]))) by {
                if i >= 1 {
                    assert(cs[i] == rest[i - 1]);
                    if i + 1 < cs.len() {
                        assert(cs[i + 1] == rest[i]);
                    }
                    if i >= 2 {
                        assert(cs[i - 1] == rest[i - 2]);
                    }
                }
            }
        }
    }
}

/// The pool of every produced `ClassFile` keeps the two-slot rule, so
/// the law of wide entries applies to it: the slot after each `Long` or
/// `Double` holds the sentinel and fails lookups with
/// `UnusableConstant`.
pub proof fn lemma_produced_pool_wf(s: Seq<u8>, cf: ClassFile)
    requires
        spec_class_file_val(s, cf),
    ensures
        spec_pool_wf(cf.constant_pool@),
{
    lemma_pool_prefix_wf(s, 10, cf.constant_pool@, spec_pool_section_end(s));
}

} // verus!
