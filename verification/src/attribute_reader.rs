//! The attribute parser: for each attribute it reads the name index and
//! the declared length, resolves the name through the pool, and
//! dispatches on it — to a structured decoder for the predefined names,
//! and to a raw-bytes fallback for every other name. A predefined
//! attribute must consume exactly its declared length. The stack map
//! frame and verification type decoders live here too.

use vstd::prelude::*;

use crate::attribute::{Attribute, UserDefinedAttribute};
use crate::byte_reader::{u16_at, u32_at, ByteReader, ReadError};
use crate::class_file_reader::{get_utf8, spec_get_utf8, spec_get_class_name, get_class_name,
    ClassReaderError};
use crate::constant_pool::{spec_constant_kind, spec_pool_get, Constant, ConstantPool};
use crate::field::{spec_field_desc_val, spec_semicolon_pos, BaseType, FieldType};
use crate::instruction::{decode_code, spec_code_err, spec_code_matches, spec_eof};
use crate::predefined_attributes::{
    BootstrapMethod, BootstrapMethods, Code, ConstantValue, ExceptionHandler, LineNumber,
    LineNumberTable, LocalVariable, LocalVariableTable, LocalVariableType, LocalVariableTypeTable,
    NestHost, NestMembers, PetrmittedSubclasses, SourceFile, StackMapFrame, StackMapTable,
    VerificationTypeInfo,
};
use vstd::string::StringExecFns;

verus! {

/// Reads one byte, wrapping the cursor's error.
pub(crate) fn ru8(reader: &mut ByteReader<'_>) -> (r: Result<u8, ClassReaderError>)
    requires
        old(reader).wf(),
    ensures
        final(reader).wf(),
        final(reader).data() == old(reader).data(),
        old(reader).position() + 1 <= old(reader).data().len() ==> (r == Ok::<u8, ClassReaderError>(
            old(reader).data()[old(reader).position()],
        ) && final(reader).position() == old(reader).position() + 1),
        old(reader).position() + 1 > old(reader).data().len() ==> (r == Err::<u8, ClassReaderError>(
            spec_eof(),
        ) && final(reader).position() == old(reader).position()),
{
    match reader.read_u8() {
        Ok(v) => Ok(v),
        Err(e) => Err(ClassReaderError::ReadError(e)),
    }
}

/// Reads one big-endian `u16`, wrapping the cursor's error.
pub(crate) fn ru16(reader: &mut ByteReader<'_>) -> (r: Result<u16, ClassReaderError>)
    requires
        old(reader).wf(),
    ensures
        final(reader).wf(),
        final(reader).data() == old(reader).data(),
        old(reader).position() + 2 <= old(reader).data().len() ==> (r == Ok::<
            u16,
            ClassReaderError,
        >(u16_at(old(reader).data(), old(reader).position())) && final(reader).position() == old(
            reader,
        ).position() + 2),
        old(reader).position() + 2 > old(reader).data().len() ==> (r == Err::<
            u16,
            ClassReaderError,
        >(spec_eof()) && final(reader).position() == old(reader).position()),
{
    match reader.read_u16() {
        Ok(v) => Ok(v),
        Err(e) => Err(ClassReaderError::ReadError(e)),
    }
}

/// Reads one big-endian `u32`, wrapping the cursor's error.
pub(crate) fn ru32(reader: &mut ByteReader<'_>) -> (r: Result<u32, ClassReaderError>)
    requires
        old(reader).wf(),
    ensures
        final(reader).wf(),
        final(reader).data() == old(reader).data(),
        old(reader).position() + 4 <= old(reader).data().len() ==> (r == Ok::<
            u32,
            ClassReaderError,
        >(u32_at(old(reader).data(), old(reader).position())) && final(reader).position() == old(
            reader,
        ).position() + 4),
        old(reader).position() + 4 > old(reader).data().len() ==> (r == Err::<
            u32,
            ClassReaderError,
        >(spec_eof()) && final(reader).position() == old(reader).position()),
{
    match reader.read_u32() {
        Ok(v) => Ok(v),
        Err(e) => Err(ClassReaderError::ReadError(e)),
    }
}

/// Where the verification type at `pos` ends, or the error it raises.
pub open spec fn spec_vti_end(s: Seq<u8>, pos: int, pool: Seq<Constant>) -> Result<
    int,
    ClassReaderError,
> {
    if pos + 1 > s.len() {
        Err(spec_eof())
    } else {
        let tag = s[pos];
        if tag <= 6 {
            Ok(pos + 1)
        } else if tag == 7 {
            if pos + 3 > s.len() {
                Err(spec_eof())
            } else {
                match spec_pool_get(pool, u16_at(s, pos + 1) as usize) {
                    Err(e) => Err(ClassReaderError::ConstantPoolError(e)),
                    Ok(_) => Ok(pos + 3),
                }
            }
        } else if tag == 8 {
            if pos + 3 > s.len() {
                Err(spec_eof())
            } else {
                Ok(pos + 3)
            }
        } else {
            Err(ClassReaderError::InvalidVerificationType(tag))
        }
    }
}

/// The verification type decoded at `pos`, where one decodes there.
pub open spec fn spec_vti_val(s: Seq<u8>, pos: int, pool: Seq<Constant>) -> VerificationTypeInfo {
    let tag = s[pos];
    if tag == 0 {
        VerificationTypeInfo::Top
    } else if tag == 1 {
        VerificationTypeInfo::Integer
    } else if tag == 2 {
        VerificationTypeInfo::Float
    } else if tag == 3 {
        VerificationTypeInfo::Double
    } else if tag == 4 {
        VerificationTypeInfo::Long
    } else if tag == 5 {
        VerificationTypeInfo::Null
    } else if tag == 6 {
        VerificationTypeInfo::UninitializedThis
    } else if tag == 7 {
        VerificationTypeInfo::Object {
            constant: spec_pool_get(pool, u16_at(s, pos + 1) as usize).unwrap(),
        }
    } else {
        VerificationTypeInfo::Uninitialized { offset: u16_at(s, pos + 1) }
    }
}

/// Where a run of `count` verification types starting at `pos` ends.
pub open spec fn spec_vtis_end(s: Seq<u8>, pos: int, pool: Seq<Constant>, count: int) -> Result<
    int,
    ClassReaderError,
>
    decreases count,
{
    if count <= 0 {
        Ok(pos)
    } else {
        match spec_vti_end(s, pos, pool) {
            Err(e) => Err(e),
            Ok(p2) => spec_vtis_end(s, p2, pool, count - 1),
        }
    }
}

/// Whether `vs` lists the verification types decoded from `pos` up to
/// `end`.
pub open spec fn spec_vtis_prefix(
    s: Seq<u8>,
    pos: int,
    pool: Seq<Constant>,
    vs: Seq<VerificationTypeInfo>,
    end: int,
) -> bool
    decreases vs.len(),
{
    if vs.len() == 0 {
        end == pos
    } else {
        match spec_vti_end(s, pos, pool) {
            Err(_) => false,
            Ok(p2) => vs[0] == spec_vti_val(s, pos, pool) && spec_vtis_prefix(
                s,
                p2,
                pool,
                vs.drop_first(),
                end,
            ),
        }
    }
}

/// One more verification type extends a decoded prefix.
proof fn lemma_vtis_prefix_snoc(
    s: Seq<u8>,
    pos: int,
    pool: Seq<Constant>,
    vs: Seq<VerificationTypeInfo>,
    e: int,
)
    requires
        spec_vtis_prefix(s, pos, pool, vs, e),
        spec_vti_end(s, e, pool) is Ok,
    ensures
        spec_vtis_prefix(
            s,
            pos,
            pool,
            vs.push(spec_vti_val(s, e, pool)),
            spec_vti_end(s, e, pool).unwrap(),
        ),
    decreases vs.len(),
{
    let v = spec_vti_val(s, e, pool);
    let p2 = spec_vti_end(s, e, pool).unwrap();
    if vs.len() == 0 {
        assert(vs.push(v)[0] == v);
        assert(vs.push(v).drop_first() =~= Seq::<VerificationTypeInfo>::empty());
        assert(spec_vtis_prefix(s, p2, pool, Seq::<VerificationTypeInfo>::empty(), p2));
    } else {
        let m = spec_vti_end(s, pos, pool).unwrap();
        lemma_vtis_prefix_snoc(s, m, pool, vs.drop_first(), e);
        assert(vs.push(v)[0] == vs[0]);
        assert(vs.push(v).drop_first() =~= vs.drop_first().push(v));
    }
}

/// Reads one verification type.
pub fn read_verification_type(reader: &mut ByteReader<'_>, pool: &ConstantPool) -> (r: Result<
    VerificationTypeInfo,
    ClassReaderError,
>)
    requires
        old(reader).wf(),
    ensures
        final(reader).wf(),
        final(reader).data() == old(reader).data(),
        old(reader).position() <= final(reader).position(),
        (match r {
            Ok(v) => spec_vti_end(old(reader).data(), old(reader).position(), pool@) == Ok::<
                int,
                ClassReaderError,
            >(final(reader).position()) && v == spec_vti_val(
                old(reader).data(),
                old(reader).position(),
                pool@,
            ),
            Err(e) => spec_vti_end(old(reader).data(), old(reader).position(), pool@) == Err::<
                int,
                ClassReaderError,
            >(e),
        }),
{
    let tag = ru8(reader)?;
    if tag == 0 {
        Ok(VerificationTypeInfo::Top)
    } else if tag == 1 {
        Ok(VerificationTypeInfo::Integer)
    } else if tag == 2 {
        Ok(VerificationTypeInfo::Float)
    } else if tag == 3 {
        Ok(VerificationTypeInfo::Double)
    } else if tag == 4 {
        Ok(VerificationTypeInfo::Long)
    } else if tag == 5 {
        Ok(VerificationTypeInfo::Null)
    } else if tag == 6 {
        Ok(VerificationTypeInfo::UninitializedThis)
    } else if tag == 7 {
        let cpool_index = ru16(reader)?;
        match pool.get(cpool_index as usize) {
            Err(e) => Err(ClassReaderError::ConstantPoolError(e)),
            Ok(c) => Ok(VerificationTypeInfo::Object { constant: c.clone() }),
        }
    } else if tag == 8 {
        let offset = ru16(reader)?;
        Ok(VerificationTypeInfo::Uninitialized { offset })
    } else {
        Err(ClassReaderError::InvalidVerificationType(tag))
    }
}

/// Reads `count` verification types.
pub fn read_verification_types(reader: &mut ByteReader<'_>, pool: &ConstantPool, count: u16) -> (r:
    Result<Vec<VerificationTypeInfo>, ClassReaderError>)
    requires
        old(reader).wf(),
    ensures
        final(reader).wf(),
        final(reader).data() == old(reader).data(),
        old(reader).position() <= final(reader).position(),
        (match r {
            Ok(v) => spec_vtis_end(old(reader).data(), old(reader).position(), pool@, count as int)
                == Ok::<int, ClassReaderError>(final(reader).position()) && spec_vtis_prefix(
                old(reader).data(),
                old(reader).position(),
                pool@,
                v@,
                final(reader).position(),
            ),
            Err(e) => spec_vtis_end(old(reader).data(), old(reader).position(), pool@, count as int)
                == Err::<int, ClassReaderError>(e),
        }),
{
    let ghost s = old(reader).data();
    let ghost pos0 = old(reader).position();
    let mut types: Vec<VerificationTypeInfo> = Vec::new();
    let mut k: u16 = 0;
    while k < count
        invariant
            0 <= k <= count,
            reader.wf(),
            s == old(reader).data(),
            pos0 == old(reader).position(),
            reader.data() == s,
            pos0 <= reader.position(),
            spec_vtis_end(s, pos0, pool@, count as int) == spec_vtis_end(
                s,
                reader.position(),
                pool@,
                count - k,
            ),
            spec_vtis_prefix(s, pos0, pool@, types@, reader.position()),
        decreases count - k,
    {
        let ghost cur = reader.position();
        match read_verification_type(reader, pool) {
            Err(e) => {
                return Err(e);
            },
            Ok(v) => {
                proof {
                    lemma_vtis_prefix_snoc(s, pos0, pool@, types@, cur);
                }
                types.push(v);
                k = k + 1;
            },
        }
    }
    Ok(types)
}

/// Where the stack map frame at `pos` ends, or the error it raises.
/// Frame types 128 through 246 are reserved and rejected.
pub open spec fn spec_frame_end(s: Seq<u8>, pos: int, pool: Seq<Constant>) -> Result<
    int,
    ClassReaderError,
> {
    if pos + 1 > s.len() {
        Err(spec_eof())
    } else {
        let ft = s[pos];
        if ft <= 63 {
            Ok(pos + 1)
        } else if ft <= 127 {
            spec_vti_end(s, pos + 1, pool)
        } else if ft == 247 {
            if pos + 3 > s.len() {
                Err(spec_eof())
            } else {
                spec_vti_end(s, pos + 3, pool)
            }
        } else if 248 <= ft && ft <= 251 {
            if pos + 3 > s.len() {
                Err(spec_eof())
            } else {
                Ok(pos + 3)
            }
        } else if 252 <= ft && ft <= 254 {
            if pos + 3 > s.len() {
                Err(spec_eof())
            } else {
                spec_vtis_end(s, pos + 3, pool, ft - 251)
            }
        } else if ft == 255 {
            if pos + 5 > s.len() {
                Err(spec_eof())
            } else {
                match spec_vtis_end(s, pos + 5, pool, u16_at(s, pos + 3) as int) {
                    Err(e) => Err(e),
                    Ok(p2) => if p2 + 2 > s.len() {
                        Err(spec_eof())
                    } else {
                        spec_vtis_end(s, p2 + 2, pool, u16_at(s, p2) as int)
                    },
                }
            }
        } else {
            Err(ClassReaderError::InvalidStackMapFrameType(ft))
        }
    }
}

/// Whether `f` is the stack map frame decoded at `pos`.
pub open spec fn spec_frame_val(s: Seq<u8>, pos: int, pool: Seq<Constant>, f: StackMapFrame) -> bool {
    let ft = s[pos];
    if ft <= 63 {
        f == (StackMapFrame::SameFrame { frame_type: ft })
    } else if ft <= 127 {
        f == (StackMapFrame::SameLocals1StackItemFrame {
            frame_type: ft,
            stack: spec_vti_val(s, pos + 1, pool),
        })
    } else if ft == 247 {
        f == (StackMapFrame::SameLocals1StackItemFrameExtended {
            frame_type: ft,
            offset_delta: u16_at(s, pos + 1),
            stack: spec_vti_val(s, pos + 3, pool),
        })
    } else if 248 <= ft && ft <= 250 {
        f == (StackMapFrame::ChopFrame { frame_type: ft, offset_delta: u16_at(s, pos + 1) })
    } else if ft == 251 {
        f == (StackMapFrame::SameFrameExtended { frame_type: ft, offset_delta: u16_at(s, pos + 1) })
    } else if 252 <= ft && ft <= 254 {
        f matches StackMapFrame::AppendFrame { frame_type, offset_delta, locals } && frame_type
            == ft && offset_delta == u16_at(s, pos + 1) && spec_vtis_prefix(
            s,
            pos + 3,
            pool,
            locals@,
            spec_vtis_end(s, pos + 3, pool, ft - 251).unwrap(),
        )
    } else if ft == 255 {
        f matches StackMapFrame::FullFrame { frame_type, offset_delta, locals, stack }
            && frame_type == ft && offset_delta == u16_at(s, pos + 1) && {
            let p2 = spec_vtis_end(s, pos + 5, pool, u16_at(s, pos + 3) as int).unwrap();
            spec_vtis_prefix(s, pos + 5, pool, locals@, p2) && spec_vtis_prefix(
                s,
                p2 + 2,
                pool,
                stack@,
                spec_vtis_end(s, p2 + 2, pool, u16_at(s, p2) as int).unwrap(),
            )
        }
    } else {
        false
    }
}

/// Reads one stack map frame.
pub fn read_stack_map_frame(reader: &mut ByteReader<'_>, pool: &ConstantPool) -> (r: Result<
    StackMapFrame,
    ClassReaderError,
>)
    requires
        old(reader).wf(),
    ensures
        final(reader).wf(),
        final(reader).data() == old(reader).data(),
        old(reader).position() <= final(reader).position(),
        (match r {
            Ok(f) => spec_frame_end(old(reader).data(), old(reader).position(), pool@) == Ok::<
                int,
                ClassReaderError,
            >(final(reader).position()) && spec_frame_val(
                old(reader).data(),
                old(reader).position(),
                pool@,
                f,
            ),
            Err(e) => spec_frame_end(old(reader).data(), old(reader).position(), pool@) == Err::<
                int,
                ClassReaderError,
            >(e),
        }),
{
    let frame_type = ru8(reader)?;
    if frame_type <= 63 {
        Ok(StackMapFrame::SameFrame { frame_type })
    } else if frame_type <= 127 {
        let stack = read_verification_type(reader, pool)?;
        Ok(StackMapFrame::SameLocals1StackItemFrame { frame_type, stack })
    } else if frame_type == 247 {
        let offset_delta = ru16(reader)?;
        let stack = read_verification_type(reader, pool)?;
        Ok(StackMapFrame::SameLocals1StackItemFrameExtended { frame_type, offset_delta, stack })
    } else if 248 <= frame_type && frame_type <= 250 {
        let offset_delta = ru16(reader)?;
        Ok(StackMapFrame::ChopFrame { frame_type, offset_delta })
    } else if frame_type == 251 {
        let offset_delta = ru16(reader)?;
        Ok(StackMapFrame::SameFrameExtended { frame_type, offset_delta })
    } else if 252 <= frame_type && frame_type <= 254 {
        let offset_delta = ru16(reader)?;
        let locals = read_verification_types(reader, pool, (frame_type - 251) as u16)?;
        Ok(StackMapFrame::AppendFrame { frame_type, offset_delta, locals })
    } else if frame_type == 255 {
        let offset_delta = ru16(reader)?;
        let locals_count = ru16(reader)?;
        let locals = read_verification_types(reader, pool, locals_count)?;
        let stack_count = ru16(reader)?;
        let stack = read_verification_types(reader, pool, stack_count)?;
        Ok(StackMapFrame::FullFrame { frame_type, offset_delta, locals, stack })
    } else {
        Err(ClassReaderError::InvalidStackMapFrameType(frame_type))
    }
}

/// Where a run of `count` stack map frames starting at `pos` ends.
pub open spec fn spec_frames_end(s: Seq<u8>, pos: int, pool: Seq<Constant>, count: int) -> Result<
    int,
    ClassReaderError,
>
    decreases count,
{
    if count <= 0 {
        Ok(pos)
    } else {
        match spec_frame_end(s, pos, pool) {
            Err(e) => Err(e),
            Ok(p2) => spec_frames_end(s, p2, pool, count - 1),
        }
    }
}

/// Whether `fs` lists the stack map frames decoded from `pos` up to `end`.
pub open spec fn spec_frames_prefix(
    s: Seq<u8>,
    pos: int,
    pool: Seq<Constant>,
    fs: Seq<StackMapFrame>,
    end: int,
) -> bool
    decreases fs.len(),
{
    if fs.len() == 0 {
        end == pos
    } else {
        match spec_frame_end(s, pos, pool) {
            Err(_) => false,
            Ok(p2) => spec_frame_val(s, pos, pool, fs[0]) && spec_frames_prefix(
                s,
                p2,
                pool,
                fs.drop_first(),
                end,
            ),
        }
    }
}

/// One more frame extends a decoded prefix.
proof fn lemma_frames_prefix_snoc(
    s: Seq<u8>,
    pos: int,
    pool: Seq<Constant>,
    fs: Seq<StackMapFrame>,
    e: int,
    f: StackMapFrame,
)
    requires
        spec_frames_prefix(s, pos, pool, fs, e),
        spec_frame_end(s, e, pool) is Ok,
        spec_frame_val(s, e, pool, f),
    ensures
        spec_frames_prefix(s, pos, pool, fs.push(f), spec_frame_end(s, e, pool).unwrap()),
    decreases fs.len(),
{
    let p2 = spec_frame_end(s, e, pool).unwrap();
    if fs.len() == 0 {
        assert(fs.push(f)[0] == f);
        assert(fs.push(f).drop_first() =~= Seq::<StackMapFrame>::empty());
        assert(spec_frames_prefix(s, p2, pool, Seq::<StackMapFrame>::empty(), p2));
    } else {
        let m = spec_frame_end(s, pos, pool).unwrap();
        lemma_frames_prefix_snoc(s, m, pool, fs.drop_first(), e, f);
        assert(fs.push(f)[0] == fs[0]);
        assert(fs.push(f).drop_first() =~= fs.drop_first().push(f));
    }
}

/// Reads `count` stack map frames.
pub fn read_stack_map_frames(reader: &mut ByteReader<'_>, pool: &ConstantPool, count: u16) -> (r:
    Result<Vec<StackMapFrame>, ClassReaderError>)
    requires
        old(reader).wf(),
    ensures
        final(reader).wf(),
        final(reader).data() == old(reader).data(),
        old(reader).position() <= final(reader).position(),
        (match r {
            Ok(v) => spec_frames_end(
                old(reader).data(),
                old(reader).position(),
                pool@,
                count as int,
            ) == Ok::<int, ClassReaderError>(final(reader).position()) && spec_frames_prefix(
                old(reader).data(),
                old(reader).position(),
                pool@,
                v@,
                final(reader).position(),
            ),
            Err(e) => spec_frames_end(
                old(reader).data(),
                old(reader).position(),
                pool@,
                count as int,
            ) == Err::<int, ClassReaderError>(e),
        }),
{
    let ghost s = old(reader).data();
    let ghost pos0 = old(reader).position();
    let mut frames: Vec<StackMapFrame> = Vec::new();
    let mut k: u16 = 0;
    while k < count
        invariant
            0 <= k <= count,
            reader.wf(),
            s == old(reader).data(),
            pos0 == old(reader).position(),
            reader.data() == s,
            pos0 <= reader.position(),
            spec_frames_end(s, pos0, pool@, count as int) == spec_frames_end(
                s,
                reader.position(),
                pool@,
                count - k,
            ),
            spec_frames_prefix(s, pos0, pool@, frames@, reader.position()),
        decreases count - k,
    {
        let ghost cur = reader.position();
        match read_stack_map_frame(reader, pool) {
            Err(e) => {
                return Err(e);
            },
            Ok(f) => {
                proof {
                    lemma_frames_prefix_snoc(s, pos0, pool@, frames@, cur, f);
                }
                frames.push(f);
                k = k + 1;
            },
        }
    }
    Ok(frames)
}

/// Whether the constant `c` may stand as the `ConstantValue` of a field
/// whose descriptor reads `desc`: an integer for the integral primitives,
/// the matching kind for `float`, `long` and `double`, and a `Utf8` only
/// for `java/lang/String`.
pub open spec fn spec_cv_matches_desc(desc: Seq<char>, c: Constant) -> bool {
    if desc.len() == 0 {
        false
    } else {
        let ch = desc[0];
        if ch == 'I' || ch == 'S' || ch == 'C' || ch == 'B' || ch == 'Z' {
            c is Integer
        } else if ch == 'F' {
            c is Float
        } else if ch == 'J' {
            c is Long
        } else if ch == 'D' {
            c is Double
        } else if ch == 'L' {
            match spec_semicolon_pos(desc, 1) {
                Some(k) => desc.subrange(1, k) == "java/lang/String"@ && c is Utf8,
                None => false,
            }
        } else {
            false
        }
    }
}

/// The value-level form of the `ConstantValue` table, over the parsed
/// field type.
pub open spec fn spec_cv_matches_type(t: FieldType, c: Constant) -> bool {
    match t {
        FieldType::Base(b) => match b {
            BaseType::Int => c is Integer,
            BaseType::Short => c is Integer,
            BaseType::Char => c is Integer,
            BaseType::Byte => c is Integer,
            BaseType::Boolean => c is Integer,
            BaseType::Float => c is Float,
            BaseType::Long => c is Long,
            BaseType::Double => c is Double,
        },
        FieldType::Object(name) => name@ == "java/lang/String"@ && c is Utf8,
        FieldType::Array(_) => false,
    }
}

/// Over a descriptor and the type it denotes, the two forms of the
/// `ConstantValue` table agree.
proof fn lemma_cv_desc_type_agree(desc: Seq<char>, t: FieldType, c: Constant)
    requires
        spec_field_desc_val(desc, 0, t),
    ensures
        spec_cv_matches_desc(desc, c) == spec_cv_matches_type(t, c),
{
}

/// Decides the `ConstantValue` table for a parsed field type.
fn cv_matches_type(t: &FieldType, c: &Constant) -> (r: bool)
    ensures
        r == spec_cv_matches_type(*t, *c),
{
    match (t, c) {
        (FieldType::Base(BaseType::Int), Constant::Integer(_)) => true,
        (FieldType::Base(BaseType::Short), Constant::Integer(_)) => true,
        (FieldType::Base(BaseType::Char), Constant::Integer(_)) => true,
        (FieldType::Base(BaseType::Byte), Constant::Integer(_)) => true,
        (FieldType::Base(BaseType::Boolean), Constant::Integer(_)) => true,
        (FieldType::Base(BaseType::Float), Constant::Float(_)) => true,
        (FieldType::Base(BaseType::Long), Constant::Long(_)) => true,
        (FieldType::Base(BaseType::Double), Constant::Double(_)) => true,
        (FieldType::Object(name), Constant::Utf8(_)) => {
            let expected = String::from_str("java/lang/String");
            *name == expected
        },
        _ => false,
    }
}

/// Where a `ConstantValue` attribute body at `body` ends, under the
/// declared `length` and the field descriptor `desc`.
pub open spec fn spec_cv_attr_end(
    s: Seq<u8>,
    body: int,
    pool: Seq<Constant>,
    desc: Seq<char>,
    length: u32,
) -> Result<int, ClassReaderError> {
    if length != 2 {
        Err(ClassReaderError::InvalidAttributeSize(length, 2))
    } else if body + 2 > s.len() {
        Err(spec_eof())
    } else {
        let idx = u16_at(s, body);
        match spec_pool_get(pool, idx as usize) {
            Err(e) => Err(ClassReaderError::ConstantPoolError(e)),
            Ok(c) => if spec_cv_matches_desc(desc, c) {
                Ok(body + 2)
            } else {
                Err(ClassReaderError::MismatchedConstantType(spec_constant_kind(c), idx))
            },
        }
    }
}

/// Whether `a` is the `ConstantValue` attribute decoded at `body`.
pub open spec fn spec_cv_attr_val(s: Seq<u8>, body: int, pool: Seq<Constant>, a: Attribute) -> bool {
    a == Attribute::ConstantValue(
        ConstantValue { value: spec_pool_get(pool, u16_at(s, body) as usize).unwrap() },
    )
}

/// Reads a `ConstantValue` attribute body, checking the constant's kind
/// against the field's type.
fn read_constant_value_attr(
    reader: &mut ByteReader<'_>,
    pool: &ConstantPool,
    field_type: &FieldType,
    Ghost(desc): Ghost<Seq<char>>,
    length: u32,
) -> (r: Result<Attribute, ClassReaderError>)
    requires
        old(reader).wf(),
        spec_field_desc_val(desc, 0, *field_type),
    ensures
        final(reader).wf(),
        final(reader).data() == old(reader).data(),
        old(reader).position() <= final(reader).position(),
        (match r {
            Ok(a) => spec_cv_attr_end(old(reader).data(), old(reader).position(), pool@, desc, length)
                == Ok::<int, ClassReaderError>(final(reader).position()) && spec_cv_attr_val(
                old(reader).data(),
                old(reader).position(),
                pool@,
                a,
            ),
            Err(e) => spec_cv_attr_end(
                old(reader).data(),
                old(reader).position(),
                pool@,
                desc,
                length,
            ) == Err::<int, ClassReaderError>(e),
        }),
{
    if length != 2 {
        return Err(ClassReaderError::InvalidAttributeSize(length, 2));
    }
    let constantvalue_index = ru16(reader)?;
    match pool.get(constantvalue_index as usize) {
        Err(e) => Err(ClassReaderError::ConstantPoolError(e)),
        Ok(c) => {
            proof {
                lemma_cv_desc_type_agree(desc, *field_type, *c);
            }
            if cv_matches_type(field_type, c) {
                Ok(Attribute::ConstantValue(ConstantValue::new(c.clone())))
            } else {
                Err(ClassReaderError::MismatchedConstantType(c.kind(), constantvalue_index))
            }
        },
    }
}

/// Where a `StackMapTable` attribute body at `body` ends, under the
/// declared `length`.
pub open spec fn spec_smt_attr_end(s: Seq<u8>, body: int, pool: Seq<Constant>, length: u32) -> Result<
    int,
    ClassReaderError,
> {
    if body + 2 > s.len() {
        Err(spec_eof())
    } else {
        match spec_frames_end(s, body + 2, pool, u16_at(s, body) as int) {
            Err(e) => Err(e),
            Ok(endp) => if endp - body == length {
                Ok(endp)
            } else {
                Err(ClassReaderError::InvalidAttributeSize(length, (endp - body) as u32))
            },
        }
    }
}

/// Whether `a` is the `StackMapTable` attribute decoded at `body`.
pub open spec fn spec_smt_attr_val(s: Seq<u8>, body: int, pool: Seq<Constant>, a: Attribute) -> bool {
    a matches Attribute::StackMapTable(t) && spec_frames_prefix(
        s,
        body + 2,
        pool,
        t.frames@,
        spec_frames_end(s, body + 2, pool, u16_at(s, body) as int).unwrap(),
    )
}

/// Reads a `StackMapTable` attribute body.
fn read_stack_map_table_attr(
    reader: &mut ByteReader<'_>,
    pool: &ConstantPool,
    length: u32,
) -> (r: Result<Attribute, ClassReaderError>)
    requires
        old(reader).wf(),
        old(reader).data().len() <= u32::MAX,
    ensures
        final(reader).wf(),
        final(reader).data() == old(reader).data(),
        old(reader).position() <= final(reader).position(),
        (match r {
            Ok(a) => spec_smt_attr_end(old(reader).data(), old(reader).position(), pool@, length)
                == Ok::<int, ClassReaderError>(final(reader).position()) && spec_smt_attr_val(
                old(reader).data(),
                old(reader).position(),
                pool@,
                a,
            ),
            Err(e) => spec_smt_attr_end(old(reader).data(), old(reader).position(), pool@, length)
                == Err::<int, ClassReaderError>(e),
        }),
{
    let body = reader.pos();
    let number_of_entries = ru16(reader)?;
    let frames = read_stack_map_frames(reader, pool, number_of_entries)?;
    let consumed = reader.pos() - body;
    if consumed == length as usize {
        Ok(Attribute::StackMapTable(StackMapTable::new(frames)))
    } else {
        Err(ClassReaderError::InvalidAttributeSize(length, consumed as u32))
    }
}

/// Where a `LineNumberTable` attribute body at `body` ends, under the
/// declared `length`.
pub open spec fn spec_lnt_attr_end(s: Seq<u8>, body: int, length: u32) -> Result<
    int,
    ClassReaderError,
> {
    if body + 2 > s.len() {
        Err(spec_eof())
    } else {
        let endp = body + 2 + 4 * (u16_at(s, body) as int);
        if endp > s.len() {
            Err(spec_eof())
        } else if endp - body == length {
            Ok(endp)
        } else {
            Err(ClassReaderError::InvalidAttributeSize(length, (endp - body) as u32))
        }
    }
}

/// Whether `a` is the `LineNumberTable` attribute decoded at `body`.
pub open spec fn spec_lnt_attr_val(s: Seq<u8>, body: int, a: Attribute) -> bool {
    a matches Attribute::LineNumberTable(t) && t.line_number_table@.len() == u16_at(s, body) as int
        && forall|k: int|
        0 <= k < t.line_number_table@.len() ==> t.line_number_table@[k] == (LineNumber {
            start_pc: u16_at(s, body + 2 + 4 * k),
            line_number: u16_at(s, body + 4 + 4 * k),
        })
}

/// Reads a `LineNumberTable` attribute body.
fn read_line_number_table_attr(reader: &mut ByteReader<'_>, length: u32) -> (r: Result<
    Attribute,
    ClassReaderError,
>)
    requires
        old(reader).wf(),
        old(reader).data().len() <= u32::MAX,
    ensures
        final(reader).wf(),
        final(reader).data() == old(reader).data(),
        old(reader).position() <= final(reader).position(),
        (match r {
            Ok(a) => spec_lnt_attr_end(old(reader).data(), old(reader).position(), length) == Ok::<
                int,
                ClassReaderError,
            >(final(reader).position()) && spec_lnt_attr_val(
                old(reader).data(),
                old(reader).position(),
                a,
            ),
            Err(e) => spec_lnt_attr_end(old(reader).data(), old(reader).position(), length) == Err::<
                int,
                ClassReaderError,
            >(e),
        }),
{
    let ghost s = old(reader).data();
    let ghost body = old(reader).position();
    let body_pos = reader.pos();
    let count = ru16(reader)?;
    let mut rows: Vec<LineNumber> = Vec::new();
    let mut k: u16 = 0;
    while k < count
        invariant
            0 <= k <= count,
            reader.wf(),
            s == old(reader).data(),
            body == old(reader).position(),
            reader.data() == s,
            body + 2 <= s.len(),
            count == u16_at(s, body),
            reader.position() == body + 2 + 4 * k,
            rows@.len() == k,
            forall|t: int|
                0 <= t < k ==> rows@[t] == (LineNumber {
                    start_pc: u16_at(s, body + 2 + 4 * t),
                    line_number: u16_at(s, body + 4 + 4 * t),
                }),
        decreases count - k,
    {
        let start_pc = ru16(reader)?;
        let line_number = ru16(reader)?;
        rows.push(LineNumber { start_pc, line_number });
        k = k + 1;
    }
    let consumed = reader.pos() - body_pos;
    proof {
        assert(reader.position() == body + 2 + 4 * (count as int));
    }
    if consumed == length as usize {
        Ok(Attribute::LineNumberTable(LineNumberTable::new(rows)))
    } else {
        Err(ClassReaderError::InvalidAttributeSize(length, consumed as u32))
    }
}

/// Where a `LocalVariableTable` or `LocalVariableTypeTable` attribute
/// body at `body` ends, under the declared `length`: both hold a count
/// and that many ten-byte rows.
pub open spec fn spec_lvt_attr_end(s: Seq<u8>, body: int, length: u32) -> Result<
    int,
    ClassReaderError,
> {
    if body + 2 > s.len() {
        Err(spec_eof())
    } else {
        let endp = body + 2 + 10 * (u16_at(s, body) as int);
        if endp > s.len() {
            Err(spec_eof())
        } else if endp - body == length {
            Ok(endp)
        } else {
            Err(ClassReaderError::InvalidAttributeSize(length, (endp - body) as u32))
        }
    }
}

/// Whether `a` is the `LocalVariableTable` attribute decoded at `body`.
pub open spec fn spec_lvt_attr_val(s: Seq<u8>, body: int, a: Attribute) -> bool {
    a matches Attribute::LocalVariableTable(t) && t.local_variable_table@.len() == u16_at(s, body) as int
        && forall|k: int|
        0 <= k < t.local_variable_table@.len() ==> t.local_variable_table@[k] == (LocalVariable {
            start_pc: u16_at(s, body + 2 + 10 * k),
            length: u16_at(s, body + 4 + 10 * k),
            name_index: u16_at(s, body + 6 + 10 * k),
            descriptor_index: u16_at(s, body + 8 + 10 * k),
            index: u16_at(s, body + 10 + 10 * k),
        })
}

/// Whether `a` is the `LocalVariableTypeTable` attribute decoded at
/// `body`.
pub open spec fn spec_lvtt_attr_val(s: Seq<u8>, body: int, a: Attribute) -> bool {
    a matches Attribute::LocalVariableTypeTable(t) && t.local_variable_type_table@.len() == u16_at(
        s,
        body,
    ) as int && forall|k: int|
        0 <= k < t.local_variable_type_table@.len() ==> t.local_variable_type_table@[k] == (LocalVariableType {
            start_pc: u16_at(s, body + 2 + 10 * k),
            length: u16_at(s, body + 4 + 10 * k),
            name_index: u16_at(s, body + 6 + 10 * k),
            signature_index: u16_at(s, body + 8 + 10 * k),
            index: u16_at(s, body + 10 + 10 * k),
        })
}

/// Reads a `LocalVariableTable` attribute body.
fn read_local_variable_table_attr(reader: &mut ByteReader<'_>, length: u32) -> (r: Result<
    Attribute,
    ClassReaderError,
>)
    requires
        old(reader).wf(),
        old(reader).data().len() <= u32::MAX,
    ensures
        final(reader).wf(),
        final(reader).data() == old(reader).data(),
        old(reader).position() <= final(reader).position(),
        (match r {
            Ok(a) => spec_lvt_attr_end(old(reader).data(), old(reader).position(), length) == Ok::<
                int,
                ClassReaderError,
            >(final(reader).position()) && spec_lvt_attr_val(
                old(reader).data(),
                old(reader).position(),
                a,
            ),
            Err(e) => spec_lvt_attr_end(old(reader).data(), old(reader).position(), length) == Err::<
                int,
                ClassReaderError,
            >(e),
        }),
{
    let ghost s = old(reader).data();
    let ghost body = old(reader).position();
    let body_pos = reader.pos();
    let count = ru16(reader)?;
    let mut rows: Vec<LocalVariable> = Vec::new();
    let mut k: u16 = 0;
    while k < count
        invariant
            0 <= k <= count,
            reader.wf(),
            s == old(reader).data(),
            body == old(reader).position(),
            reader.data() == s,
            body + 2 <= s.len(),
            count == u16_at(s, body),
            reader.position() == body + 2 + 10 * k,
            rows@.len() == k,
            forall|t: int|
                0 <= t < k ==> rows@[t] == (LocalVariable {
                    start_pc: u16_at(s, body + 2 + 10 * t),
                    length: u16_at(s, body + 4 + 10 * t),
                    name_index: u16_at(s, body + 6 + 10 * t),
                    descriptor_index: u16_at(s, body + 8 + 10 * t),
                    index: u16_at(s, body + 10 + 10 * t),
                }),
        decreases count - k,
    {
        let start_pc = ru16(reader)?;
        let var_length = ru16(reader)?;
        let name_index = ru16(reader)?;
        let descriptor_index = ru16(reader)?;
        let index = ru16(reader)?;
        rows.push(LocalVariable::new(start_pc, var_length, name_index, descriptor_index, index));
        k = k + 1;
    }
    let consumed = reader.pos() - body_pos;
    proof {
        assert(reader.position() == body + 2 + 10 * (count as int));
    }
    if consumed == length as usize {
        Ok(Attribute::LocalVariableTable(LocalVariableTable::new(rows)))
    } else {
        Err(ClassReaderError::InvalidAttributeSize(length, consumed as u32))
    }
}

/// Reads a `LocalVariableTypeTable` attribute body.
fn read_local_variable_type_table_attr(reader: &mut ByteReader<'_>, length: u32) -> (r: Result<
    Attribute,
    ClassReaderError,
>)
    requires
        old(reader).wf(),
        old(reader).data().len() <= u32::MAX,
    ensures
        final(reader).wf(),
        final(reader).data() == old(reader).data(),
        old(reader).position() <= final(reader).position(),
        (match r {
            Ok(a) => spec_lvt_attr_end(old(reader).data(), old(reader).position(), length) == Ok::<
                int,
                ClassReaderError,
            >(final(reader).position()) && spec_lvtt_attr_val(
                old(reader).data(),
                old(reader).position(),
                a,
            ),
            Err(e) => spec_lvt_attr_end(old(reader).data(), old(reader).position(), length) == Err::<
                int,
                ClassReaderError,
            >(e),
        }),
{
    let ghost s = old(reader).data();
    let ghost body = old(reader).position();
    let body_pos = reader.pos();
    let count = ru16(reader)?;
    let mut rows: Vec<LocalVariableType> = Vec::new();
    let mut k: u16 = 0;
    while k < count
        invariant
            0 <= k <= count,
            reader.wf(),
            s == old(reader).data(),
            body == old(reader).position(),
            reader.data() == s,
            body + 2 <= s.len(),
            count == u16_at(s, body),
            reader.position() == body + 2 + 10 * k,
            rows@.len() == k,
            forall|t: int|
                0 <= t < k ==> rows@[t] == (LocalVariableType {
                    start_pc: u16_at(s, body + 2 + 10 * t),
                    length: u16_at(s, body + 4 + 10 * t),
                    name_index: u16_at(s, body + 6 + 10 * t),
                    signature_index: u16_at(s, body + 8 + 10 * t),
                    index: u16_at(s, body + 10 + 10 * t),
                }),
        decreases count - k,
    {
        let start_pc = ru16(reader)?;
        let var_length = ru16(reader)?;
        let name_index = ru16(reader)?;
        let signature_index = ru16(reader)?;
        let index = ru16(reader)?;
        rows.push(LocalVariableType::new(start_pc, var_length, name_index, signature_index, index));
        k = k + 1;
    }
    let consumed = reader.pos() - body_pos;
    proof {
        assert(reader.position() == body + 2 + 10 * (count as int));
    }
    if consumed == length as usize {
        Ok(Attribute::LocalVariableTypeTable(LocalVariableTypeTable::new(rows)))
    } else {
        Err(ClassReaderError::InvalidAttributeSize(length, consumed as u32))
    }
}

/// Where the bootstrap method entry at `pos` ends.
pub open spec fn spec_bsm_end(s: Seq<u8>, pos: int) -> Result<int, ClassReaderError> {
    if pos + 4 > s.len() {
        Err(spec_eof())
    } else {
        let endp = pos + 4 + 2 * (u16_at(s, pos + 2) as int);
        if endp > s.len() {
            Err(spec_eof())
        } else {
            Ok(endp)
        }
    }
}

/// Whether `bm` is the bootstrap method entry decoded at `pos`.
pub open spec fn spec_bsm_val(s: Seq<u8>, pos: int, bm: BootstrapMethod) -> bool {
    bm.bootstrap_method_ref == u16_at(s, pos) && bm.bootstrap_arguments@.len() == u16_at(s, pos + 2) as int
        && forall|k: int|
        0 <= k < bm.bootstrap_arguments@.len() ==> bm.bootstrap_arguments@[k] == u16_at(
            s,
            pos + 4 + 2 * k,
        )
}

/// Where a run of `count` bootstrap method entries starting at `pos` ends.
pub open spec fn spec_bsms_end(s: Seq<u8>, pos: int, count: int) -> Result<int, ClassReaderError>
    decreases count,
{
    if count <= 0 {
        Ok(pos)
    } else {
        match spec_bsm_end(s, pos) {
            Err(e) => Err(e),
            Ok(p2) => spec_bsms_end(s, p2, count - 1),
        }
    }
}

/// Whether `bs` lists the bootstrap method entries decoded from `pos` up
/// to `end`.
pub open spec fn spec_bsms_prefix(s: Seq<u8>, pos: int, bs: Seq<BootstrapMethod>, end: int) -> bool
    decreases bs.len(),
{
    if bs.len() == 0 {
        end == pos
    } else {
        match spec_bsm_end(s, pos) {
            Err(_) => false,
            Ok(p2) => spec_bsm_val(s, pos, bs[0]) && spec_bsms_prefix(s, p2, bs.drop_first(), end),
        }
    }
}

/// One more entry extends a decoded prefix of bootstrap methods.
proof fn lemma_bsms_prefix_snoc(
    s: Seq<u8>,
    pos: int,
    bs: Seq<BootstrapMethod>,
    e: int,
    bm: BootstrapMethod,
)
    requires
        spec_bsms_prefix(s, pos, bs, e),
        spec_bsm_end(s, e) is Ok,
        spec_bsm_val(s, e, bm),
    ensures
        spec_bsms_prefix(s, pos, bs.push(bm), spec_bsm_end(s, e).unwrap()),
    decreases bs.len(),
{
    let p2 = spec_bsm_end(s, e).unwrap();
    if bs.len() == 0 {
        assert(bs.push(bm)[0] == bm);
        assert(bs.push(bm).drop_first() =~= Seq::<BootstrapMethod>::empty());
        assert(spec_bsms_prefix(s, p2, Seq::<BootstrapMethod>::empty(), p2));
    } else {
        let m = spec_bsm_end(s, pos).unwrap();
        lemma_bsms_prefix_snoc(s, m, bs.drop_first(), e, bm);
        assert(bs.push(bm)[0] == bs[0]);
        assert(bs.push(bm).drop_first() =~= bs.drop_first().push(bm));
    }
}

/// Where a `BootstrapMethods` attribute body at `body` ends, under the
/// declared `length`.
pub open spec fn spec_bsms_attr_end(s: Seq<u8>, body: int, length: u32) -> Result<
    int,
    ClassReaderError,
> {
    if body + 2 > s.len() {
        Err(spec_eof())
    } else {
        match spec_bsms_end(s, body + 2, u16_at(s, body) as int) {
            Err(e) => Err(e),
            Ok(endp) => if endp - body == length {
                Ok(endp)
            } else {
                Err(ClassReaderError::InvalidAttributeSize(length, (endp - body) as u32))
            },
        }
    }
}

/// Whether `a` is the `BootstrapMethods` attribute decoded at `body`.
pub open spec fn spec_bsms_attr_val(s: Seq<u8>, body: int, a: Attribute) -> bool {
    a matches Attribute::BootstrapMethods(b) && spec_bsms_prefix(
        s,
        body + 2,
        b.bootstrap_methods@,
        spec_bsms_end(s, body + 2, u16_at(s, body) as int).unwrap(),
    )
}

/// Reads one bootstrap method entry.
fn read_bootstrap_method(reader: &mut ByteReader<'_>) -> (r: Result<
    BootstrapMethod,
    ClassReaderError,
>)
    requires
        old(reader).wf(),
        old(reader).data().len() <= u32::MAX,
    ensures
        final(reader).wf(),
        final(reader).data() == old(reader).data(),
        old(reader).position() <= final(reader).position(),
        (match r {
            Ok(bm) => spec_bsm_end(old(reader).data(), old(reader).position()) == Ok::<
                int,
                ClassReaderError,
            >(final(reader).position()) && spec_bsm_val(
                old(reader).data(),
                old(reader).position(),
                bm,
            ),
            Err(e) => spec_bsm_end(old(reader).data(), old(reader).position()) == Err::<
                int,
                ClassReaderError,
            >(e),
        }),
{
    let ghost s = old(reader).data();
    let ghost pos0 = old(reader).position();
    let bootstrap_method_ref = ru16(reader)?;
    let num_arguments = ru16(reader)?;
    let mut bootstrap_arguments: Vec<u16> = Vec::new();
    let mut k: u16 = 0;
    while k < num_arguments
        invariant
            0 <= k <= num_arguments,
            reader.wf(),
            s == old(reader).data(),
            pos0 == old(reader).position(),
            reader.data() == s,
            pos0 + 4 <= s.len(),
            num_arguments == u16_at(s, pos0 + 2),
            reader.position() == pos0 + 4 + 2 * k,
            bootstrap_arguments@.len() == k,
            forall|t: int|
                0 <= t < k ==> bootstrap_arguments@[t] == u16_at(s, pos0 + 4 + 2 * t),
        decreases num_arguments - k,
    {
        let arg = ru16(reader)?;
        bootstrap_arguments.push(arg);
        k = k + 1;
    }
    Ok(BootstrapMethod { bootstrap_method_ref, bootstrap_arguments })
}

/// Reads a `BootstrapMethods` attribute body.
fn read_bootstrap_methods_attr(reader: &mut ByteReader<'_>, length: u32) -> (r: Result<
    Attribute,
    ClassReaderError,
>)
    requires
        old(reader).wf(),
        old(reader).data().len() <= u32::MAX,
    ensures
        final(reader).wf(),
        final(reader).data() == old(reader).data(),
        old(reader).position() <= final(reader).position(),
        (match r {
            Ok(a) => spec_bsms_attr_end(old(reader).data(), old(reader).position(), length) == Ok::<
                int,
                ClassReaderError,
            >(final(reader).position()) && spec_bsms_attr_val(
                old(reader).data(),
                old(reader).position(),
                a,
            ),
            Err(e) => spec_bsms_attr_end(old(reader).data(), old(reader).position(), length)
                == Err::<int, ClassReaderError>(e),
        }),
{
    let ghost s = old(reader).data();
    let ghost body = old(reader).position();
    let body_pos = reader.pos();
    let count = ru16(reader)?;
    let mut methods: Vec<BootstrapMethod> = Vec::new();
    let mut k: u16 = 0;
    while k < count
        invariant
            0 <= k <= count,
            reader.wf(),
            s == old(reader).data(),
            body == old(reader).position(),
            reader.data() == s,
            s.len() <= u32::MAX,
            body + 2 <= s.len(),
            count == u16_at(s, body),
            body + 2 <= reader.position(),
            spec_bsms_end(s, body + 2, count as int) == spec_bsms_end(
                s,
                reader.position(),
                count - k,
            ),
            spec_bsms_prefix(s, body + 2, methods@, reader.position()),
        decreases count - k,
    {
        let ghost cur = reader.position();
        match read_bootstrap_method(reader) {
            Err(e) => {
                return Err(e);
            },
            Ok(bm) => {
                proof {
                    lemma_bsms_prefix_snoc(s, body + 2, methods@, cur, bm);
                }
                methods.push(bm);
                k = k + 1;
            },
        }
    }
    let consumed = reader.pos() - body_pos;
    if consumed == length as usize {
        Ok(Attribute::BootstrapMethods(BootstrapMethods::new(methods)))
    } else {
        Err(ClassReaderError::InvalidAttributeSize(length, consumed as u32))
    }
}

/// Where a run of `count` resolved class indices starting at `pos` ends.
pub open spec fn spec_class_indices_end(
    s: Seq<u8>,
    pos: int,
    pool: Seq<Constant>,
    count: int,
) -> Result<int, ClassReaderError>
    decreases count,
{
    if count <= 0 {
        Ok(pos)
    } else if pos + 2 > s.len() {
        Err(spec_eof())
    } else {
        match spec_get_class_name(pool, u16_at(s, pos)) {
            Err(e) => Err(e),
            Ok(_) => spec_class_indices_end(s, pos + 2, pool, count - 1),
        }
    }
}

/// Whether `names` lists the class names the `count` indices at `pos`
/// resolve to.
pub open spec fn spec_class_names_val(
    s: Seq<u8>,
    pos: int,
    pool: Seq<Constant>,
    count: int,
    names: Seq<String>,
) -> bool {
    names.len() == count && forall|k: int|
        0 <= k < count ==> spec_get_class_name(pool, u16_at(s, pos + 2 * k)) == Ok::<
            String,
            ClassReaderError,
        >(names[k])
}

/// Reads `count` class indices and resolves each to its name.
pub(crate) fn read_class_names(reader: &mut ByteReader<'_>, pool: &ConstantPool, count: u16) -> (r: Result<
    Vec<String>,
    ClassReaderError,
>)
    requires
        old(reader).wf(),
    ensures
        final(reader).wf(),
        final(reader).data() == old(reader).data(),
        old(reader).position() <= final(reader).position(),
        (match r {
            Ok(v) => spec_class_indices_end(
                old(reader).data(),
                old(reader).position(),
                pool@,
                count as int,
            ) == Ok::<int, ClassReaderError>(final(reader).position()) && spec_class_names_val(
                old(reader).data(),
                old(reader).position(),
                pool@,
                count as int,
                v@,
            ) && final(reader).position() == old(reader).position() + 2 * count,
            Err(e) => spec_class_indices_end(
                old(reader).data(),
                old(reader).position(),
                pool@,
                count as int,
            ) == Err::<int, ClassReaderError>(e),
        }),
{
    let ghost s = old(reader).data();
    let ghost pos0 = old(reader).position();
    let mut names: Vec<String> = Vec::new();
    let mut k: u16 = 0;
    while k < count
        invariant
            0 <= k <= count,
            reader.wf(),
            s == old(reader).data(),
            pos0 == old(reader).position(),
            reader.data() == s,
            reader.position() == pos0 + 2 * k,
            spec_class_indices_end(s, pos0, pool@, count as int) == spec_class_indices_end(
                s,
                reader.position(),
                pool@,
                count - k,
            ),
            names@.len() == k,
            forall|t: int|
                0 <= t < k ==> spec_get_class_name(pool@, u16_at(s, pos0 + 2 * t)) == Ok::<
                    String,
                    ClassReaderError,
                >(names@[t]),
        decreases count - k,
    {
        let class_index = ru16(reader)?;
        match get_class_name(pool, class_index) {
            Err(e) => {
                return Err(e);
            },
            Ok(name) => {
                names.push(name);
                k = k + 1;
            },
        }
    }
    Ok(names)
}

/// Where a `NestMembers` or `PermittedSubclasses` attribute body at
/// `body` ends, under the declared `length`: both hold a count and that
/// many resolved class indices.
pub open spec fn spec_class_list_attr_end(
    s: Seq<u8>,
    body: int,
    pool: Seq<Constant>,
    length: u32,
) -> Result<int, ClassReaderError> {
    if body + 2 > s.len() {
        Err(spec_eof())
    } else {
        match spec_class_indices_end(s, body + 2, pool, u16_at(s, body) as int) {
            Err(e) => Err(e),
            Ok(endp) => if endp - body == length {
                Ok(endp)
            } else {
                Err(ClassReaderError::InvalidAttributeSize(length, (endp - body) as u32))
            },
        }
    }
}

/// Where a `NestHost` attribute body at `body` ends, under the declared
/// `length`.
pub open spec fn spec_nest_host_attr_end(
    s: Seq<u8>,
    body: int,
    pool: Seq<Constant>,
    length: u32,
) -> Result<int, ClassReaderError> {
    if body + 2 > s.len() {
        Err(spec_eof())
    } else {
        match spec_get_class_name(pool, u16_at(s, body)) {
            Err(e) => Err(e),
            Ok(_) => if length == 2 {
                Ok(body + 2)
            } else {
                Err(ClassReaderError::InvalidAttributeSize(length, 2))
            },
        }
    }
}

/// Where a `SourceFile` attribute body at `body` ends, under the
/// declared `length`.
pub open spec fn spec_source_file_attr_end(
    s: Seq<u8>,
    body: int,
    pool: Seq<Constant>,
    length: u32,
) -> Result<int, ClassReaderError> {
    if length != 2 {
        Err(ClassReaderError::InvalidAttributeSize(length, 2))
    } else if body + 2 > s.len() {
        Err(spec_eof())
    } else {
        match spec_get_utf8(pool, u16_at(s, body)) {
            Err(e) => Err(e),
            Ok(_) => Ok(body + 2),
        }
    }
}

/// Where a user-defined attribute body at `body` ends: after its
/// `length` raw bytes.
pub open spec fn spec_user_defined_attr_end(s: Seq<u8>, body: int, length: u32) -> Result<
    int,
    ClassReaderError,
> {
    if body + length > s.len() {
        Err(spec_eof())
    } else {
        Ok(body + length)
    }
}

/// A decoded verification type ends after its start, inside the bytes.
proof fn lemma_vti_end_advances(s: Seq<u8>, pos: int, pool: Seq<Constant>)
    requires
        0 <= pos,
        spec_vti_end(s, pos, pool) is Ok,
    ensures
        pos < spec_vti_end(s, pos, pool).unwrap() <= s.len(),
{
}

/// A decoded run of verification types ends at or after its start,
/// inside the bytes.
proof fn lemma_vtis_end_advances(s: Seq<u8>, pos: int, pool: Seq<Constant>, count: int)
    requires
        0 <= pos <= s.len(),
        spec_vtis_end(s, pos, pool, count) is Ok,
    ensures
        pos <= spec_vtis_end(s, pos, pool, count).unwrap() <= s.len(),
    decreases count,
{
    if count > 0 {
        lemma_vti_end_advances(s, pos, pool);
        lemma_vtis_end_advances(s, spec_vti_end(s, pos, pool).unwrap(), pool, count - 1);
    }
}

/// A decoded stack map frame ends after its start, inside the bytes.
proof fn lemma_frame_end_advances(s: Seq<u8>, pos: int, pool: Seq<Constant>)
    requires
        0 <= pos,
        spec_frame_end(s, pos, pool) is Ok,
    ensures
        pos < spec_frame_end(s, pos, pool).unwrap() <= s.len(),
{
    let ft = s[pos];
    if 64 <= ft && ft <= 127 {
        lemma_vti_end_advances(s, pos + 1, pool);
    } else if ft == 247 {
        lemma_vti_end_advances(s, pos + 3, pool);
    } else if 252 <= ft && ft <= 254 {
        lemma_vtis_end_advances(s, pos + 3, pool, ft - 251);
    } else if ft == 255 {
        lemma_vtis_end_advances(s, pos + 5, pool, u16_at(s, pos + 3) as int);
        let p2 = spec_vtis_end(s, pos + 5, pool, u16_at(s, pos + 3) as int).unwrap();
        lemma_vtis_end_advances(s, p2 + 2, pool, u16_at(s, p2) as int);
    }
}

/// A decoded run of stack map frames ends at or after its start, inside
/// the bytes.
proof fn lemma_frames_end_advances(s: Seq<u8>, pos: int, pool: Seq<Constant>, count: int)
    requires
        0 <= pos <= s.len(),
        spec_frames_end(s, pos, pool, count) is Ok,
    ensures
        pos <= spec_frames_end(s, pos, pool, count).unwrap() <= s.len(),
    decreases count,
{
    if count > 0 {
        lemma_frame_end_advances(s, pos, pool);
        lemma_frames_end_advances(s, spec_frame_end(s, pos, pool).unwrap(), pool, count - 1);
    }
}

/// A decoded run of bootstrap method entries ends at or after its start,
/// inside the bytes.
proof fn lemma_bsms_end_advances(s: Seq<u8>, pos: int, count: int)
    requires
        0 <= pos <= s.len(),
        spec_bsms_end(s, pos, count) is Ok,
    ensures
        pos <= spec_bsms_end(s, pos, count).unwrap() <= s.len(),
    decreases count,
{
    if count > 0 {
        lemma_bsms_end_advances(s, spec_bsm_end(s, pos).unwrap(), count - 1);
    }
}

/// A decoded run of class indices ends at or after its start, inside the
/// bytes.
proof fn lemma_class_indices_end_advances(s: Seq<u8>, pos: int, pool: Seq<Constant>, count: int)
    requires
        0 <= pos <= s.len(),
        spec_class_indices_end(s, pos, pool, count) is Ok,
    ensures
        pos <= spec_class_indices_end(s, pos, pool, count).unwrap() <= s.len(),
    decreases count,
{
    if count > 0 && pos + 2 <= s.len() {
        lemma_class_indices_end_advances(s, pos + 2, pool, count - 1);
    }
}

/// Where the whole attribute at `pos` — header and dispatched body —
/// ends, or the error it raises. The context `ctx` carries the field
/// descriptor when the attribute belongs to a field; only then is a
/// `ConstantValue` name given meaning.
pub open spec fn spec_attr_end(
    s: Seq<u8>,
    pos: int,
    pool: Seq<Constant>,
    ctx: Option<Seq<char>>,
) -> Result<int, ClassReaderError>
    decreases s.len() - pos, 0int,
{
    if pos + 2 > s.len() {
        Err(spec_eof())
    } else {
        match spec_get_utf8(pool, u16_at(s, pos)) {
            Err(e) => Err(e),
            Ok(name) => if pos + 6 > s.len() {
                Err(spec_eof())
            } else {
                let length = u32_at(s, pos + 2);
                let body = pos + 6;
                if name@ == "ConstantValue"@ && ctx is Some {
                    spec_cv_attr_end(s, body, pool, ctx.unwrap(), length)
                } else if name@ == "Code"@ {
                    spec_code_attr_end(s, body, pool, length)
                } else if name@ == "StackMapTable"@ {
                    spec_smt_attr_end(s, body, pool, length)
                } else if name@ == "LineNumberTable"@ {
                    spec_lnt_attr_end(s, body, length)
                } else if name@ == "LocalVariableTable"@ || name@ == "LocalVariableTypeTable"@ {
                    spec_lvt_attr_end(s, body, length)
                } else if name@ == "BootstrapMethods"@ {
                    spec_bsms_attr_end(s, body, length)
                } else if name@ == "NestHost"@ {
                    spec_nest_host_attr_end(s, body, pool, length)
                } else if name@ == "NestMembers"@ || name@ == "PermittedSubclasses"@ {
                    spec_class_list_attr_end(s, body, pool, length)
                } else if name@ == "SourceFile"@ {
                    spec_source_file_attr_end(s, body, pool, length)
                } else {
                    spec_user_defined_attr_end(s, body, length)
                }
            },
        }
    }
}

/// Where a `Code` attribute body at `body` ends, under the declared
/// `length`: the fixed header, a bytecode array that must decode
/// completely, the exception table, and the nested attributes.
pub open spec fn spec_code_attr_end(s: Seq<u8>, body: int, pool: Seq<Constant>, length: u32) -> Result<
    int,
    ClassReaderError,
>
    decreases s.len() - body, 0int,
{
    if body + 8 > s.len() {
        Err(spec_eof())
    } else {
        let clen = u32_at(s, body + 4) as int;
        let cstart = body + 8;
        if cstart + clen > s.len() {
            Err(spec_eof())
        } else {
            match spec_code_err(s.subrange(cstart, cstart + clen), 0) {
                Some(e) => Err(e),
                None => {
                    let e0 = cstart + clen;
                    if e0 + 2 > s.len() {
                        Err(spec_eof())
                    } else {
                        let e1 = e0 + 2 + 8 * (u16_at(s, e0) as int);
                        if e1 + 2 > s.len() {
                            Err(spec_eof())
                        } else {
                            match spec_attrs_end(s, e1 + 2, pool, None, u16_at(s, e1) as int) {
                                Err(e) => Err(e),
                                Ok(endp) => if endp - body == length {
                                    Ok(endp)
                                } else {
                                    Err(
                                        ClassReaderError::InvalidAttributeSize(
                                            length,
                                            (endp - body) as u32,
                                        ),
                                    )
                                },
                            }
                        }
                    }
                },
            }
        }
    }
}

/// Where a run of `count` attributes starting at `pos` ends, or the
/// first error one of them raises.
pub open spec fn spec_attrs_end(
    s: Seq<u8>,
    pos: int,
    pool: Seq<Constant>,
    ctx: Option<Seq<char>>,
    count: int,
) -> Result<int, ClassReaderError>
    decreases s.len() - pos, 1 + count,
{
    if count <= 0 {
        Ok(pos)
    } else {
        match spec_attr_end(s, pos, pool, ctx) {
            Err(e) => Err(e),
            Ok(p2) => if pos < p2 <= s.len() {
                spec_attrs_end(s, p2, pool, ctx, count - 1)
            } else {
                Err(spec_eof())
            },
        }
    }
}

/// Whether `a` is the attribute decoded at `pos`, under context `ctx`.
pub open spec fn spec_attr_val(
    s: Seq<u8>,
    pos: int,
    pool: Seq<Constant>,
    ctx: Option<Seq<char>>,
    a: Attribute,
) -> bool
    decreases s.len() - pos, 0int,
{
    if pos + 2 > s.len() {
        false
    } else {
        match spec_get_utf8(pool, u16_at(s, pos)) {
            Err(_) => false,
            Ok(name) => if pos + 6 > s.len() {
                false
            } else {
                let length = u32_at(s, pos + 2);
                let body = pos + 6;
                if name@ == "ConstantValue"@ && ctx is Some {
                    spec_cv_attr_val(s, body, pool, a)
                } else if name@ == "Code"@ {
                    spec_code_attr_val(s, body, pool, a)
                } else if name@ == "StackMapTable"@ {
                    spec_smt_attr_val(s, body, pool, a)
                } else if name@ == "LineNumberTable"@ {
                    spec_lnt_attr_val(s, body, a)
                } else if name@ == "LocalVariableTable"@ {
                    spec_lvt_attr_val(s, body, a)
                } else if name@ == "LocalVariableTypeTable"@ {
                    spec_lvtt_attr_val(s, body, a)
                } else if name@ == "BootstrapMethods"@ {
                    spec_bsms_attr_val(s, body, a)
                } else if name@ == "NestHost"@ {
                    a == Attribute::NestHost(
                        NestHost { name: spec_get_class_name(pool, u16_at(s, body)).unwrap() },
                    )
                } else if name@ == "NestMembers"@ {
                    a matches Attribute::NestMembers(n) && spec_class_names_val(
                        s,
                        body + 2,
                        pool,
                        u16_at(s, body) as int,
                        n.names@,
                    )
                } else if name@ == "PermittedSubclasses"@ {
                    a matches Attribute::PermittedSubclasses(p) && spec_class_names_val(
                        s,
                        body + 2,
                        pool,
                        u16_at(s, body) as int,
                        p.names@,
                    )
                } else if name@ == "SourceFile"@ {
                    a == Attribute::SourceFile(
                        SourceFile { file_name: spec_get_utf8(pool, u16_at(s, body)).unwrap() },
                    )
                } else {
                    a matches Attribute::UserDefined(u) && u.name == name && u.info@ == s.subrange(
                        body,
                        body + length as int,
                    )
                }
            },
        }
    }
}

/// Whether `a` is the `Code` attribute decoded at `body`.
pub open spec fn spec_code_attr_val(s: Seq<u8>, body: int, pool: Seq<Constant>, a: Attribute) -> bool
    decreases s.len() - body, 0int,
{
    if body + 8 > s.len() {
        false
    } else {
        let clen = u32_at(s, body + 4) as int;
        let cstart = body + 8;
        if cstart + clen > s.len() {
            false
        } else {
            let e0 = cstart + clen;
            if e0 + 2 > s.len() {
                false
            } else {
                let exc_count = u16_at(s, e0) as int;
                let e1 = e0 + 2 + 8 * exc_count;
                if e1 + 2 > s.len() {
                    false
                } else {
                    a matches Attribute::Code(c) && c.max_stack == u16_at(s, body) && c.max_locals
                        == u16_at(s, body + 2) && spec_code_matches(
                        s.subrange(cstart, cstart + clen),
                        c.code@,
                    ) && c.exception_table@.len() == exc_count && (forall|k: int|
                        0 <= k < exc_count ==> c.exception_table@[k] == (ExceptionHandler {
                            start_pc: u16_at(s, e0 + 2 + 8 * k),
                            end_pc: u16_at(s, e0 + 4 + 8 * k),
                            handler_pc: u16_at(s, e0 + 6 + 8 * k),
                            catch_type: u16_at(s, e0 + 8 + 8 * k),
                        })) && spec_attrs_prefix(
                        s,
                        e1 + 2,
                        pool,
                        None,
                        c.attributes@,
                        spec_attrs_end(s, e1 + 2, pool, None, u16_at(s, e1) as int).unwrap(),
                    )
                }
            }
        }
    }
}

/// Whether `attrs` lists the attributes decoded from `pos` up to `end`.
pub open spec fn spec_attrs_prefix(
    s: Seq<u8>,
    pos: int,
    pool: Seq<Constant>,
    ctx: Option<Seq<char>>,
    attrs: Seq<Attribute>,
    end: int,
) -> bool
    decreases s.len() - pos, 1 + attrs.len(),
{
    if attrs.len() == 0 {
        end == pos
    } else {
        match spec_attr_end(s, pos, pool, ctx) {
            Err(_) => false,
            Ok(p2) => if pos < p2 <= s.len() {
                spec_attr_val(s, pos, pool, ctx, attrs[0]) && spec_attrs_prefix(
                    s,
                    p2,
                    pool,
                    ctx,
                    attrs.drop_first(),
                    end,
                )
            } else {
                false
            },
        }
    }
}

/// A decoded attribute ends after its start, inside the bytes.
#[verifier::rlimit(60)]
#[verifier::spinoff_prover]
proof fn lemma_attr_end_advances(s: Seq<u8>, pos: int, pool: Seq<Constant>, ctx: Option<Seq<char>>)
    requires
        0 <= pos,
        spec_attr_end(s, pos, pool, ctx) is Ok,
    ensures
        pos < spec_attr_end(s, pos, pool, ctx).unwrap() <= s.len(),
    decreases s.len() - pos, 0int,
{
    let name = spec_get_utf8(pool, u16_at(s, pos)).unwrap();
    let length = u32_at(s, pos + 2);
    let body = pos + 6;
    if name@ == "ConstantValue"@ && ctx is Some {
    } else if name@ == "Code"@ {
        assert(spec_attr_end(s, pos, pool, ctx) == spec_code_attr_end(s, body, pool, length));
        let clen = u32_at(s, body + 4) as int;
        let e0 = body + 8 + clen;
        let e1 = e0 + 2 + 8 * (u16_at(s, e0) as int);
        assert(spec_attrs_end(s, e1 + 2, pool, None, u16_at(s, e1) as int) is Ok);
        lemma_attrs_end_advances(s, e1 + 2, pool, None, u16_at(s, e1) as int);
    } else if name@ == "StackMapTable"@ {
        assert(spec_attr_end(s, pos, pool, ctx) == spec_smt_attr_end(s, body, pool, length));
        assert(spec_frames_end(s, body + 2, pool, u16_at(s, body) as int) is Ok);
        lemma_frames_end_advances(s, body + 2, pool, u16_at(s, body) as int);
    } else if name@ == "LineNumberTable"@ {
    } else if name@ == "LocalVariableTable"@ || name@ == "LocalVariableTypeTable"@ {
    } else if name@ == "BootstrapMethods"@ {
        assert(spec_attr_end(s, pos, pool, ctx) == spec_bsms_attr_end(s, body, length));
        assert(spec_bsms_end(s, body + 2, u16_at(s, body) as int) is Ok);
        lemma_bsms_end_advances(s, body + 2, u16_at(s, body) as int);
    } else if name@ == "NestHost"@ {
    } else if name@ == "NestMembers"@ || name@ == "PermittedSubclasses"@ {
        assert(spec_attr_end(s, pos, pool, ctx) == spec_class_list_attr_end(s, body, pool, length));
        assert(spec_class_indices_end(s, body + 2, pool, u16_at(s, body) as int) is Ok);
        lemma_class_indices_end_advances(s, body + 2, pool, u16_at(s, body) as int);
    }
}

/// A decoded run of attributes ends at or after its start, inside the
/// bytes.
proof fn lemma_attrs_end_advances(
    s: Seq<u8>,
    pos: int,
    pool: Seq<Constant>,
    ctx: Option<Seq<char>>,
    count: int,
)
    requires
        0 <= pos <= s.len(),
        spec_attrs_end(s, pos, pool, ctx, count) is Ok,
    ensures
        pos <= spec_attrs_end(s, pos, pool, ctx, count).unwrap() <= s.len(),
    decreases s.len() - pos, 1 + count,
{
    if count > 0 {
        lemma_attr_end_advances(s, pos, pool, ctx);
        let p2 = spec_attr_end(s, pos, pool, ctx).unwrap();
        if pos < p2 <= s.len() {
            lemma_attrs_end_advances(s, p2, pool, ctx, count - 1);
        }
    }
}

/// One more attribute extends a decoded prefix.
proof fn lemma_attrs_prefix_snoc(
    s: Seq<u8>,
    pos: int,
    pool: Seq<Constant>,
    ctx: Option<Seq<char>>,
    attrs: Seq<Attribute>,
    e: int,
    a: Attribute,
)
    requires
        spec_attrs_prefix(s, pos, pool, ctx, attrs, e),
        0 <= e,
        spec_attr_end(s, e, pool, ctx) is Ok,
        e < spec_attr_end(s, e, pool, ctx).unwrap() <= s.len(),
        spec_attr_val(s, e, pool, ctx, a),
    ensures
        spec_attrs_prefix(s, pos, pool, ctx, attrs.push(a), spec_attr_end(s, e, pool, ctx).unwrap()),
    decreases attrs.len(),
{
    let p2 = spec_attr_end(s, e, pool, ctx).unwrap();
    if attrs.len() == 0 {
        assert(attrs.push(a)[0] == a);
        assert(attrs.push(a).drop_first() =~= Seq::<Attribute>::empty());
        assert(spec_attrs_prefix(s, p2, pool, ctx, Seq::<Attribute>::empty(), p2));
    } else {
        let m = spec_attr_end(s, pos, pool, ctx).unwrap();
        lemma_attrs_prefix_snoc(s, m, pool, ctx, attrs.drop_first(), e, a);
        assert(attrs.push(a)[0] == attrs[0]);
        assert(attrs.push(a).drop_first() =~= attrs.drop_first().push(a));
    }
}

/// Reads a `Code` attribute body: the limits, the bytecode, the
/// exception table and the nested attributes, which must together
/// consume exactly the declared `length`.
fn read_code_attr(reader: &mut ByteReader<'_>, pool: &ConstantPool, length: u32) -> (r: Result<
    Attribute,
    ClassReaderError,
>)
    requires
        old(reader).wf(),
        old(reader).data().len() <= u32::MAX,
    ensures
        final(reader).wf(),
        final(reader).data() == old(reader).data(),
        old(reader).position() <= final(reader).position(),
        (match r {
            Ok(a) => spec_code_attr_end(old(reader).data(), old(reader).position(), pool@, length)
                == Ok::<int, ClassReaderError>(final(reader).position()) && spec_code_attr_val(
                old(reader).data(),
                old(reader).position(),
                pool@,
                a,
            ),
            Err(e) => spec_code_attr_end(old(reader).data(), old(reader).position(), pool@, length)
                == Err::<int, ClassReaderError>(e),
        }),
    decreases old(reader).data().len() - old(reader).position(), 0int,
{
    let ghost s = old(reader).data();
    let ghost body = old(reader).position();
    let body_pos = reader.pos();
    let max_stack = ru16(reader)?;
    let max_locals = ru16(reader)?;
    let code_length = ru32(reader)?;
    let code_bytes = match reader.read_bytes(code_length as usize) {
        Ok(b) => b,
        Err(e) => {
            return Err(ClassReaderError::ReadError(e));
        },
    };
    let code = match decode_code(code_bytes) {
        Ok(v) => v,
        Err(e) => {
            return Err(e);
        },
    };
    let ghost e0 = reader.position();
    let exception_table_length = ru16(reader)?;
    let mut exception_table: Vec<ExceptionHandler> = Vec::new();
    let mut k: u16 = 0;
    while k < exception_table_length
        invariant
            0 <= k <= exception_table_length,
            reader.wf(),
            s == old(reader).data(),
            body == old(reader).position(),
            reader.data() == s,
            0 <= body,
            body + 8 <= s.len(),
            e0 == body + 8 + u32_at(s, body + 4),
            spec_code_err(s.subrange(body + 8, e0), 0) is None,
            e0 + 2 <= s.len(),
            exception_table_length == u16_at(s, e0),
            reader.position() == e0 + 2 + 8 * k,
            exception_table@.len() == k,
            forall|t: int|
                0 <= t < k ==> exception_table@[t] == (ExceptionHandler {
                    start_pc: u16_at(s, e0 + 2 + 8 * t),
                    end_pc: u16_at(s, e0 + 4 + 8 * t),
                    handler_pc: u16_at(s, e0 + 6 + 8 * t),
                    catch_type: u16_at(s, e0 + 8 + 8 * t),
                }),
        decreases exception_table_length - k,
    {
        let start_pc = ru16(reader)?;
        let end_pc = ru16(reader)?;
        let handler_pc = ru16(reader)?;
        let catch_type = ru16(reader)?;
        exception_table.push(ExceptionHandler::new(start_pc, end_pc, handler_pc, catch_type));
        k = k + 1;
    }
    let attributes_count = ru16(reader)?;
    let attributes = match read_attributes(reader, pool, None, Ghost(None), attributes_count) {
        Ok(v) => v,
        Err(e) => {
            return Err(e);
        },
    };
    let consumed = reader.pos() - body_pos;
    if consumed == length as usize {
        Ok(
            Attribute::Code(
                Code { max_stack, max_locals, code, exception_table, attributes },
            ),
        )
    } else {
        Err(ClassReaderError::InvalidAttributeSize(length, consumed as u32))
    }
}

/// Reads one attribute: the name index and declared length, then the
/// body the resolved name selects. `field_type` carries the enclosing
/// field's parsed type where the attribute belongs to a field, and
/// `ctx` its descriptor.
pub(crate) fn read_attribute(
    reader: &mut ByteReader<'_>,
    pool: &ConstantPool,
    field_type: Option<&FieldType>,
    Ghost(ctx): Ghost<Option<Seq<char>>>,
) -> (r: Result<Attribute, ClassReaderError>)
    requires
        old(reader).wf(),
        old(reader).data().len() <= u32::MAX,
        ctx is Some <==> field_type is Some,
        (field_type matches Some(t) ==> spec_field_desc_val(ctx.unwrap(), 0, *t)),
    ensures
        final(reader).wf(),
        final(reader).data() == old(reader).data(),
        old(reader).position() <= final(reader).position(),
        (match r {
            Ok(a) => spec_attr_end(old(reader).data(), old(reader).position(), pool@, ctx) == Ok::<
                int,
                ClassReaderError,
            >(final(reader).position()) && spec_attr_val(
                old(reader).data(),
                old(reader).position(),
                pool@,
                ctx,
                a,
            ),
            Err(e) => spec_attr_end(old(reader).data(), old(reader).position(), pool@, ctx) == Err::<
                int,
                ClassReaderError,
            >(e),
        }),
    decreases old(reader).data().len() - old(reader).position(), 0int,
{
    let name_index = ru16(reader)?;
    let name = match get_utf8(pool, name_index) {
        Ok(n) => n,
        Err(e) => {
            return Err(e);
        },
    };
    let length = ru32(reader)?;
    if name == String::from_str("ConstantValue") && field_type.is_some() {
        read_constant_value_attr(reader, pool, field_type.unwrap(), Ghost(ctx.unwrap()), length)
    } else if name == String::from_str("Code") {
        read_code_attr(reader, pool, length)
    } else if name == String::from_str("StackMapTable") {
        read_stack_map_table_attr(reader, pool, length)
    } else if name == String::from_str("LineNumberTable") {
        read_line_number_table_attr(reader, length)
    } else if name == String::from_str("LocalVariableTable") {
        read_local_variable_table_attr(reader, length)
    } else if name == String::from_str("LocalVariableTypeTable") {
        read_local_variable_type_table_attr(reader, length)
    } else if name == String::from_str("BootstrapMethods") {
        read_bootstrap_methods_attr(reader, length)
    } else if name == String::from_str("NestHost") {
        let host_class_index = ru16(reader)?;
        match get_class_name(pool, host_class_index) {
            Err(e) => Err(e),
            Ok(host) => {
                if length == 2 {
                    Ok(Attribute::NestHost(NestHost { name: host }))
                } else {
                    Err(ClassReaderError::InvalidAttributeSize(length, 2))
                }
            },
        }
    } else if name == String::from_str("NestMembers") {
        let body_pos = reader.pos();
        let count = ru16(reader)?;
        let names = match read_class_names(reader, pool, count) {
            Ok(v) => v,
            Err(e) => {
                return Err(e);
            },
        };
        let consumed = reader.pos() - body_pos;
        if consumed == length as usize {
            Ok(Attribute::NestMembers(NestMembers { names }))
        } else {
            Err(ClassReaderError::InvalidAttributeSize(length, consumed as u32))
        }
    } else if name == String::from_str("PermittedSubclasses") {
        let body_pos = reader.pos();
        let count = ru16(reader)?;
        let names = match read_class_names(reader, pool, count) {
            Ok(v) => v,
            Err(e) => {
                return Err(e);
            },
        };
        let consumed = reader.pos() - body_pos;
        if consumed == length as usize {
            Ok(Attribute::PermittedSubclasses(PetrmittedSubclasses { names }))
        } else {
            Err(ClassReaderError::InvalidAttributeSize(length, consumed as u32))
        }
    } else if name == String::from_str("SourceFile") {
        if length != 2 {
            return Err(ClassReaderError::InvalidAttributeSize(length, 2));
        }
        let sourcefile_index = ru16(reader)?;
        match get_utf8(pool, sourcefile_index) {
            Err(e) => Err(e),
            Ok(file_name) => Ok(Attribute::SourceFile(SourceFile { file_name })),
        }
    } else {
        let info = match reader.read_bytes(length as usize) {
            Ok(b) => b,
            Err(e) => {
                return Err(ClassReaderError::ReadError(e));
            },
        };
        Ok(Attribute::UserDefined(UserDefinedAttribute::new(name, info)))
    }
}

/// Reads `count` attributes in order.
pub(crate) fn read_attributes(
    reader: &mut ByteReader<'_>,
    pool: &ConstantPool,
    field_type: Option<&FieldType>,
    Ghost(ctx): Ghost<Option<Seq<char>>>,
    count: u16,
) -> (r: Result<Vec<Attribute>, ClassReaderError>)
    requires
        old(reader).wf(),
        old(reader).data().len() <= u32::MAX,
        ctx is Some <==> field_type is Some,
        (field_type matches Some(t) ==> spec_field_desc_val(ctx.unwrap(), 0, *t)),
    ensures
        final(reader).wf(),
        final(reader).data() == old(reader).data(),
        old(reader).position() <= final(reader).position(),
        (match r {
            Ok(v) => spec_attrs_end(
                old(reader).data(),
                old(reader).position(),
                pool@,
                ctx,
                count as int,
            ) == Ok::<int, ClassReaderError>(final(reader).position()) && spec_attrs_prefix(
                old(reader).data(),
                old(reader).position(),
                pool@,
                ctx,
                v@,
                final(reader).position(),
            ),
            Err(e) => spec_attrs_end(
                old(reader).data(),
                old(reader).position(),
                pool@,
                ctx,
                count as int,
            ) == Err::<int, ClassReaderError>(e),
        }),
    decreases old(reader).data().len() - old(reader).position(), 1int,
{
    let ghost s = old(reader).data();
    let ghost pos0 = old(reader).position();
    let mut attributes: Vec<Attribute> = Vec::new();
    let mut k: u16 = 0;
    while k < count
        invariant
            0 <= k <= count,
            reader.wf(),
            s == old(reader).data(),
            pos0 == old(reader).position(),
            reader.data() == s,
            s.len() <= u32::MAX,
            pos0 <= reader.position(),
            ctx is Some <==> field_type is Some,
            (field_type matches Some(t) ==> spec_field_desc_val(ctx.unwrap(), 0, *t)),
            spec_attrs_end(s, pos0, pool@, ctx, count as int) == spec_attrs_end(
                s,
                reader.position(),
                pool@,
                ctx,
                count - k,
            ),
            spec_attrs_prefix(s, pos0, pool@, ctx, attributes@, reader.position()),
        decreases count - k,
    {
        let ghost cur = reader.position();
        match read_attribute(reader, pool, field_type, Ghost(ctx)) {
            Err(e) => {
                return Err(e);
            },
            Ok(a) => {
                proof {
                    lemma_attr_end_advances(s, cur, pool@, ctx);
                    lemma_attrs_prefix_snoc(s, pos0, pool@, ctx, attributes@, cur, a);
                }
                attributes.push(a);
                k = k + 1;
            },
        }
    }
    Ok(attributes)
}

} // verus!
