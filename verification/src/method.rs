//! Methods: their access flags and the JVM method descriptor grammar. A
//! method descriptor is `(` followed by the parameter field descriptors,
//! `)`, and either `V` or the return field descriptor.

use vstd::prelude::*;
use vstd::string::StrSliceExecFns;

use crate::attribute::Attribute;
use crate::field::{
    spec_field_desc_end, spec_field_desc_val, lemma_field_desc_end_advances, FieldError, FieldType,
};

verus! {

/// How parsing a method descriptor can fail.
#[derive(Debug, Clone, Copy, PartialEq, Eq, Structural)]
pub enum MethodParsingError {
    /// The descriptor does not begin with `(`.
    NoOpeningBracket,
    /// The parameter list is not closed by `)`.
    NoClosingBracket,
    /// A parameter or the return type is not a field descriptor.
    FieldError(FieldError),
}

/// A modifier of a method.
#[derive(Debug, Clone, Copy, PartialEq, Eq, Structural)]
pub enum MethodFlag {
    Public,
    Private,
    Protected,
    Static,
    Final,
    Synchronized,
    Bridge,
    Varargs,
    Native,
    Abstract,
    Strict,
    Synthetic,
}

/// The mask bit a method flag stands for.
pub open spec fn spec_method_flag_bit(f: MethodFlag) -> u16 {
    match f {
        MethodFlag::Public => 0x0001,
        MethodFlag::Private => 0x0002,
        MethodFlag::Protected => 0x0004,
        MethodFlag::Static => 0x0008,
        MethodFlag::Final => 0x0010,
        MethodFlag::Synchronized => 0x0020,
        MethodFlag::Bridge => 0x0040,
        MethodFlag::Varargs => 0x0080,
        MethodFlag::Native => 0x0100,
        MethodFlag::Abstract => 0x0400,
        MethodFlag::Strict => 0x0800,
        MethodFlag::Synthetic => 0x1000,
    }
}

/// `s` with `f` appended when bit `bit` of `mask` is set.
pub open spec fn spec_method_push_if_set(
    s: Seq<MethodFlag>,
    mask: u16,
    bit: u16,
    f: MethodFlag,
) -> Seq<MethodFlag> {
    if mask & bit != 0 {
        s.push(f)
    } else {
        s
    }
}

/// The method flags of `mask`, in ascending bit order.
pub open spec fn spec_method_flags(mask: u16) -> Seq<MethodFlag> {
    let s = Seq::empty();
    let s = spec_method_push_if_set(s, mask, 0x0001, MethodFlag::Public);
    let s = spec_method_push_if_set(s, mask, 0x0002, MethodFlag::Private);
    let s = spec_method_push_if_set(s, mask, 0x0004, MethodFlag::Protected);
    let s = spec_method_push_if_set(s, mask, 0x0008, MethodFlag::Static);
    let s = spec_method_push_if_set(s, mask, 0x0010, MethodFlag::Final);
    let s = spec_method_push_if_set(s, mask, 0x0020, MethodFlag::Synchronized);
    let s = spec_method_push_if_set(s, mask, 0x0040, MethodFlag::Bridge);
    let s = spec_method_push_if_set(s, mask, 0x0080, MethodFlag::Varargs);
    let s = spec_method_push_if_set(s, mask, 0x0100, MethodFlag::Native);
    let s = spec_method_push_if_set(s, mask, 0x0400, MethodFlag::Abstract);
    let s = spec_method_push_if_set(s, mask, 0x0800, MethodFlag::Strict);
    spec_method_push_if_set(s, mask, 0x1000, MethodFlag::Synthetic)
}

/// The method flags a mask decodes to.
#[derive(Debug, Clone, PartialEq, Eq)]
pub struct MethodAccessFlags {
    flags: Vec<MethodFlag>,
}

impl MethodAccessFlags {
    /// The decoded flags, in ascending bit order.
    pub closed spec fn view(&self) -> Seq<MethodFlag> {
        self.flags@
    }

    pub fn new(mask: u16) -> (r: Self)
        ensures
            r@ == spec_method_flags(mask),
    {
        let mut flags: Vec<MethodFlag> = Vec::new();
        if mask & 0x0001 != 0 {
            flags.push(MethodFlag::Public);
        }
        if mask & 0x0002 != 0 {
            flags.push(MethodFlag::Private);
        }
        if mask & 0x0004 != 0 {
            flags.push(MethodFlag::Protected);
        }
        if mask & 0x0008 != 0 {
            flags.push(MethodFlag::Static);
        }
        if mask & 0x0010 != 0 {
            flags.push(MethodFlag::Final);
        }
        if mask & 0x0020 != 0 {
            flags.push(MethodFlag::Synchronized);
        }
        if mask & 0x0040 != 0 {
            flags.push(MethodFlag::Bridge);
        }
        if mask & 0x0080 != 0 {
            flags.push(MethodFlag::Varargs);
        }
        if mask & 0x0100 != 0 {
            flags.push(MethodFlag::Native);
        }
        if mask & 0x0400 != 0 {
            flags.push(MethodFlag::Abstract);
        }
        if mask & 0x0800 != 0 {
            flags.push(MethodFlag::Strict);
        }
        if mask & 0x1000 != 0 {
            flags.push(MethodFlag::Synthetic);
        }
        MethodAccessFlags { flags }
    }

    /// The decoded flags, for callers that inspect them.
    pub fn flags(&self) -> (r: &Vec<MethodFlag>)
        ensures
            r@ == self@,
    {
        &self.flags
    }
}

/// The bitwise OR of the bits of the method flags in `s`.
pub open spec fn spec_method_mask_of(s: Seq<MethodFlag>) -> u16
    decreases s.len(),
{
    if s.len() == 0 {
        0u16
    } else {
        spec_method_mask_of(s.drop_last()) | spec_method_flag_bit(s.last())
    }
}

/// Appending one conditional flag ORs its masked bit into the encoding.
proof fn lemma_method_mask_of_push_if_set(s: Seq<MethodFlag>, mask: u16, bit: u16, f: MethodFlag)
    requires
        bit == spec_method_flag_bit(f),
    ensures
        spec_method_mask_of(spec_method_push_if_set(s, mask, bit, f)) == spec_method_mask_of(s) | (
        mask & bit),
{
    let m = spec_method_mask_of(s);
    if mask & bit != 0 {
        assert(s.push(f).drop_last() =~= s);
        assert(s.push(f).last() == f);
        assert(mask & bit != 0 && (bit == 0x0001 || bit == 0x0002 || bit == 0x0004 || bit == 0x0008
            || bit == 0x0010 || bit == 0x0020 || bit == 0x0040 || bit == 0x0080 || bit == 0x0100
            || bit == 0x0400 || bit == 0x0800 || bit == 0x1000) ==> mask & bit == bit)
            by (bit_vector);
    } else {
        assert(mask & bit == 0 ==> (m | (mask & bit)) == m) by (bit_vector);
    }
}

/// Bit-set round trip: decoding mask `m` and re-encoding the decoded
/// flags gives back `m` restricted to the bits the method decoder knows.
pub proof fn lemma_method_flags_round_trip(mask: u16)
    ensures
        spec_method_mask_of(spec_method_flags(mask)) == mask & 0x1dff,
{
    let s0 = Seq::empty();
    let s1 = spec_method_push_if_set(s0, mask, 0x0001, MethodFlag::Public);
    let s2 = spec_method_push_if_set(s1, mask, 0x0002, MethodFlag::Private);
    let s3 = spec_method_push_if_set(s2, mask, 0x0004, MethodFlag::Protected);
    let s4 = spec_method_push_if_set(s3, mask, 0x0008, MethodFlag::Static);
    let s5 = spec_method_push_if_set(s4, mask, 0x0010, MethodFlag::Final);
    let s6 = spec_method_push_if_set(s5, mask, 0x0020, MethodFlag::Synchronized);
    let s7 = spec_method_push_if_set(s6, mask, 0x0040, MethodFlag::Bridge);
    let s8 = spec_method_push_if_set(s7, mask, 0x0080, MethodFlag::Varargs);
    let s9 = spec_method_push_if_set(s8, mask, 0x0100, MethodFlag::Native);
    let s10 = spec_method_push_if_set(s9, mask, 0x0400, MethodFlag::Abstract);
    let s11 = spec_method_push_if_set(s10, mask, 0x0800, MethodFlag::Strict);
    lemma_method_mask_of_push_if_set(s0, mask, 0x0001, MethodFlag::Public);
    lemma_method_mask_of_push_if_set(s1, mask, 0x0002, MethodFlag::Private);
    lemma_method_mask_of_push_if_set(s2, mask, 0x0004, MethodFlag::Protected);
    lemma_method_mask_of_push_if_set(s3, mask, 0x0008, MethodFlag::Static);
    lemma_method_mask_of_push_if_set(s4, mask, 0x0010, MethodFlag::Final);
    lemma_method_mask_of_push_if_set(s5, mask, 0x0020, MethodFlag::Synchronized);
    lemma_method_mask_of_push_if_set(s6, mask, 0x0040, MethodFlag::Bridge);
    lemma_method_mask_of_push_if_set(s7, mask, 0x0080, MethodFlag::Varargs);
    lemma_method_mask_of_push_if_set(s8, mask, 0x0100, MethodFlag::Native);
    lemma_method_mask_of_push_if_set(s9, mask, 0x0400, MethodFlag::Abstract);
    lemma_method_mask_of_push_if_set(s10, mask, 0x0800, MethodFlag::Strict);
    lemma_method_mask_of_push_if_set(s11, mask, 0x1000, MethodFlag::Synthetic);
    assert((0u16 | (mask & 0x0001) | (mask & 0x0002) | (mask & 0x0004) | (mask & 0x0008) | (mask
        & 0x0010) | (mask & 0x0020) | (mask & 0x0040) | (mask & 0x0080) | (mask & 0x0100) | (mask
        & 0x0400) | (mask & 0x0800) | (mask & 0x1000)) == mask & 0x1dff) by (bit_vector);
}

/// The ordered parameter types of a method.
#[derive(Debug, Clone, PartialEq)]
pub struct ParameterDescriptor(pub Vec<FieldType>);

/// What a method returns: a field type, or nothing.
#[derive(Debug, Clone, PartialEq)]
pub enum ReturnDescriptor {
    FieldType(FieldType),
    VoidDescriptor,
}

/// The marker for a `void` return in the descriptor grammar.
#[derive(Debug, Clone, Copy, PartialEq, Eq, Structural)]
pub struct VoidDescriptor;

/// A parsed method descriptor: parameters and return.
#[derive(Debug, Clone, PartialEq)]
pub struct MethodDescriptor(pub ParameterDescriptor, pub ReturnDescriptor);

/// Where the parameter list beginning at `i` (just after `(`) ends: one
/// past the `)`, or the error.
pub open spec fn spec_params_end(cs: Seq<char>, i: int) -> Result<int, MethodParsingError>
    decreases cs.len() - i,
    when 0 <= i
{
    if i >= cs.len() {
        Err(MethodParsingError::NoClosingBracket)
    } else if cs[i] == ')' {
        Ok(i + 1)
    } else {
        match spec_field_desc_end(cs, i) {
            Err(e) => Err(MethodParsingError::FieldError(e)),
            Ok(j) => if i < j <= cs.len() {
                spec_params_end(cs, j)
            } else {
                Err(MethodParsingError::NoClosingBracket)
            },
        }
    }
}

/// Whether `ts` is the list of parameter types written between position
/// `i` and position `e` (the position of the closing bracket or the end
/// of the list walked so far).
pub open spec fn spec_params_prefix(cs: Seq<char>, i: int, ts: Seq<FieldType>, e: int) -> bool
    decreases ts.len(),
{
    if ts.len() == 0 {
        e == i
    } else {
        match spec_field_desc_end(cs, i) {
            Ok(j) => spec_field_desc_val(cs, i, ts[0]) && spec_params_prefix(
                cs,
                j,
                ts.drop_first(),
                e,
            ),
            Err(_) => false,
        }
    }
}

/// Where the method descriptor in `cs` ends, or why there is none.
/// Characters after the descriptor are not looked at.
pub open spec fn spec_method_desc_end(cs: Seq<char>) -> Result<int, MethodParsingError> {
    if cs.len() == 0 || cs[0] != '(' {
        Err(MethodParsingError::NoOpeningBracket)
    } else {
        match spec_params_end(cs, 1) {
            Err(e) => Err(e),
            Ok(k) => if k < cs.len() && cs[k] == 'V' {
                Ok(k + 1)
            } else {
                match spec_field_desc_end(cs, k) {
                    Ok(j) => Ok(j),
                    Err(e) => Err(MethodParsingError::FieldError(e)),
                }
            },
        }
    }
}

/// Whether `md` is the method descriptor written in `cs`.
pub open spec fn spec_method_desc_val(cs: Seq<char>, md: MethodDescriptor) -> bool {
    cs.len() > 0 && cs[0] == '(' && match spec_params_end(cs, 1) {
        Err(_) => false,
        Ok(k) => spec_params_prefix(cs, 1, md.0.0@, k - 1) && (if k < cs.len() && cs[k] == 'V' {
            md.1 == ReturnDescriptor::VoidDescriptor
        } else {
            md.1 matches ReturnDescriptor::FieldType(t) && spec_field_desc_val(cs, k, t)
        }),
    }
}

/// One more parameter extends a parameter prefix.
proof fn lemma_params_prefix_snoc(cs: Seq<char>, a: int, ts: Seq<FieldType>, e: int, t: FieldType)
    requires
        spec_params_prefix(cs, a, ts, e),
        0 <= e,
        spec_field_desc_end(cs, e) is Ok,
        spec_field_desc_val(cs, e, t),
    ensures
        spec_params_prefix(cs, a, ts.push(t), spec_field_desc_end(cs, e).unwrap()),
    decreases ts.len(),
{
    let j = spec_field_desc_end(cs, e).unwrap();
    if ts.len() == 0 {
        assert(ts.push(t)[0] == t);
        assert(ts.push(t).drop_first() =~= Seq::<FieldType>::empty());
        assert(spec_params_prefix(cs, j, Seq::<FieldType>::empty(), j));
    } else {
        let j0 = spec_field_desc_end(cs, a).unwrap();
        lemma_params_prefix_snoc(cs, j0, ts.drop_first(), e, t);
        assert(ts.push(t)[0] == ts[0]);
        assert(ts.push(t).drop_first() =~= ts.drop_first().push(t));
    }
}

impl MethodDescriptor {
    /// Parses the method descriptor written at the start of
    /// `descriptor`. Characters after it are ignored.
    pub fn try_from(descriptor: &str) -> (r: Result<MethodDescriptor, MethodParsingError>)
        ensures
            (match r {
                Ok(md) => spec_method_desc_end(descriptor@) is Ok && spec_method_desc_val(
                    descriptor@,
                    md,
                ),
                Err(e) => spec_method_desc_end(descriptor@) == Err::<int, MethodParsingError>(e),
            }),
    {
        let n = descriptor.unicode_len();
        if n == 0 || descriptor.get_char(0) != '(' {
            return Err(MethodParsingError::NoOpeningBracket);
        }
        let mut parameters: Vec<FieldType> = Vec::new();
        let mut i: usize = 1;
        let closing: usize;
        loop
            invariant
                1 <= i <= n,
                n == descriptor@.len(),
                descriptor@[0] == '(',
                spec_params_end(descriptor@, 1) == spec_params_end(descriptor@, i as int),
                spec_params_prefix(descriptor@, 1, parameters@, i as int),
            ensures
                spec_params_end(descriptor@, 1) == Ok::<int, MethodParsingError>(
                    closing + 1 as int,
                ),
                spec_params_prefix(descriptor@, 1, parameters@, closing as int),
                closing < n,
                descriptor@[closing as int] == ')',
            decreases n - i,
        {
            if i >= n {
                return Err(MethodParsingError::NoClosingBracket);
            }
            if descriptor.get_char(i) == ')' {
                closing = i;
                break ;
            }
            match FieldType::parse_at(descriptor, i) {
                Err(e) => {
                    return Err(MethodParsingError::FieldError(e));
                },
                Ok((t, j)) => {
                    proof {
                        lemma_field_desc_end_advances(descriptor@, i as int);
                        lemma_params_prefix_snoc(
                            descriptor@,
                            1,
                            parameters@,
                            i as int,
                            t,
                        );
                    }
                    parameters.push(t);
                    i = j;
                },
            }
        }
        let k = closing + 1;
        let return_type = if k < n && descriptor.get_char(k) == 'V' {
            ReturnDescriptor::VoidDescriptor
        } else {
            match FieldType::parse_at(descriptor, k) {
                Ok((t, _)) => ReturnDescriptor::FieldType(t),
                Err(e) => {
                    return Err(MethodParsingError::FieldError(e));
                },
            }
        };
        Ok(MethodDescriptor(ParameterDescriptor(parameters), return_type))
    }
}

/// A method: flags, name, parsed descriptor and attributes.
#[derive(Debug, PartialEq)]
pub struct Method {
    pub flags: MethodAccessFlags,
    pub name: String,
    pub type_descriptor: MethodDescriptor,
    pub attributes: Vec<Attribute>,
}

} // verus!
