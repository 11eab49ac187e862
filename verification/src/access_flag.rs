//! The class-level access flags: a `u16` bit mask decoded into a list of
//! named flags, ordered by ascending bit position. Unknown bits are
//! ignored for forward compatibility.

use vstd::prelude::*;

verus! {

/// A modifier of a class.
#[derive(Debug, Clone, Copy, PartialEq, Eq, Structural)]
pub enum AccessFlag {
    Public,
    Final,
    Super,
    Interface,
    Abstract,
    Synthetic,
    Annotation,
    Enum,
    Module,
}

/// The mask bit a class flag stands for.
pub open spec fn spec_class_flag_bit(f: AccessFlag) -> u16 {
    match f {
        AccessFlag::Public => 0x0001,
        AccessFlag::Final => 0x0010,
        AccessFlag::Super => 0x0020,
        AccessFlag::Interface => 0x0200,
        AccessFlag::Abstract => 0x0400,
        AccessFlag::Synthetic => 0x1000,
        AccessFlag::Annotation => 0x2000,
        AccessFlag::Enum => 0x4000,
        AccessFlag::Module => 0x8000,
    }
}

/// `s` with `f` appended when bit `bit` of `mask` is set.
pub open spec fn spec_push_if_set(s: Seq<AccessFlag>, mask: u16, bit: u16, f: AccessFlag) -> Seq<
    AccessFlag,
> {
    if mask & bit != 0 {
        s.push(f)
    } else {
        s
    }
}

/// The class flags of `mask`, in ascending bit order.
pub open spec fn spec_class_flags(mask: u16) -> Seq<AccessFlag> {
    let s = Seq::empty();
    let s = spec_push_if_set(s, mask, 0x0001, AccessFlag::Public);
    let s = spec_push_if_set(s, mask, 0x0010, AccessFlag::Final);
    let s = spec_push_if_set(s, mask, 0x0020, AccessFlag::Super);
    let s = spec_push_if_set(s, mask, 0x0200, AccessFlag::Interface);
    let s = spec_push_if_set(s, mask, 0x0400, AccessFlag::Abstract);
    let s = spec_push_if_set(s, mask, 0x1000, AccessFlag::Synthetic);
    let s = spec_push_if_set(s, mask, 0x2000, AccessFlag::Annotation);
    let s = spec_push_if_set(s, mask, 0x4000, AccessFlag::Enum);
    spec_push_if_set(s, mask, 0x8000, AccessFlag::Module)
}

/// The class flags a mask decodes to.
#[derive(Debug, Clone, PartialEq, Eq)]
pub struct ClassFileAccessFlags {
    flags: Vec<AccessFlag>,
}

impl ClassFileAccessFlags {
    /// The decoded flags, in ascending bit order.
    pub closed spec fn view(&self) -> Seq<AccessFlag> {
        self.flags@
    }

    pub fn new(mask: u16) -> (r: Self)
        ensures
            r@ == spec_class_flags(mask),
    {
        let mut flags: Vec<AccessFlag> = Vec::new();
        if mask & 0x0001 != 0 {
            flags.push(AccessFlag::Public);
        }
        if mask & 0x0010 != 0 {
            flags.push(AccessFlag::Final);
        }
        if mask & 0x0020 != 0 {
            flags.push(AccessFlag::Super);
        }
        if mask & 0x0200 != 0 {
            flags.push(AccessFlag::Interface);
        }
        if mask & 0x0400 != 0 {
            flags.push(AccessFlag::Abstract);
        }
        if mask & 0x1000 != 0 {
            flags.push(AccessFlag::Synthetic);
        }
        if mask & 0x2000 != 0 {
            flags.push(AccessFlag::Annotation);
        }
        if mask & 0x4000 != 0 {
            flags.push(AccessFlag::Enum);
        }
        if mask & 0x8000 != 0 {
            flags.push(AccessFlag::Module);
        }
        ClassFileAccessFlags { flags }
    }

    /// The decoded flags, for callers that inspect them.
    pub fn flags(&self) -> (r: &Vec<AccessFlag>)
        ensures
            r@ == self@,
    {
        &self.flags
    }
}

/// The bitwise OR of the bits of the class flags in `s`.
pub open spec fn spec_class_mask_of(s: Seq<AccessFlag>) -> u16
    decreases s.len(),
{
    if s.len() == 0 {
        0u16
    } else {
        spec_class_mask_of(s.drop_last()) | spec_class_flag_bit(s.last())
    }
}

/// Appending one conditional flag ORs its masked bit into the encoding.
proof fn lemma_class_mask_of_push_if_set(s: Seq<AccessFlag>, mask: u16, bit: u16, f: AccessFlag)
    requires
        bit == spec_class_flag_bit(f),
    ensures
        spec_class_mask_of(spec_push_if_set(s, mask, bit, f)) == spec_class_mask_of(s) | (mask
            & bit),
{
    let m = spec_class_mask_of(s);
    if mask & bit != 0 {
        assert(s.push(f).drop_last() =~= s);
        assert(s.push(f).last() == f);
        assert(mask & bit != 0 && (bit == 0x0001 || bit == 0x0010 || bit == 0x0020 || bit == 0x0200
            || bit == 0x0400 || bit == 0x1000 || bit == 0x2000 || bit == 0x4000 || bit == 0x8000)
            ==> mask & bit == bit) by (bit_vector);
    } else {
        assert(mask & bit == 0 ==> (m | (mask & bit)) == m) by (bit_vector);
    }
}

/// Bit-set round trip: decoding mask `m` and re-encoding the decoded
/// flags gives back `m` restricted to the bits the class decoder knows.
pub proof fn lemma_class_flags_round_trip(mask: u16)
    ensures
        spec_class_mask_of(spec_class_flags(mask)) == mask & 0xf631,
{
    let s0 = Seq::empty();
    let s1 = spec_push_if_set(s0, mask, 0x0001, AccessFlag::Public);
    let s2 = spec_push_if_set(s1, mask, 0x0010, AccessFlag::Final);
    let s3 = spec_push_if_set(s2, mask, 0x0020, AccessFlag::Super);
    let s4 = spec_push_if_set(s3, mask, 0x0200, AccessFlag::Interface);
    let s5 = spec_push_if_set(s4, mask, 0x0400, AccessFlag::Abstract);
    let s6 = spec_push_if_set(s5, mask, 0x1000, AccessFlag::Synthetic);
    let s7 = spec_push_if_set(s6, mask, 0x2000, AccessFlag::Annotation);
    let s8 = spec_push_if_set(s7, mask, 0x4000, AccessFlag::Enum);
    lemma_class_mask_of_push_if_set(s0, mask, 0x0001, AccessFlag::Public);
    lemma_class_mask_of_push_if_set(s1, mask, 0x0010, AccessFlag::Final);
    lemma_class_mask_of_push_if_set(s2, mask, 0x0020, AccessFlag::Super);
    lemma_class_mask_of_push_if_set(s3, mask, 0x0200, AccessFlag::Interface);
    lemma_class_mask_of_push_if_set(s4, mask, 0x0400, AccessFlag::Abstract);
    lemma_class_mask_of_push_if_set(s5, mask, 0x1000, AccessFlag::Synthetic);
    lemma_class_mask_of_push_if_set(s6, mask, 0x2000, AccessFlag::Annotation);
    lemma_class_mask_of_push_if_set(s7, mask, 0x4000, AccessFlag::Enum);
    lemma_class_mask_of_push_if_set(s8, mask, 0x8000, AccessFlag::Module);
    assert((0u16 | (mask & 0x0001) | (mask & 0x0010) | (mask & 0x0020) | (mask & 0x0200) | (mask
        & 0x0400) | (mask & 0x1000) | (mask & 0x2000) | (mask & 0x4000) | (mask & 0x8000)) == mask
        & 0xf631) by (bit_vector);
}

} // verus!
