//! Fields: their access flags and the JVM field descriptor grammar. A
//! descriptor is a compact textual type: one letter for a primitive,
//! `L<binary name>;` for a class and `[` prefixing an element type for
//! an array.

use vstd::prelude::*;
use vstd::string::{StrSliceExecFns, StringExecFns};

use crate::attribute::Attribute;

verus! {

/// How parsing a field descriptor can fail.
#[derive(Debug, Clone, Copy, PartialEq, Eq, Structural)]
pub enum FieldError {
    /// The characters ended where a descriptor was required.
    UnexpectedEnd,
    /// An object descriptor is not closed by a semicolon.
    NoSemicolon,
    /// The leading character selects no production of the grammar.
    InvalidDescriptor,
}

/// A modifier of a field.
#[derive(Debug, Clone, Copy, PartialEq, Eq, Structural)]
pub enum AccessFlag {
    Public,
    Private,
    Protected,
    Static,
    Final,
    Volatile,
    Transient,
    Synthetic,
    Enum,
}

/// The mask bit a field flag stands for.
pub open spec fn spec_field_flag_bit(f: AccessFlag) -> u16 {
    match f {
        AccessFlag::Public => 0x0001,
        AccessFlag::Private => 0x0002,
        AccessFlag::Protected => 0x0004,
        AccessFlag::Static => 0x0008,
        AccessFlag::Final => 0x0010,
        AccessFlag::Volatile => 0x0040,
        AccessFlag::Transient => 0x0080,
        AccessFlag::Synthetic => 0x1000,
        AccessFlag::Enum => 0x4000,
    }
}

/// `s` with `f` appended when bit `bit` of `mask` is set.
pub open spec fn spec_field_push_if_set(
    s: Seq<AccessFlag>,
    mask: u16,
    bit: u16,
    f: AccessFlag,
) -> Seq<AccessFlag> {
    if mask & bit != 0 {
        s.push(f)
    } else {
        s
    }
}

/// The field flags of `mask`, in ascending bit order.
pub open spec fn spec_field_flags(mask: u16) -> Seq<AccessFlag> {
    let s = Seq::empty();
    let s = spec_field_push_if_set(s, mask, 0x0001, AccessFlag::Public);
    let s = spec_field_push_if_set(s, mask, 0x0002, AccessFlag::Private);
    let s = spec_field_push_if_set(s, mask, 0x0004, AccessFlag::Protected);
    let s = spec_field_push_if_set(s, mask, 0x0008, AccessFlag::Static);
    let s = spec_field_push_if_set(s, mask, 0x0010, AccessFlag::Final);
    let s = spec_field_push_if_set(s, mask, 0x0040, AccessFlag::Volatile);
    let s = spec_field_push_if_set(s, mask, 0x0080, AccessFlag::Transient);
    let s = spec_field_push_if_set(s, mask, 0x1000, AccessFlag::Synthetic);
    spec_field_push_if_set(s, mask, 0x4000, AccessFlag::Enum)
}

/// The field flags a mask decodes to.
#[derive(Debug, Clone, PartialEq, Eq)]
pub struct FieldAccessFlags {
    flags: Vec<AccessFlag>,
}

impl FieldAccessFlags {
    /// The decoded flags, in ascending bit order.
    pub closed spec fn view(&self) -> Seq<AccessFlag> {
        self.flags@
    }

    pub fn new(mask: u16) -> (r: Self)
        ensures
            r@ == spec_field_flags(mask),
    {
        let mut flags: Vec<AccessFlag> = Vec::new();
        if mask & 0x0001 != 0 {
            flags.push(AccessFlag::Public);
        }
        if mask & 0x0002 != 0 {
            flags.push(AccessFlag::Private);
        }
        if mask & 0x0004 != 0 {
            flags.push(AccessFlag::Protected);
        }
        if mask & 0x0008 != 0 {
            flags.push(AccessFlag::Static);
        }
        if mask & 0x0010 != 0 {
            flags.push(AccessFlag::Final);
        }
        if mask & 0x0040 != 0 {
            flags.push(AccessFlag::Volatile);
        }
        if mask & 0x0080 != 0 {
            flags.push(AccessFlag::Transient);
        }
        if mask & 0x1000 != 0 {
            flags.push(AccessFlag::Synthetic);
        }
        if mask & 0x4000 != 0 {
            flags.push(AccessFlag::Enum);
        }
        FieldAccessFlags { flags }
    }

    /// The decoded flags, for callers that inspect them.
    pub fn flags(&self) -> (r: &Vec<AccessFlag>)
        ensures
            r@ == self@,
    {
        &self.flags
    }
}

/// The bitwise OR of the bits of the field flags in `s`.
pub open spec fn spec_field_mask_of(s: Seq<AccessFlag>) -> u16
    decreases s.len(),
{
    if s.len() == 0 {
        0u16
    } else {
        spec_field_mask_of(s.drop_last()) | spec_field_flag_bit(s.last())
    }
}

/// Appending one conditional flag ORs its masked bit into the encoding.
proof fn lemma_field_mask_of_push_if_set(s: Seq<AccessFlag>, mask: u16, bit: u16, f: AccessFlag)
    requires
        bit == spec_field_flag_bit(f),
    ensures
        spec_field_mask_of(spec_field_push_if_set(s, mask, bit, f)) == spec_field_mask_of(s) | (
        mask & bit),
{
    let m = spec_field_mask_of(s);
    if mask & bit != 0 {
        assert(s.push(f).drop_last() =~= s);
        assert(s.push(f).last() == f);
        assert(mask & bit != 0 && (bit == 0x0001 || bit == 0x0002 || bit == 0x0004 || bit == 0x0008
            || bit == 0x0010 || bit == 0x0040 || bit == 0x0080 || bit == 0x1000 || bit == 0x4000)
            ==> mask & bit == bit) by (bit_vector);
    } else {
        assert(mask & bit == 0 ==> (m | (mask & bit)) == m) by (bit_vector);
    }
}

/// Bit-set round trip: decoding mask `m` and re-encoding the decoded
/// flags gives back `m` restricted to the bits the field decoder knows.
pub proof fn lemma_field_flags_round_trip(mask: u16)
    ensures
        spec_field_mask_of(spec_field_flags(mask)) == mask & 0x50df,
{
    let s0 = Seq::empty();
    let s1 = spec_field_push_if_set(s0, mask, 0x0001, AccessFlag::Public);
    let s2 = spec_field_push_if_set(s1, mask, 0x0002, AccessFlag::Private);
    let s3 = spec_field_push_if_set(s2, mask, 0x0004, AccessFlag::Protected);
    let s4 = spec_field_push_if_set(s3, mask, 0x0008, AccessFlag::Static);
    let s5 = spec_field_push_if_set(s4, mask, 0x0010, AccessFlag::Final);
    let s6 = spec_field_push_if_set(s5, mask, 0x0040, AccessFlag::Volatile);
    let s7 = spec_field_push_if_set(s6, mask, 0x0080, AccessFlag::Transient);
    let s8 = spec_field_push_if_set(s7, mask, 0x1000, AccessFlag::Synthetic);
    lemma_field_mask_of_push_if_set(s0, mask, 0x0001, AccessFlag::Public);
    lemma_field_mask_of_push_if_set(s1, mask, 0x0002, AccessFlag::Private);
    lemma_field_mask_of_push_if_set(s2, mask, 0x0004, AccessFlag::Protected);
    lemma_field_mask_of_push_if_set(s3, mask, 0x0008, AccessFlag::Static);
    lemma_field_mask_of_push_if_set(s4, mask, 0x0010, AccessFlag::Final);
    lemma_field_mask_of_push_if_set(s5, mask, 0x0040, AccessFlag::Volatile);
    lemma_field_mask_of_push_if_set(s6, mask, 0x0080, AccessFlag::Transient);
    lemma_field_mask_of_push_if_set(s7, mask, 0x1000, AccessFlag::Synthetic);
    lemma_field_mask_of_push_if_set(s8, mask, 0x4000, AccessFlag::Enum);
    assert((0u16 | (mask & 0x0001) | (mask & 0x0002) | (mask & 0x0004) | (mask & 0x0008) | (mask
        & 0x0010) | (mask & 0x0040) | (mask & 0x0080) | (mask & 0x1000) | (mask & 0x4000)) == mask
        & 0x50df) by (bit_vector);
}

/// A primitive field type.
#[derive(Debug, Clone, Copy, PartialEq, Eq, Structural)]
pub enum BaseType {
    Byte,
    Char,
    Double,
    Float,
    Int,
    Long,
    Short,
    Boolean,
}

/// A parsed field type: a primitive, a class, or an array of another
/// field type.
#[derive(Debug, PartialEq)]
pub enum FieldType {
    Base(BaseType),
    Object(String),
    Array(Box<FieldType>),
}

impl Clone for FieldType {
    /// A clone equals its source.
    fn clone(&self) -> (r: Self)
        ensures
            r == *self,
        decreases *self,
    {
        match self {
            FieldType::Base(b) => FieldType::Base(*b),
            FieldType::Object(name) => FieldType::Object(name.clone()),
            FieldType::Array(e) => FieldType::Array(Box::new((**e).clone())),
        }
    }
}

/// The descriptor letter of a primitive type.
pub open spec fn spec_base_char(b: BaseType) -> char {
    match b {
        BaseType::Byte => 'B',
        BaseType::Char => 'C',
        BaseType::Double => 'D',
        BaseType::Float => 'F',
        BaseType::Int => 'I',
        BaseType::Long => 'J',
        BaseType::Short => 'S',
        BaseType::Boolean => 'Z',
    }
}

/// The position of the first `;` at or after `j`, if any.
pub open spec fn spec_semicolon_pos(cs: Seq<char>, j: int) -> Option<int>
    decreases cs.len() - j,
    when 0 <= j
{
    if j >= cs.len() {
        None
    } else if cs[j] == ';' {
        Some(j)
    } else {
        spec_semicolon_pos(cs, j + 1)
    }
}

/// Where the field descriptor starting at `i` ends (one past its last
/// character), or why none starts there. Characters after the descriptor
/// are not looked at.
pub open spec fn spec_field_desc_end(cs: Seq<char>, i: int) -> Result<int, FieldError>
    decreases cs.len() - i,
    when 0 <= i
{
    if i >= cs.len() {
        Err(FieldError::UnexpectedEnd)
    } else {
        let c = cs[i];
        if c == 'B' || c == 'C' || c == 'D' || c == 'F' || c == 'I' || c == 'J' || c == 'S' || c
            == 'Z' {
            Ok(i + 1)
        } else if c == 'L' {
            match spec_semicolon_pos(cs, i + 1) {
                Some(k) => Ok(k + 1),
                None => Err(FieldError::NoSemicolon),
            }
        } else if c == '[' {
            spec_field_desc_end(cs, i + 1)
        } else {
            Err(FieldError::InvalidDescriptor)
        }
    }
}

/// Whether `t` is the field type the descriptor starting at `i` denotes.
pub open spec fn spec_field_desc_val(cs: Seq<char>, i: int, t: FieldType) -> bool
    decreases cs.len() - i,
    when 0 <= i
{
    if i >= cs.len() {
        false
    } else {
        let c = cs[i];
        if c == 'B' {
            t == FieldType::Base(BaseType::Byte)
        } else if c == 'C' {
            t == FieldType::Base(BaseType::Char)
        } else if c == 'D' {
            t == FieldType::Base(BaseType::Double)
        } else if c == 'F' {
            t == FieldType::Base(BaseType::Float)
        } else if c == 'I' {
            t == FieldType::Base(BaseType::Int)
        } else if c == 'J' {
            t == FieldType::Base(BaseType::Long)
        } else if c == 'S' {
            t == FieldType::Base(BaseType::Short)
        } else if c == 'Z' {
            t == FieldType::Base(BaseType::Boolean)
        } else if c == 'L' {
            match spec_semicolon_pos(cs, i + 1) {
                Some(k) => t matches FieldType::Object(name) && name@ == cs.subrange(i + 1, k),
                None => false,
            }
        } else if c == '[' {
            t matches FieldType::Array(e) && spec_field_desc_val(cs, i + 1, *e)
        } else {
            false
        }
    }
}

/// A successful parse consumes at least one character and stays inside
/// the descriptor characters.
pub proof fn lemma_field_desc_end_advances(cs: Seq<char>, i: int)
    requires
        0 <= i,
        spec_field_desc_end(cs, i) is Ok,
    ensures
        i < spec_field_desc_end(cs, i).unwrap() <= cs.len(),
    decreases cs.len() - i,
{
    if i < cs.len() {
        let c = cs[i];
        if c == 'L' {
            lemma_semicolon_pos_range(cs, i + 1);
        } else if c == '[' {
            lemma_field_desc_end_advances(cs, i + 1);
        }
    }
}

/// A found semicolon lies at or after the scan start and inside the text.
pub proof fn lemma_semicolon_pos_range(cs: Seq<char>, j: int)
    requires
        0 <= j,
        spec_semicolon_pos(cs, j) is Some,
    ensures
        j <= spec_semicolon_pos(cs, j).unwrap() < cs.len(),
        cs[spec_semicolon_pos(cs, j).unwrap()] == ';',
    decreases cs.len() - j,
{
    if j < cs.len() && cs[j] != ';' {
        lemma_semicolon_pos_range(cs, j + 1);
    }
}

impl FieldType {
    /// Parses the field descriptor starting at character `i` of
    /// `descriptor`, returning the type and the position one past it.
    pub(crate) fn parse_at(descriptor: &str, i: usize) -> (r: Result<(FieldType, usize), FieldError>)
        requires
            i <= descriptor@.len(),
        ensures
            (match r {
                Ok((t, j)) => spec_field_desc_end(descriptor@, i as int) == Ok::<int, FieldError>(
                    j as int,
                ) && spec_field_desc_val(descriptor@, i as int, t),
                Err(e) => spec_field_desc_end(descriptor@, i as int) == Err::<int, FieldError>(e),
            }),
        decreases descriptor@.len() - i,
    {
        let n = descriptor.unicode_len();
        if i >= n {
            return Err(FieldError::UnexpectedEnd);
        }
        let c = descriptor.get_char(i);
        if c == 'B' {
            Ok((FieldType::Base(BaseType::Byte), i + 1))
        } else if c == 'C' {
            Ok((FieldType::Base(BaseType::Char), i + 1))
        } else if c == 'D' {
            Ok((FieldType::Base(BaseType::Double), i + 1))
        } else if c == 'F' {
            Ok((FieldType::Base(BaseType::Float), i + 1))
        } else if c == 'I' {
            Ok((FieldType::Base(BaseType::Int), i + 1))
        } else if c == 'J' {
            Ok((FieldType::Base(BaseType::Long), i + 1))
        } else if c == 'S' {
            Ok((FieldType::Base(BaseType::Short), i + 1))
        } else if c == 'Z' {
            Ok((FieldType::Base(BaseType::Boolean), i + 1))
        } else if c == 'L' {
            let mut j = i + 1;
            while j < n && descriptor.get_char(j) != ';'
                invariant
                    i + 1 <= j <= n,
                    n == descriptor@.len(),
                    spec_semicolon_pos(descriptor@, i + 1) == spec_semicolon_pos(
                        descriptor@,
                        j as int,
                    ),
                decreases n - j,
            {
                j = j + 1;
            }
            if j >= n {
                Err(FieldError::NoSemicolon)
            } else {
                let name = descriptor.substring_char(i + 1, j).to_owned();
                Ok((FieldType::Object(name), j + 1))
            }
        } else if c == '[' {
            match Self::parse_at(descriptor, i + 1) {
                Ok((element, j)) => Ok((FieldType::Array(Box::new(element)), j)),
                Err(e) => Err(e),
            }
        } else {
            Err(FieldError::InvalidDescriptor)
        }
    }

    /// Parses one field descriptor from the start of `descriptor`.
    /// Characters after the descriptor are ignored, as the grammar is
    /// prefix-free for the callers that hand a longer text over.
    pub fn try_from(descriptor: &str) -> (r: Result<FieldType, FieldError>)
        ensures
            (match r {
                Ok(t) => spec_field_desc_end(descriptor@, 0) is Ok && spec_field_desc_val(
                    descriptor@,
                    0,
                    t,
                ),
                Err(e) => spec_field_desc_end(descriptor@, 0) == Err::<int, FieldError>(e),
            }),
    {
        match Self::parse_at(descriptor, 0) {
            Ok((t, _)) => Ok(t),
            Err(e) => Err(e),
        }
    }

    /// The descriptor that denotes `t`: the reference encoder for the
    /// grammar.
    pub open spec fn spec_descriptor(t: FieldType) -> Seq<char>
        decreases t,
    {
        match t {
            FieldType::Base(b) => seq![spec_base_char(b)],
            FieldType::Object(name) => seq!['L'] + name@ + seq![';'],
            FieldType::Array(e) => seq!['['] + Self::spec_descriptor(*e),
        }
    }

    /// Whether `t` can be written as a descriptor at all: class names
    /// hold no semicolon, which the `L...;` form could not carry.
    pub open spec fn spec_encodable(t: FieldType) -> bool
        decreases t,
    {
        match t {
            FieldType::Base(_) => true,
            FieldType::Object(name) => forall|k: int| 0 <= k < name@.len() ==> name@[k] != ';',
            FieldType::Array(e) => Self::spec_encodable(*e),
        }
    }

    /// Writes the descriptor of `self`.
    pub fn descriptor(&self) -> (r: String)
        ensures
            r@ == Self::spec_descriptor(*self),
        decreases *self,
    {
        match self {
            FieldType::Base(b) => {
                let r = match b {
                    BaseType::Byte => String::from_str("B"),
                    BaseType::Char => String::from_str("C"),
                    BaseType::Double => String::from_str("D"),
                    BaseType::Float => String::from_str("F"),
                    BaseType::Int => String::from_str("I"),
                    BaseType::Long => String::from_str("J"),
                    BaseType::Short => String::from_str("S"),
                    BaseType::Boolean => String::from_str("Z"),
                };
                proof {
                    reveal_strlit("B");
                    reveal_strlit("C");
                    reveal_strlit("D");
                    reveal_strlit("F");
                    reveal_strlit("I");
                    reveal_strlit("J");
                    reveal_strlit("S");
                    reveal_strlit("Z");
                    assert(r@ =~= Self::spec_descriptor(*self));
                }
                r
            },
            FieldType::Object(name) => {
                let mut r = String::from_str("L");
                r.append(name.as_str());
                r.append(";");
                proof {
                    reveal_strlit("L");
                    reveal_strlit(";");
                    assert(r@ =~= Self::spec_descriptor(*self));
                }
                r
            },
            FieldType::Array(e) => {
                let mut r = String::from_str("[");
                let element = e.descriptor();
                r.append(element.as_str());
                proof {
                    reveal_strlit("[");
                    assert(r@ =~= Self::spec_descriptor(*self));
                }
                r
            },
        }
    }
}

/// The first semicolon at or after `j` is `m`, when no earlier character
/// from `j` on is one and `cs[m]` is.
proof fn lemma_semicolon_pos_found(cs: Seq<char>, j: int, m: int)
    requires
        0 <= j <= m < cs.len(),
        cs[m] == ';',
        forall|k: int| j <= k < m ==> cs[k] != ';',
    ensures
        spec_semicolon_pos(cs, j) == Some(m),
    decreases m - j,
{
    if j < m {
        lemma_semicolon_pos_found(cs, j + 1, m);
    }
}

/// Descriptor round trip, generalized over the position: wherever the
/// encoding of `t` sits in a character sequence, parsing from its start
/// ends at its end and denotes `t` again.
proof fn lemma_descriptor_round_trip_at(cs: Seq<char>, i: int, t: FieldType)
    requires
        FieldType::spec_encodable(t),
        0 <= i,
        i + FieldType::spec_descriptor(t).len() <= cs.len(),
        cs.subrange(i, i + FieldType::spec_descriptor(t).len() as int) == FieldType::spec_descriptor(
            t,
        ),
    ensures
        spec_field_desc_end(cs, i) == Ok::<int, FieldError>(
            i + FieldType::spec_descriptor(t).len(),
        ),
        spec_field_desc_val(cs, i, t),
    decreases t,
{
    let d = FieldType::spec_descriptor(t);
    assert(cs[i] == d[0]);
    match t {
        FieldType::Base(b) => {},
        FieldType::Object(name) => {
            let m = i + 1 + name@.len() as int;
            assert(cs[m] == d[(1 + name@.len()) as int]);
            assert(cs[m] == ';');
            assert forall|k: int| i + 1 <= k < m implies cs[k] != ';' by {
                assert(cs[k] == d[k - i]);
                assert(d[k - i] == name@[k - i - 1]);
            }
            lemma_semicolon_pos_found(cs, i + 1, m);
            assert(cs.subrange(i + 1, m) =~= name@) by {
                assert forall|k: int| 0 <= k < name@.len() implies cs.subrange(i + 1, m)[k]
                    == name@[k] by {
                    assert(cs[i + 1 + k] == d[1 + k]);
                    assert(d[1 + k] == name@[k]);
                }
            }
        },
        FieldType::Array(e) => {
            let de = FieldType::spec_descriptor(*e);
            assert(cs.subrange(i + 1, i + 1 + de.len() as int) =~= de) by {
                assert forall|k: int| 0 <= k < de.len() implies cs.subrange(
                    i + 1,
                    i + 1 + de.len() as int,
                )[k] == de[k] by {
                    assert(cs[i + 1 + k] == d[1 + k]);
                    assert(d[1 + k] == de[k]);
                }
            }
            lemma_descriptor_round_trip_at(cs, i + 1, *e);
        },
    }
}

/// Descriptor round trip: for every encodable field type `t`, parsing
/// the descriptor written for `t` ends at its last character and gives
/// `t` back.
pub proof fn lemma_descriptor_round_trip(t: FieldType)
    requires
        FieldType::spec_encodable(t),
    ensures
        spec_field_desc_end(FieldType::spec_descriptor(t), 0) == Ok::<int, FieldError>(
            FieldType::spec_descriptor(t).len() as int,
        ),
        spec_field_desc_val(FieldType::spec_descriptor(t), 0, t),
{
    let d = FieldType::spec_descriptor(t);
    assert(d.subrange(0, d.len() as int) =~= d);
    lemma_descriptor_round_trip_at(d, 0, t);
}

/// A field: flags, name, parsed type and attributes.
#[derive(Debug, PartialEq)]
pub struct Field {
    pub flags: FieldAccessFlags,
    pub name: String,
    pub type_descriptor: FieldType,
    pub attributes: Vec<Attribute>,
}

impl Field {
    pub fn new(
        flags: FieldAccessFlags,
        name: String,
        type_descriptor: FieldType,
        attributes: Vec<Attribute>,
    ) -> (r: Self)
        ensures
            r == (Field { flags, name, type_descriptor, attributes }),
    {
        Field { flags, name, type_descriptor, attributes }
    }
}

} // verus!
