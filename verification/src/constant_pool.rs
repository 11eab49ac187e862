//! The constant pool: a 1-based table of tagged constants. A `Long` or
//! `Double` entry owns two consecutive slots; the pool fills the second
//! slot with an `Unusable` sentinel, and dereferencing that slot is a
//! typed error.

use vstd::prelude::*;
use vstd::string::StringExecFns;

verus! {

/// How a pool lookup can fail.
#[derive(Debug, Clone, Copy, PartialEq, Eq, Structural)]
pub enum ConstantPoolError {
    /// The index is zero or beyond the last slot.
    IndexOutOfBounds(usize),
    /// The slot is the trailing half of a `Long` or `Double` entry.
    UnusableConstant(usize),
}

/// One entry of the constant pool. `Float` and `Double` hold the raw
/// big-endian IEEE 754 bits; turning them into floating-point values is
/// the caller's affair, which keeps the pool free of inexact arithmetic.
#[derive(Debug, PartialEq)]
pub enum Constant {
    Utf8(String),
    Integer(i32),
    Float(u32),
    Long(i64),
    Double(u64),
    ClassIndex(u16),
    StringIndex(u16),
    FieldRef(u16, u16),
    MethodRef(u16, u16),
    InterfaceMethodRef(u16, u16),
    NameAndType(u16, u16),
    MethodHandle(u8, u16),
    MethodType(u16),
    Dynamic(u16, u16),
    InvokeDynamic(u16, u16),
    Module(u16),
    Package(u16),
    Unusable,
}

impl Clone for Constant {
    /// A clone equals its source.
    fn clone(&self) -> (r: Self)
        ensures
            r == *self,
    {
        match self {
            Constant::Utf8(t) => Constant::Utf8(t.clone()),
            Constant::Integer(v) => Constant::Integer(*v),
            Constant::Float(v) => Constant::Float(*v),
            Constant::Long(v) => Constant::Long(*v),
            Constant::Double(v) => Constant::Double(*v),
            Constant::ClassIndex(v) => Constant::ClassIndex(*v),
            Constant::StringIndex(v) => Constant::StringIndex(*v),
            Constant::FieldRef(a, b) => Constant::FieldRef(*a, *b),
            Constant::MethodRef(a, b) => Constant::MethodRef(*a, *b),
            Constant::InterfaceMethodRef(a, b) => Constant::InterfaceMethodRef(*a, *b),
            Constant::NameAndType(a, b) => Constant::NameAndType(*a, *b),
            Constant::MethodHandle(a, b) => Constant::MethodHandle(*a, *b),
            Constant::MethodType(v) => Constant::MethodType(*v),
            Constant::Dynamic(a, b) => Constant::Dynamic(*a, *b),
            Constant::InvokeDynamic(a, b) => Constant::InvokeDynamic(*a, *b),
            Constant::Module(v) => Constant::Module(*v),
            Constant::Package(v) => Constant::Package(*v),
            Constant::Unusable => Constant::Unusable,
        }
    }
}

/// The kind of a constant: its variant, without the payload. Diagnostics
/// report expected and actual kinds through this type.
#[derive(Debug, Clone, Copy, PartialEq, Eq, Structural)]
pub enum ConstantKind {
    Utf8,
    Integer,
    Float,
    Long,
    Double,
    ClassIndex,
    StringIndex,
    FieldRef,
    MethodRef,
    InterfaceMethodRef,
    NameAndType,
    MethodHandle,
    MethodType,
    Dynamic,
    InvokeDynamic,
    Module,
    Package,
    Unusable,
}

/// The kind of `c`.
pub open spec fn spec_constant_kind(c: Constant) -> ConstantKind {
    match c {
        Constant::Utf8(_) => ConstantKind::Utf8,
        Constant::Integer(_) => ConstantKind::Integer,
        Constant::Float(_) => ConstantKind::Float,
        Constant::Long(_) => ConstantKind::Long,
        Constant::Double(_) => ConstantKind::Double,
        Constant::ClassIndex(_) => ConstantKind::ClassIndex,
        Constant::StringIndex(_) => ConstantKind::StringIndex,
        Constant::FieldRef(_, _) => ConstantKind::FieldRef,
        Constant::MethodRef(_, _) => ConstantKind::MethodRef,
        Constant::InterfaceMethodRef(_, _) => ConstantKind::InterfaceMethodRef,
        Constant::NameAndType(_, _) => ConstantKind::NameAndType,
        Constant::MethodHandle(_, _) => ConstantKind::MethodHandle,
        Constant::MethodType(_) => ConstantKind::MethodType,
        Constant::Dynamic(_, _) => ConstantKind::Dynamic,
        Constant::InvokeDynamic(_, _) => ConstantKind::InvokeDynamic,
        Constant::Module(_) => ConstantKind::Module,
        Constant::Package(_) => ConstantKind::Package,
        Constant::Unusable => ConstantKind::Unusable,
    }
}

/// The variant name of the kind, as diagnostics print it.
pub open spec fn spec_kind_name(k: ConstantKind) -> Seq<char> {
    match k {
        ConstantKind::Utf8 => "Utf8"@,
        ConstantKind::Integer => "Integer"@,
        ConstantKind::Float => "Float"@,
        ConstantKind::Long => "Long"@,
        ConstantKind::Double => "Double"@,
        ConstantKind::ClassIndex => "ClassIndex"@,
        ConstantKind::StringIndex => "StringIndex"@,
        ConstantKind::FieldRef => "FieldRef"@,
        ConstantKind::MethodRef => "MethodRef"@,
        ConstantKind::InterfaceMethodRef => "InterfaceMethodRef"@,
        ConstantKind::NameAndType => "NameAndType"@,
        ConstantKind::MethodHandle => "MethodHandle"@,
        ConstantKind::MethodType => "MethodType"@,
        ConstantKind::Dynamic => "Dynamic"@,
        ConstantKind::InvokeDynamic => "InvokeDynamic"@,
        ConstantKind::Module => "Module"@,
        ConstantKind::Package => "Package"@,
        ConstantKind::Unusable => "Unusable"@,
    }
}

impl Constant {
    /// The kind of this constant.
    pub fn kind(&self) -> (r: ConstantKind)
        ensures
            r == spec_constant_kind(*self),
    {
        match self {
            Constant::Utf8(_) => ConstantKind::Utf8,
            Constant::Integer(_) => ConstantKind::Integer,
            Constant::Float(_) => ConstantKind::Float,
            Constant::Long(_) => ConstantKind::Long,
            Constant::Double(_) => ConstantKind::Double,
            Constant::ClassIndex(_) => ConstantKind::ClassIndex,
            Constant::StringIndex(_) => ConstantKind::StringIndex,
            Constant::FieldRef(_, _) => ConstantKind::FieldRef,
            Constant::MethodRef(_, _) => ConstantKind::MethodRef,
            Constant::InterfaceMethodRef(_, _) => ConstantKind::InterfaceMethodRef,
            Constant::NameAndType(_, _) => ConstantKind::NameAndType,
            Constant::MethodHandle(_, _) => ConstantKind::MethodHandle,
            Constant::MethodType(_) => ConstantKind::MethodType,
            Constant::Dynamic(_, _) => ConstantKind::Dynamic,
            Constant::InvokeDynamic(_, _) => ConstantKind::InvokeDynamic,
            Constant::Module(_) => ConstantKind::Module,
            Constant::Package(_) => ConstantKind::Package,
            Constant::Unusable => ConstantKind::Unusable,
        }
    }

    /// The variant name, for diagnostic messages.
    pub fn name(&self) -> (r: String)
        ensures
            r@ == spec_kind_name(spec_constant_kind(*self)),
    {
        self.kind().name()
    }
}

impl ConstantKind {
    /// The variant name, for diagnostic messages.
    pub fn name(&self) -> (r: String)
        ensures
            r@ == spec_kind_name(*self),
    {
        match self {
            ConstantKind::Utf8 => String::from_str("Utf8"),
            ConstantKind::Integer => String::from_str("Integer"),
            ConstantKind::Float => String::from_str("Float"),
            ConstantKind::Long => String::from_str("Long"),
            ConstantKind::Double => String::from_str("Double"),
            ConstantKind::ClassIndex => String::from_str("ClassIndex"),
            ConstantKind::StringIndex => String::from_str("StringIndex"),
            ConstantKind::FieldRef => String::from_str("FieldRef"),
            ConstantKind::MethodRef => String::from_str("MethodRef"),
            ConstantKind::InterfaceMethodRef => String::from_str("InterfaceMethodRef"),
            ConstantKind::NameAndType => String::from_str("NameAndType"),
            ConstantKind::MethodHandle => String::from_str("MethodHandle"),
            ConstantKind::MethodType => String::from_str("MethodType"),
            ConstantKind::Dynamic => String::from_str("Dynamic"),
            ConstantKind::InvokeDynamic => String::from_str("InvokeDynamic"),
            ConstantKind::Module => String::from_str("Module"),
            ConstantKind::Package => String::from_str("Package"),
            ConstantKind::Unusable => String::from_str("Unusable"),
        }
    }
}

/// Whether `c` owns two slots.
pub open spec fn spec_is_wide(c: Constant) -> bool {
    c is Long || c is Double
}

/// The two-slot rule: every wide entry is followed by an `Unusable`
/// sentinel, and a sentinel stands only after a wide entry.
pub open spec fn spec_pool_wf(s: Seq<Constant>) -> bool {
    forall|i: int|
        0 <= i < s.len() ==> ((spec_is_wide(#[trigger] s[i]) ==> i + 1 < s.len() && s[i + 1]
            == Constant::Unusable) && (s[i] == Constant::Unusable ==> i > 0 && spec_is_wide(
            s[i - 1],
        )))
}

/// What looking up 1-based `index` in the slots `s` gives.
pub open spec fn spec_pool_get(s: Seq<Constant>, index: usize) -> Result<
    Constant,
    ConstantPoolError,
> {
    if index == 0 || index > s.len() {
        Err(ConstantPoolError::IndexOutOfBounds(index))
    } else if s[index - 1] == Constant::Unusable {
        Err(ConstantPoolError::UnusableConstant(index))
    } else {
        Ok(s[index - 1])
    }
}

/// The ordered slots of a constant pool, indexed 1-based from the outside.
#[derive(Debug, Clone, PartialEq)]
pub struct ConstantPool {
    constants: Vec<Constant>,
}

impl ConstantPool {
    /// The slots, 0-based; the entry at 1-based index `i` is slot `i - 1`.
    pub closed spec fn view(&self) -> Seq<Constant> {
        self.constants@
    }

    /// Appends `constant`, and after a wide constant also the sentinel
    /// that fills its second slot.
    pub fn add(&mut self, constant: Constant)
        ensures
            final(self)@ == if spec_is_wide(constant) {
                old(self)@.push(constant).push(Constant::Unusable)
            } else {
                old(self)@.push(constant)
            },
            spec_pool_wf(old(self)@) && constant != Constant::Unusable ==> spec_pool_wf(
                final(self)@,
            ),
    {
        let wide = match &constant {
            Constant::Long(_) => true,
            Constant::Double(_) => true,
            _ => false,
        };
        self.constants.push(constant);
        if wide {
            self.constants.push(Constant::Unusable);
        }
        proof {
            lemma_pool_wf_push(old(self)@, final(self)@);
        }
    }

    /// Looks the 1-based `index` up, failing on index zero, on an index
    /// past the last slot, and on the trailing slot of a wide entry.
    pub fn get(&self, index: usize) -> (r: Result<&Constant, ConstantPoolError>)
        ensures
            (match r {
                Ok(c) => spec_pool_get(self@, index) == Ok::<Constant, ConstantPoolError>(*c),
                Err(e) => spec_pool_get(self@, index) == Err::<Constant, ConstantPoolError>(e),
            }),
    {
        if index == 0 || index > self.constants.len() {
            Err(ConstantPoolError::IndexOutOfBounds(index))
        } else {
            let c = &self.constants[index - 1];
            match c {
                Constant::Unusable => Err(ConstantPoolError::UnusableConstant(index)),
                _ => Ok(c),
            }
        }
    }

    /// The number of slots, counting both slots of each wide entry.
    pub fn len(&self) -> (r: usize)
        ensures
            r == self@.len(),
    {
        self.constants.len()
    }
}

impl Default for ConstantPool {
    /// An empty pool.
    fn default() -> (r: Self)
        ensures
            r@ == Seq::<Constant>::empty(),
    {
        ConstantPool { constants: Vec::new() }
    }
}

/// The two-slot rule survives `add`.
proof fn lemma_pool_wf_push(s: Seq<Constant>, t: Seq<Constant>)
    ensures
        (exists|c: Constant|
            c != Constant::Unusable && !spec_is_wide(c) && t == s.push(c)) && spec_pool_wf(s)
            ==> spec_pool_wf(t),
        (exists|c: Constant|
            c != Constant::Unusable && spec_is_wide(c) && t == s.push(c).push(Constant::Unusable))
            && spec_pool_wf(s) ==> spec_pool_wf(t),
{
    if spec_pool_wf(s) {
        if exists|c: Constant| c != Constant::Unusable && !spec_is_wide(c) && t == s.push(c) {
            let c = choose|c: Constant|
                c != Constant::Unusable && !spec_is_wide(c) && t == s.push(c);
            assert forall|i: int| 0 <= i < t.len() implies ((spec_is_wide(#[trigger] t[i]) ==> i + 1
                < t.len() && t[i + 1] == Constant::Unusable) && (t[i] == Constant::Unusable ==> i
                > 0 && spec_is_wide(t[i - 1]))) by {
                if i < s.len() {
                    assert(t[i] == s[i]);
                    if i + 1 < s.len() {
                        assert(t[i + 1] == s[i + 1]);
                    }
                    if i > 0 {
                        assert(t[i - 1] == s[i - 1]);
                    }
                }
            }
        }
        if exists|c: Constant|
            c != Constant::Unusable && spec_is_wide(c) && t == s.push(c).push(Constant::Unusable) {
            let c = choose|c: Constant|
                c != Constant::Unusable && spec_is_wide(c) && t == s.push(c).push(
                    Constant::Unusable,
                );
            assert forall|i: int| 0 <= i < t.len() implies ((spec_is_wide(#[trigger] t[i]) ==> i + 1
                < t.len() && t[i + 1] == Constant::Unusable) && (t[i] == Constant::Unusable ==> i
                > 0 && spec_is_wide(t[i - 1]))) by {
                if i < s.len() {
                    assert(t[i] == s[i]);
                    if i + 1 < s.len() {
                        assert(t[i + 1] == s[i + 1]);
                    }
                    if i > 0 {
                        assert(t[i - 1] == s[i - 1]);
                    }
                }
            }
        }
    }
}

/// A `Long` or `Double` entry at 1-based index `i` of a well-formed pool
/// owns the next slot too: that slot holds the `Unusable` sentinel, and
/// looking up `i + 1` fails with `UnusableConstant`, while looking up `i`
/// itself succeeds.
#[verifier::rlimit(50)]
pub proof fn lemma_wide_owns_two_slots(s: Seq<Constant>, i: usize)
    requires
        spec_pool_wf(s),
        1 <= i <= s.len(),
        i < usize::MAX,
        spec_is_wide(s[i - 1]),
    ensures
        i < s.len(),
        s[i as int] == Constant::Unusable,
        spec_pool_get(s, i) == Ok::<Constant, ConstantPoolError>(s[i - 1]),
        spec_pool_get(s, (i + 1) as usize) == Err::<Constant, ConstantPoolError>(
            ConstantPoolError::UnusableConstant((i + 1) as usize),
        ),
{
    assert(spec_is_wide(s[i - 1]) ==> i - 1 + 1 < s.len() && s[i - 1 + 1] == Constant::Unusable);
    assert(s[i - 1] != Constant::Unusable);
}

} // verus!
