use rsjvm::access_flag::{AccessFlag as ClassFlag, ClassFileAccessFlags};
use rsjvm::constant_pool::{Constant, ConstantPool, ConstantPoolError};
use rsjvm::field::{AccessFlag as FieldFlag, FieldAccessFlags};
use rsjvm::method::{MethodAccessFlags, MethodFlag};

#[test]
fn public_final_super_test() {
    let mask = 0x0031;
    let flags = ClassFileAccessFlags::new(mask);
    let flags = flags.flags();

    assert_eq!(flags.len(), 3);
    assert!(flags.contains(&ClassFlag::Public));
    assert!(flags.contains(&ClassFlag::Final));
    assert!(flags.contains(&ClassFlag::Super));
}

#[test]
fn class_flags_ignore_unknown_bits() {
    let flags = ClassFileAccessFlags::new(0x00c0);
    assert_eq!(flags.flags().len(), 0);
}

#[test]
fn field_flags_in_bit_order() {
    let flags = FieldAccessFlags::new(0x0009);
    assert_eq!(flags.flags(), &vec![FieldFlag::Public, FieldFlag::Static]);
    let all = FieldAccessFlags::new(0xffff);
    assert_eq!(
        all.flags(),
        &vec![
            FieldFlag::Public,
            FieldFlag::Private,
            FieldFlag::Protected,
            FieldFlag::Static,
            FieldFlag::Final,
            FieldFlag::Volatile,
            FieldFlag::Transient,
            FieldFlag::Synthetic,
            FieldFlag::Enum,
        ]
    );
}

#[test]
fn method_flags_in_bit_order() {
    let flags = MethodAccessFlags::new(0x0401);
    assert_eq!(flags.flags(), &vec![MethodFlag::Public, MethodFlag::Abstract]);
}

#[test]
fn flags_mask_round_trip() {
    // Re-encoding the decoded set by ORing the bit of each flag gives
    // back the mask, up to the known bits.
    let mask: u16 = 0b0100_0000_1101_1001;
    let field_bits = [
        (FieldFlag::Public, 0x0001u16),
        (FieldFlag::Private, 0x0002),
        (FieldFlag::Protected, 0x0004),
        (FieldFlag::Static, 0x0008),
        (FieldFlag::Final, 0x0010),
        (FieldFlag::Volatile, 0x0040),
        (FieldFlag::Transient, 0x0080),
        (FieldFlag::Synthetic, 0x1000),
        (FieldFlag::Enum, 0x4000),
    ];
    let decoded = FieldAccessFlags::new(mask);
    let mut reencoded: u16 = 0;
    for f in decoded.flags() {
        for (flag, bit) in field_bits.iter() {
            if f == flag {
                reencoded |= bit;
            }
        }
    }
    assert_eq!(reencoded, mask & 0x50df);
}

#[test]
fn long_entry_owns_two_slots() {
    let mut pool = ConstantPool::default();
    pool.add(Constant::Long(5));
    pool.add(Constant::Integer(7));

    assert_eq!(pool.get(1), Ok(&Constant::Long(5)));
    assert_eq!(pool.get(2), Err(ConstantPoolError::UnusableConstant(2)));
    assert_eq!(pool.get(3), Ok(&Constant::Integer(7)));
    assert_eq!(pool.len(), 3);
}

#[test]
fn pool_lookup_bounds() {
    let mut pool = ConstantPool::default();
    pool.add(Constant::Utf8("x".to_string()));

    assert_eq!(pool.get(0), Err(ConstantPoolError::IndexOutOfBounds(0)));
    assert_eq!(pool.get(2), Err(ConstantPoolError::IndexOutOfBounds(2)));
    assert_eq!(pool.get(1), Ok(&Constant::Utf8("x".to_string())));
}

#[test]
fn double_entry_owns_two_slots() {
    let mut pool = ConstantPool::default();
    pool.add(Constant::Double(0x4000000000000000));
    assert_eq!(pool.get(2), Err(ConstantPoolError::UnusableConstant(2)));
    assert_eq!(f64::from_bits(0x4000000000000000), 2.0);
}

#[test]
fn constant_names() {
    assert_eq!(Constant::Utf8("a".to_string()).name(), "Utf8".to_string());
    assert_eq!(Constant::NameAndType(1, 2).name(), "NameAndType".to_string());
    assert_eq!(Constant::Unusable.name(), "Unusable".to_string());
}
