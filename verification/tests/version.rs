use rsjvm::class_file_version::{ClassFileVersion, FileVersionError, MajorVersion};

#[test]
fn class_file_version_test_major_success() {
    assert_eq!(MajorVersion::try_from(50), Ok(MajorVersion::JavaSE_6));
}

#[test]
fn class_file_version_test_major_error() {
    assert_eq!(
        MajorVersion::try_from(777),
        Err(FileVersionError::UnsupportedMajorVersion(777))
    );
}

#[test]
fn class_file_version_test_minor_success() {
    assert!(ClassFileVersion::from(45, 3).is_err());
}

#[test]
fn class_file_version_test_minor_unsupported_minor_error() {
    assert_eq!(
        ClassFileVersion::from(65, 555),
        Err(FileVersionError::UnsupportedMinorVersion(65, 555))
    );
}

#[test]
fn minor_zero_accepted_for_every_major() {
    for major in 45..=67u16 {
        assert_eq!(
            ClassFileVersion::from(major, 0),
            Ok(ClassFileVersion(MajorVersion::try_from(major).unwrap(), 0))
        );
    }
}

#[test]
fn minor_rules_per_major_band() {
    // Major 45 admits minors 0 through 2.
    assert_eq!(
        ClassFileVersion::from(45, 2),
        Ok(ClassFileVersion(MajorVersion::JavaSE_1_1, 2))
    );
    // Later majors before 56 admit only minor 0.
    assert_eq!(
        ClassFileVersion::from(50, 1),
        Err(FileVersionError::UnsupportedMinorVersion(50, 1))
    );
    // Majors from 56 on admit 0 and 65535.
    assert_eq!(
        ClassFileVersion::from(61, 65535),
        Ok(ClassFileVersion(MajorVersion::JavaSE_17, 65535))
    );
    assert_eq!(
        ClassFileVersion::from(61, 1),
        Err(FileVersionError::UnsupportedMinorVersion(61, 1))
    );
}
