//! The class file version word: a major version drawn from the known
//! Java SE releases, and a minor version constrained by the major one.

use vstd::prelude::*;

verus! {

/// How a version word can be rejected.
#[derive(Debug, Clone, Copy, PartialEq, Eq, Structural)]
pub enum FileVersionError {
    /// The major version is outside the supported range (45 through 67).
    UnsupportedMajorVersion(u16),
    /// The minor version is not allowed for this major version; the
    /// fields carry the major and the minor.
    UnsupportedMinorVersion(u16, u16),
}

/// The Java SE release a major version number stands for.
#[allow(non_camel_case_types)]
#[derive(Debug, Clone, Copy, PartialEq, Eq, Structural)]
pub enum MajorVersion {
    JavaSE_1_1,
    JavaSE_1_2,
    JavaSE_1_3,
    JavaSE_1_4,
    JavaSE_5_0,
    JavaSE_6,
    JavaSE_7,
    JavaSE_8,
    JavaSE_9,
    JavaSE_10,
    JavaSE_11,
    JavaSE_12,
    JavaSE_13,
    JavaSE_14,
    JavaSE_15,
    JavaSE_16,
    JavaSE_17,
    JavaSE_18,
    JavaSE_19,
    JavaSE_20,
    JavaSE_21,
    JavaSE_22,
    JavaSE_23,
}

/// The release for major version `value`, or the error for any other number.
pub open spec fn spec_major_version(value: u16) -> Result<MajorVersion, FileVersionError> {
    if value == 45 {
        Ok(MajorVersion::JavaSE_1_1)
    } else if value == 46 {
        Ok(MajorVersion::JavaSE_1_2)
    } else if value == 47 {
        Ok(MajorVersion::JavaSE_1_3)
    } else if value == 48 {
        Ok(MajorVersion::JavaSE_1_4)
    } else if value == 49 {
        Ok(MajorVersion::JavaSE_5_0)
    } else if value == 50 {
        Ok(MajorVersion::JavaSE_6)
    } else if value == 51 {
        Ok(MajorVersion::JavaSE_7)
    } else if value == 52 {
        Ok(MajorVersion::JavaSE_8)
    } else if value == 53 {
        Ok(MajorVersion::JavaSE_9)
    } else if value == 54 {
        Ok(MajorVersion::JavaSE_10)
    } else if value == 55 {
        Ok(MajorVersion::JavaSE_11)
    } else if value == 56 {
        Ok(MajorVersion::JavaSE_12)
    } else if value == 57 {
        Ok(MajorVersion::JavaSE_13)
    } else if value == 58 {
        Ok(MajorVersion::JavaSE_14)
    } else if value == 59 {
        Ok(MajorVersion::JavaSE_15)
    } else if value == 60 {
        Ok(MajorVersion::JavaSE_16)
    } else if value == 61 {
        Ok(MajorVersion::JavaSE_17)
    } else if value == 62 {
        Ok(MajorVersion::JavaSE_18)
    } else if value == 63 {
        Ok(MajorVersion::JavaSE_19)
    } else if value == 64 {
        Ok(MajorVersion::JavaSE_20)
    } else if value == 65 {
        Ok(MajorVersion::JavaSE_21)
    } else if value == 66 {
        Ok(MajorVersion::JavaSE_22)
    } else if value == 67 {
        Ok(MajorVersion::JavaSE_23)
    } else {
        Err(FileVersionError::UnsupportedMajorVersion(value))
    }
}

impl MajorVersion {
    pub fn try_from(value: u16) -> (r: Result<MajorVersion, FileVersionError>)
        ensures
            r == spec_major_version(value),
    {
        match value {
            45 => Ok(MajorVersion::JavaSE_1_1),
            46 => Ok(MajorVersion::JavaSE_1_2),
            47 => Ok(MajorVersion::JavaSE_1_3),
            48 => Ok(MajorVersion::JavaSE_1_4),
            49 => Ok(MajorVersion::JavaSE_5_0),
            50 => Ok(MajorVersion::JavaSE_6),
            51 => Ok(MajorVersion::JavaSE_7),
            52 => Ok(MajorVersion::JavaSE_8),
            53 => Ok(MajorVersion::JavaSE_9),
            54 => Ok(MajorVersion::JavaSE_10),
            55 => Ok(MajorVersion::JavaSE_11),
            56 => Ok(MajorVersion::JavaSE_12),
            57 => Ok(MajorVersion::JavaSE_13),
            58 => Ok(MajorVersion::JavaSE_14),
            59 => Ok(MajorVersion::JavaSE_15),
            60 => Ok(MajorVersion::JavaSE_16),
            61 => Ok(MajorVersion::JavaSE_17),
            62 => Ok(MajorVersion::JavaSE_18),
            63 => Ok(MajorVersion::JavaSE_19),
            64 => Ok(MajorVersion::JavaSE_20),
            65 => Ok(MajorVersion::JavaSE_21),
            66 => Ok(MajorVersion::JavaSE_22),
            67 => Ok(MajorVersion::JavaSE_23),
            _ => Err(FileVersionError::UnsupportedMajorVersion(value)),
        }
    }
}

/// A validated (major, minor) version pair.
#[derive(Debug, Clone, Copy, PartialEq, Eq, Structural)]
pub struct ClassFileVersion(pub MajorVersion, pub u16);

/// Whether `minor` is allowed beside `major`: major 45 admits minors 0
/// through 2, majors 46 through 55 admit only 0, and majors from 56 on
/// admit 0 and 65535.
pub open spec fn spec_minor_allowed(major: u16, minor: u16) -> bool {
    if major == 45 {
        minor <= 2
    } else if major < 56 {
        minor == 0
    } else {
        minor == 0 || minor == 65535
    }
}

/// The validated version for the raw pair, or the error rejecting it.
pub open spec fn spec_version(major: u16, minor: u16) -> Result<
    ClassFileVersion,
    FileVersionError,
> {
    match spec_major_version(major) {
        Err(e) => Err(e),
        Ok(mv) => if spec_minor_allowed(major, minor) {
            Ok(ClassFileVersion(mv, minor))
        } else {
            Err(FileVersionError::UnsupportedMinorVersion(major, minor))
        },
    }
}

impl ClassFileVersion {
    pub fn from(major: u16, minor: u16) -> (r: Result<ClassFileVersion, FileVersionError>)
        ensures
            r == spec_version(major, minor),
    {
        let major_version = MajorVersion::try_from(major)?;
        let minor_allowed = if major == 45 {
            minor <= 2
        } else if major < 56 {
            minor == 0
        } else {
            minor == 0 || minor == 65535
        };
        if minor_allowed {
            Ok(ClassFileVersion(major_version, minor))
        } else {
            Err(FileVersionError::UnsupportedMinorVersion(major, minor))
        }
    }
}

} // verus!
