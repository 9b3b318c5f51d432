//! The single-step release computation: given the current version and the
//! bump category the commit history demands, produce the next version.

use vstd::prelude::*;
use crate::version::Version;
use crate::version::VersionError;
use crate::version::spec_version_chars;
use crate::version::spec_version_of;
use crate::version::valid_version_chars;
use crate::version_calculator::calculate_version_type;
use crate::version_calculator::spec_classify;
use crate::version_type::VersionType;

verus! {

/// The error returned when incrementing a version component would exceed
/// the representable range.
#[derive(Debug, Clone, Copy, PartialEq, Eq, Structural)]
pub struct VersionOverflowError {}

/// Everything that can go wrong while computing a release.
#[derive(Debug, Clone, Copy, PartialEq, Eq, Structural)]
pub enum ReleaseError {
    /// The manifest text is not well-formed JSON.
    ManifestParse,
    /// The manifest has no string-valued `version` field.
    MissingVersion,
    /// The current version string is not three dot-separated numbers.
    VersionFormat,
    /// Incrementing the version would overflow a component.
    VersionOverflow,
    /// The updated manifest could not be written back into the document.
    ManifestWrite,
}

/// The component to be incremented has room left.
pub open spec fn spec_can_bump(v: Version, bump: VersionType) -> bool {
    match bump {
        VersionType::Major => v.major < u32::MAX,
        VersionType::Minor => v.minor < u32::MAX,
        VersionType::Patch => v.patch < u32::MAX,
    }
}

/// The next version: a major bump increments `major` and zeroes the rest,
/// a minor bump increments `minor` and zeroes `patch`, a patch bump
/// increments `patch` alone.
pub open spec fn spec_next_version(v: Version, bump: VersionType) -> Version {
    match bump {
        VersionType::Major => Version { major: (v.major + 1) as u32, minor: 0, patch: 0 },
        VersionType::Minor => Version { major: v.major, minor: (v.minor + 1) as u32, patch: 0 },
        VersionType::Patch => Version {
            major: v.major,
            minor: v.minor,
            patch: (v.patch + 1) as u32,
        },
    }
}

/// Computes the version after `current`, given the bump category. Fails
/// exactly when the component to be incremented is already at `u32::MAX`;
/// the increment never wraps.
pub fn compute_next(current: &Version, bump: VersionType) -> (r: Result<
    Version,
    VersionOverflowError,
>)
    ensures
        r is Ok <==> spec_can_bump(*current, bump),
        r is Ok ==> r->Ok_0 == spec_next_version(*current, bump),
{
    match bump {
        VersionType::Major => {
            if current.major == u32::MAX {
                Err(VersionOverflowError {})
            } else {
                Ok(Version { major: current.major + 1, minor: 0, patch: 0 })
            }
        },
        VersionType::Minor => {
            if current.minor == u32::MAX {
                Err(VersionOverflowError {})
            } else {
                Ok(Version { major: current.major, minor: current.minor + 1, patch: 0 })
            }
        },
        VersionType::Patch => {
            if current.patch == u32::MAX {
                Err(VersionOverflowError {})
            } else {
                Ok(
                    Version {
                        major: current.major,
                        minor: current.minor,
                        patch: current.patch + 1,
                    },
                )
            }
        },
    }
}

/// The release pipeline on plain values: parses the current version
/// string, classifies the commit messages, bumps the version, and renders
/// the result. Fails with `VersionFormat` exactly when the current version
/// string is malformed, and with `VersionOverflow` exactly when the bumped
/// component is already at its maximum.
pub fn next_version_string(current: &str, messages: &Vec<String>) -> (r: Result<
    String,
    ReleaseError,
>)
    ensures
        ({
            let bump = spec_classify(messages.deep_view());
            &&& r is Ok <==> (valid_version_chars(current@) && spec_can_bump(
                spec_version_of(current@),
                bump,
            ))
            &&& r is Ok ==> r->Ok_0@ == spec_version_chars(
                spec_next_version(spec_version_of(current@), bump),
            )
            &&& !valid_version_chars(current@) ==> r == Result::<String, ReleaseError>::Err(
                ReleaseError::VersionFormat,
            )
            &&& valid_version_chars(current@) && !spec_can_bump(spec_version_of(current@), bump)
                ==> r == Result::<String, ReleaseError>::Err(ReleaseError::VersionOverflow)
        }),
{
    let version = match Version::from_str(current) {
        Ok(v) => v,
        Err(VersionError {  }) => {
            return Err(ReleaseError::VersionFormat);
        },
    };
    let bump = calculate_version_type(messages);
    let next = match compute_next(&version, bump) {
        Ok(v) => v,
        Err(VersionOverflowError {  }) => {
            return Err(ReleaseError::VersionOverflow);
        },
    };
    Ok(next.to_version_string())
}

} // verus!
