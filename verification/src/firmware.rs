//! Firmware versions.
use vstd::prelude::*;

verus! {

/// The version of a One ROM firmware.
#[derive(Debug, Clone, Copy)]
pub struct FirmwareVersion {
    pub major: u16,
    pub minor: u16,
    pub patch: u16,
    pub build: u16,
}

impl FirmwareVersion {
    /// Whether this version is `other` or later.
    pub open spec fn at_least(self, other: FirmwareVersion) -> bool {
        if self.major != other.major {
            self.major > other.major
        } else if self.minor != other.minor {
            self.minor > other.minor
        } else if self.patch != other.patch {
            self.patch > other.patch
        } else {
            self.build >= other.build
        }
    }

    /// Whether this version is `other` or later.
    pub fn is_at_least(&self, other: &FirmwareVersion) -> (r: bool)
        ensures
            r == self.at_least(*other),
    {
        if self.major != other.major {
            self.major > other.major
        } else if self.minor != other.minor {
            self.minor > other.minor
        } else if self.patch != other.patch {
            self.patch > other.patch
        } else {
            self.build >= other.build
        }
    }
}

/// Versions are in a total order: of two, one is at least the other, and both are only where they
/// are the same.
pub proof fn law_versions_ordered(a: FirmwareVersion, b: FirmwareVersion)
    ensures
        a.at_least(b) || b.at_least(a),
        a.at_least(b) && b.at_least(a) <==> a == b,
{
}

/// The first of major, minor, patch and build in which two versions differ decides, whatever
/// follows it.
pub proof fn law_versions_lexicographic(a: FirmwareVersion, b: FirmwareVersion)
    ensures
        a.major < b.major ==> !a.at_least(b) && b.at_least(a),
        a.major == b.major && a.minor < b.minor ==> !a.at_least(b) && b.at_least(a),
        a.major == b.major && a.minor == b.minor && a.patch < b.patch ==> !a.at_least(b)
            && b.at_least(a),
        a.major == b.major && a.minor == b.minor && a.patch == b.patch ==> (a.at_least(b)
            <==> a.build >= b.build),
{
}

/// A version that is at least one which is at least a third is at least the third.
pub proof fn law_versions_transitive(a: FirmwareVersion, b: FirmwareVersion, c: FirmwareVersion)
    requires
        a.at_least(b),
        b.at_least(c),
    ensures
        a.at_least(c),
{
}

} // verus!
