//! Versions of Inno Setup and their comparison with thresholds.
use vstd::prelude::*;

verus! {

/// The version of Inno Setup that produced an installer.
#[derive(Debug, Clone, Copy, PartialEq, Eq, Structural)]
pub struct InnoVersion {
    pub major: u8,
    pub minor: u8,
    pub patch: u8,
    pub revision: u8,
    /// Produced by the ISX fork.
    pub isx: bool,
}

/// Whether the triple `(a.0, a.1, a.2)` is at least `(b.0, b.1, b.2)` in the
/// order of versions: by major, then minor, then patch.
pub open spec fn triple_at_least(a: (u8, u8, u8), b: (u8, u8, u8)) -> bool {
    a.0 > b.0 || (a.0 == b.0 && (a.1 > b.1 || (a.1 == b.1 && a.2 >= b.2)))
}

impl InnoVersion {
    /// A version of the main line.
    pub fn new(major: u8, minor: u8, patch: u8, revision: u8) -> (version: Self)
        ensures
            version == (InnoVersion { major, minor, patch, revision, isx: false }),
    {
        InnoVersion { major, minor, patch, revision, isx: false }
    }

    pub open spec fn triple(&self) -> (u8, u8, u8) {
        (self.major, self.minor, self.patch)
    }

    /// Whether this version is `major.minor.patch` or later.
    pub open spec fn since(&self, major: u8, minor: u8, patch: u8) -> bool {
        triple_at_least(self.triple(), (major, minor, patch))
    }

    /// Whether this version is `major.minor.patch` or later. The revision and
    /// the fork do not count.
    pub fn at_least(&self, major: u8, minor: u8, patch: u8) -> (result: bool)
        ensures
            result == self.since(major, minor, patch),
    {
        self.major > major || (self.major == major && (self.minor > minor || (self.minor == minor
            && self.patch >= patch)))
    }

    /// Whether the ISX fork produced the installer.
    pub fn is_isx(&self) -> (result: bool)
        ensures
            result == self.isx,
    {
        self.isx
    }
}

/// A later threshold asks more: a version that reaches it reaches every
/// earlier one.
pub proof fn lemma_since_monotone(v: InnoVersion, lo: (u8, u8, u8), hi: (u8, u8, u8))
    requires
        triple_at_least(hi, lo),
        v.since(hi.0, hi.1, hi.2),
    ensures
        v.since(lo.0, lo.1, lo.2),
{
}

} // verus!
