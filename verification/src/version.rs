use vstd::prelude::*;

verus! {

/// A kernel version as a `(major, minor, patch)` triple, compared
/// lexicographically.
#[derive(Clone, Copy, Debug, PartialEq, Eq, Structural)]
pub struct KernelVersion {
    pub major: u32,
    pub minor: u32,
    pub patch: u32,
}

/// Lexicographic order on version triples: `a` is at least `b`.
pub open spec fn version_ge(a: KernelVersion, b: KernelVersion) -> bool {
    ||| a.major > b.major
    ||| (a.major == b.major && a.minor > b.minor)
    ||| (a.major == b.major && a.minor == b.minor && a.patch >= b.patch)
}

impl KernelVersion {
    pub fn new(major: u32, minor: u32, patch: u32) -> (v: KernelVersion)
        ensures
            v == (KernelVersion { major, minor, patch }),
    {
        KernelVersion { major, minor, patch }
    }

    /// True when `self` is at least `other` in lexicographic order.
    pub fn at_least(&self, other: &KernelVersion) -> (r: bool)
        ensures
            r == version_ge(*self, *other),
    {
        if self.major != other.major {
            self.major > other.major
        } else if self.minor != other.minor {
            self.minor > other.minor
        } else {
            self.patch >= other.patch
        }
    }
}

} // verus!
