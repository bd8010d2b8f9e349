//! [`Version`]: a release number that parses, prints and compares.
use vstd::prelude::*;
use crate::text::{decimal, push_char, push_decimal};

verus! {

/// A `major.minor.patch` release number.
#[derive(Clone, Copy, Debug, PartialEq, Eq, Structural)]
pub struct Version {
    pub major: u16,
    pub minor: u16,
    pub patch: u16,
}

/// `a` comes strictly after `b` in release order.
pub open spec fn version_newer(a: Version, b: Version) -> bool {
    a.major > b.major || (a.major == b.major && (a.minor > b.minor || (a.minor == b.minor
        && a.patch > b.patch)))
}

/// The printed form `major.minor.patch`.
pub open spec fn version_text(v: Version) -> Seq<char> {
    decimal(v.major as nat) + seq!['.'] + decimal(v.minor as nat) + seq!['.'] + decimal(
        v.patch as nat,
    )
}

/// The version of this crate's contract vocabulary.
pub open spec fn spec_this_version() -> Version {
    Version { major: 0, minor: 2, patch: 0 }
}

/// The version of this crate, the upper bound for every `since` it accepts.
pub fn this_version() -> (r: Version)
    ensures
        r == spec_this_version(),
{
    Version { major: 0, minor: 2, patch: 0 }
}

impl Version {
    /// A version from its three components.
    pub fn new(major: u16, minor: u16, patch: u16) -> (r: Version)
        ensures
            r == (Version { major, minor, patch }),
    {
        Version { major, minor, patch }
    }

    /// Whether `self` comes strictly after `other`.
    pub fn is_newer_than(&self, other: &Version) -> (r: bool)
        ensures
            r == version_newer(*self, *other),
    {
        self.major > other.major || (self.major == other.major && (self.minor > other.minor || (
        self.minor == other.minor && self.patch > other.patch)))
    }

    /// Appends the printed form to `out`.
    pub fn push_text(&self, out: &mut String)
        ensures
            final(out)@ == old(out)@ + version_text(*self),
    {
        push_decimal(out, self.major as u64);
        push_char(out, '.');
        push_decimal(out, self.minor as u64);
        push_char(out, '.');
        push_decimal(out, self.patch as u64);
        assert(final(out)@ =~= old(out)@ + version_text(*self));
    }

    /// The printed form, e.g. `0.2.0`.
    pub fn to_text(&self) -> (r: String)
        ensures
            r@ == version_text(*self),
    {
        let mut s = String::new();
        self.push_text(&mut s);
        assert(s@ =~= version_text(*self));
        s
    }
}

} // verus!
