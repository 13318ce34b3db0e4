//! The ABI version suffix ("sover") derived from a semantic version.

use vstd::prelude::*;

use crate::strutil;
use crate::strutil::{dec_str, push_dec};

verus! {

/// How many components of the semantic version make up the ABI suffix.
#[derive(Clone, Copy, PartialEq, Eq, Structural, Debug)]
pub enum VersionSuffix {
    Major,
    MajorMinor,
    MajorMinorPatch,
}

/// A semantic version, held as its three numeric components.
#[derive(Clone, Copy, PartialEq, Eq, Structural, Debug)]
pub struct LibraryVersion {
    pub major: u64,
    pub minor: u64,
    pub patch: u64,
}

/// A dot separating two version components.
pub open spec fn dot() -> Seq<char> {
    seq!['.']
}

/// The full `major.minor.patch` rendering of a version.
pub open spec fn full_version_str(v: LibraryVersion) -> Seq<char> {
    dec_str(v.major as nat) + dot() + dec_str(v.minor as nat) + dot() + dec_str(v.patch as nat)
}

/// The ABI suffix chosen by a policy.
///
/// Without an explicit policy the suffix follows the semantic-version
/// convention: `0.0.patch` while major and minor are both zero,
/// `0.minor` while only major is zero, and `major` otherwise.
pub open spec fn sover_str(policy: Option<VersionSuffix>, v: LibraryVersion) -> Seq<char> {
    match policy {
        None => {
            if v.major == 0 && v.minor == 0 {
                dec_str(0) + dot() + dec_str(0) + dot() + dec_str(v.patch as nat)
            } else if v.major == 0 {
                dec_str(0) + dot() + dec_str(v.minor as nat)
            } else {
                dec_str(v.major as nat)
            }
        },
        Some(VersionSuffix::Major) => dec_str(v.major as nat),
        Some(VersionSuffix::MajorMinor) => dec_str(v.major as nat) + dot() + dec_str(
            v.minor as nat,
        ),
        Some(VersionSuffix::MajorMinorPatch) => full_version_str(v),
    }
}

impl LibraryVersion {
    /// Render `major.minor.patch`.
    pub fn full_version(&self) -> (s: String)
        ensures
            s@ == full_version_str(*self),
    {
        let mut s = String::new();
        push_dec(&mut s, self.major);
        strutil::push_char(&mut s, '.');
        push_dec(&mut s, self.minor);
        strutil::push_char(&mut s, '.');
        push_dec(&mut s, self.patch);
        proof {
            assert(s@ =~= full_version_str(*self));
        }
        s
    }

    /// The version suffix under the default (semantic-version) policy.
    pub fn main_version(&self) -> (s: String)
        ensures
            s@ == sover_str(None, *self),
    {
        sover(None, self)
    }
}

/// Render the ABI suffix for a version under the given policy.
pub fn sover(policy: Option<VersionSuffix>, v: &LibraryVersion) -> (s: String)
    ensures
        s@ == sover_str(policy, *v),
{
    let mut s = String::new();
    match policy {
        None => {
            if v.major == 0 && v.minor == 0 {
                push_dec(&mut s, 0);
                strutil::push_char(&mut s, '.');
                push_dec(&mut s, 0);
                strutil::push_char(&mut s, '.');
                push_dec(&mut s, v.patch);
            } else if v.major == 0 {
                push_dec(&mut s, 0);
                strutil::push_char(&mut s, '.');
                push_dec(&mut s, v.minor);
            } else {
                push_dec(&mut s, v.major);
            }
        },
        Some(VersionSuffix::Major) => {
            push_dec(&mut s, v.major);
        },
        Some(VersionSuffix::MajorMinor) => {
            push_dec(&mut s, v.major);
            strutil::push_char(&mut s, '.');
            push_dec(&mut s, v.minor);
        },
        Some(VersionSuffix::MajorMinorPatch) => {
            push_dec(&mut s, v.major);
            strutil::push_char(&mut s, '.');
            push_dec(&mut s, v.minor);
            strutil::push_char(&mut s, '.');
            push_dec(&mut s, v.patch);
        },
    }
    proof {
        assert(s@ =~= sover_str(policy, *v));
    }
    s
}

} // verus!
