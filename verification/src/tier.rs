//! Tier vocabulary: the classification of records into public and private
//! tiers, the visibility verdicts, semver triplets and deprecation states.

use proto_blue_syntax::Nsid;
use vstd::prelude::*;

verus! {

/// Tier classification for substrate-managed records.
#[non_exhaustive]
#[derive(Debug, Clone, Copy, PartialEq, Eq, Hash, Structural)]
pub enum Tier {
    /// Public-tier records. Visible to anyone.
    Public,
    /// Private-tier records. Visible only to authorized audiences.
    Private,
}

/// Result of a viewer-vs-tier visibility predicate.
///
/// `Hidden` and `Forbidden` are distinct internally but collapse to
/// byte-identical responses at the wire layer.
#[non_exhaustive]
#[derive(Debug, Clone, Copy, PartialEq, Eq, Hash, Structural)]
pub enum Visibility {
    /// Viewer is authorized.
    Visible,
    /// Viewer is not in the resource's audience.
    Hidden,
    /// Viewer is policy-forbidden.
    Forbidden,
}

impl Visibility {
    /// True iff the viewer may read: only `Visible` grants a read.
    #[must_use]
    pub fn allows_read(self) -> (r: bool)
        ensures
            r <==> self == Visibility::Visible,
    {
        match self {
            Visibility::Visible => true,
            _ => false,
        }
    }
}

/// An NSID not present in the closed-namespace registry.
#[derive(Debug, Clone, PartialEq, Eq)]
#[non_exhaustive]
pub enum UnknownNsid {
    /// The NSID was not present in the closed-namespace registry.
    NotRegistered(Nsid),
}

/// Semver triplet used in deprecation state.
#[derive(Debug, Clone, Copy, PartialEq, Eq, Hash, Structural)]
pub struct SemVer {
    /// Major version.
    pub major: u32,
    /// Minor version.
    pub minor: u32,
    /// Patch version.
    pub patch: u32,
}

impl SemVer {
    /// Construct a [`SemVer`] from major/minor/patch.
    #[must_use]
    pub fn new(major: u32, minor: u32, patch: u32) -> (v: SemVer)
        ensures
            v.major == major,
            v.minor == minor,
            v.patch == patch,
    {
        SemVer { major, minor, patch }
    }
}

/// Per-NSID deprecation state.
#[non_exhaustive]
#[derive(Debug, Clone, Copy, PartialEq, Eq, Hash)]
pub enum DeprecationState {
    /// Active; writes and reads both proceed normally.
    Active,
    /// Deprecated; writes rejected; reads proceed.
    Deprecated {
        /// Lexicon-set version the deprecation landed in.
        since_version: SemVer,
        /// Successor NSID, if committed.
        successor: Option<&'static str>,
    },
    /// Deprecated but inside an operator-configured grace window.
    /// Writes proceed; switches to `Deprecated` after `grace_until`.
    DeprecatedWithGrace {
        /// Lexicon-set version the deprecation landed in.
        since_version: SemVer,
        /// When grace ends, as UTC seconds since the UNIX epoch.
        grace_until_unix_seconds: i64,
        /// Successor NSID, if committed.
        successor: Option<&'static str>,
    },
}

/// One entry of the lexicon registry.
#[non_exhaustive]
#[derive(Debug, Clone, Copy)]
pub struct LexiconRegistryEntry {
    /// NSID of the lexicon.
    pub nsid: &'static str,
    /// Tier classification (immutable).
    pub tier: Tier,
    /// Current deprecation state.
    pub deprecation: DeprecationState,
}

} // verus!
