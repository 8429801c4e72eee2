//! The manifest, lockfile and version documents that drive the registry,
//! and their schema-version checks.

use crate::error::BuildError;
use crate::rows::string_rows;
use crate::text::{sorted_unique, str_eq, strictly_sorted, strings_view};
use vstd::prelude::*;

verus! {

/// One manifest entry: the declared metadata of one lexicon.
#[derive(Debug, Clone, PartialEq, Eq)]
pub struct ManifestEntry {
    /// `public` or `private`.
    pub tier: String,
    /// Per-lexicon version (required; not otherwise read).
    pub lexicon_version: String,
    /// Lexicon-set version in which the lexicon was deprecated.
    pub deprecated_in: Option<String>,
    /// Successor NSID.
    pub successor: Option<String>,
    /// Whether the lexicon is exempt from the audience-list rule.
    pub audience_exempt: bool,
    /// Why it is exempt.
    pub exemption_reason: Option<String>,
}

/// The manifest: schema version and one entry per NSID, in NSID order.
#[derive(Debug, Clone, PartialEq, Eq)]
pub struct Manifest {
    /// Schema version of the manifest.
    pub manifest_version: String,
    /// The entries, keyed by NSID.
    pub lexicons: Vec<(String, ManifestEntry)>,
}

/// One lockfile entry: the metadata locked for one lexicon.
#[derive(Debug, Clone, PartialEq, Eq)]
pub struct LockEntry {
    /// Locked tier.
    pub tier_locked: String,
    /// Locked deprecation version.
    pub deprecated_in_locked: Option<String>,
    /// Locked successor.
    pub successor_locked: Option<String>,
    /// Lexicon-set version in which the lexicon first appeared.
    pub first_seen_in_lexicon_set_version: String,
}

/// The lockfile: schema version and one entry per NSID, in NSID order.
#[derive(Debug, Clone, PartialEq, Eq)]
pub struct Lockfile {
    /// Schema version of the lockfile.
    pub lock_version: String,
    /// The entries, keyed by NSID.
    pub lexicons: Vec<(String, LockEntry)>,
}

/// The lexicon-set version document.
#[derive(Debug, Clone, PartialEq, Eq)]
pub struct VersionDoc {
    /// Current lexicon-set version.
    pub version: String,
}

/// An optional string by its characters.
pub open spec fn opt_view(o: Option<String>) -> Option<Seq<char>> {
    match o {
        Some(s) => Some(s@),
        None => None,
    }
}

/// A lock entry by its characters.
pub struct LockEntryView {
    /// Locked tier.
    pub tier_locked: Seq<char>,
    /// Locked deprecation version.
    pub deprecated_in_locked: Option<Seq<char>>,
    /// Locked successor.
    pub successor_locked: Option<Seq<char>>,
    /// First-seen lexicon-set version.
    pub first_seen: Seq<char>,
}

impl View for LockEntry {
    type V = LockEntryView;

    open spec fn view(&self) -> LockEntryView {
        LockEntryView {
            tier_locked: self.tier_locked@,
            deprecated_in_locked: opt_view(self.deprecated_in_locked),
            successor_locked: opt_view(self.successor_locked),
            first_seen: self.first_seen_in_lexicon_set_version@,
        }
    }
}

/// The manifest's rows, keyed by NSID characters.
pub open spec fn manifest_rows(m: Manifest) -> Seq<(Seq<char>, ManifestEntry)> {
    string_rows(m.lexicons@)
}

/// A lockfile's rows, keyed by NSID characters.
pub open spec fn lock_rows(entries: Seq<(String, LockEntry)>) -> Seq<(Seq<char>, LockEntryView)> {
    entries.map_values(|p: (String, LockEntry)| (p.0@, p.1@))
}

/// The only schema version of manifest and lockfile that is understood.
pub open spec fn supported_schema() -> Seq<char> {
    "1.0.0"@
}

/// Accept a manifest only with the supported schema version.
pub fn check_manifest_version(m: &Manifest) -> (r: Result<(), BuildError>)
    ensures
        r is Ok <==> m.manifest_version@ == supported_schema(),
        r matches Err(e) ==> e matches BuildError::ManifestSchemaVersion(v) && v@
            == m.manifest_version@,
{
    if str_eq(m.manifest_version.as_str(), "1.0.0") {
        Ok(())
    } else {
        Err(BuildError::ManifestSchemaVersion(m.manifest_version.clone()))
    }
}

/// Accept a lockfile only with the supported schema version.
pub fn check_lock_version(l: &Lockfile) -> (r: Result<(), BuildError>)
    ensures
        r is Ok <==> l.lock_version@ == supported_schema(),
        r matches Err(e) ==> e matches BuildError::LockfileSchemaVersion(v) && v@
            == l.lock_version@,
{
    if str_eq(l.lock_version.as_str(), "1.0.0") {
        Ok(())
    } else {
        Err(BuildError::LockfileSchemaVersion(l.lock_version.clone()))
    }
}

/// Copy of an optional string.
pub fn clone_opt(o: &Option<String>) -> (r: Option<String>)
    ensures
        opt_view(r) == opt_view(*o),
{
    match o {
        Some(s) => Some(s.clone()),
        None => None,
    }
}

/// Whether two optional strings hold the same characters.
pub fn opt_eq(a: &Option<String>, b: &Option<String>) -> (r: bool)
    ensures
        r == (opt_view(*a) == opt_view(*b)),
{
    match (a, b) {
        (Some(x), Some(y)) => str_eq(x.as_str(), y.as_str()),
        (None, None) => true,
        _ => false,
    }
}

/// The NSIDs of the manifest, distinct and in code-point order.
pub fn manifest_nsids(manifest: &Manifest) -> (r: Vec<String>)
    ensures
        strictly_sorted(strings_view(r@)),
        forall|x: Seq<char>|
            strings_view(r@).contains(x) <==> exists|i: int|
                0 <= i < manifest.lexicons.len() && #[trigger] manifest.lexicons@[i].0@ == x,
{
    let mut keys: Vec<String> = Vec::new();
    for i in 0..manifest.lexicons.len()
        invariant
            keys.len() == i,
            forall|j: int| 0 <= j < i ==> #[trigger] keys@[j]@ == manifest.lexicons@[j].0@,
    {
        keys.push(manifest.lexicons[i].0.clone());
    }
    let r = sorted_unique(&keys);
    proof {
        assert forall|x: Seq<char>|
            strings_view(keys@).contains(x) <==> exists|i: int|
                0 <= i < manifest.lexicons.len() && #[trigger] manifest.lexicons@[i].0@ == x by {
            if strings_view(keys@).contains(x) {
                let j = choose|j: int| 0 <= j < keys.len() && strings_view(keys@)[j] == x;
                assert(manifest.lexicons@[j].0@ == x);
            }
            if exists|i: int| 0 <= i < manifest.lexicons.len() && #[trigger] manifest.lexicons@[i].0@ == x {
                let i = choose|i: int| 0 <= i < manifest.lexicons.len() && #[trigger] manifest.lexicons@[i].0@ == x;
                assert(strings_view(keys@)[i] == x);
            }
        }
    }
    r
}

} // verus!
