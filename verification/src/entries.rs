//! Registry entries built from the manifest: tier and deprecation state of
//! each lexicon.

use crate::error::BuildError;
use crate::manifest::{clone_opt, manifest_rows, opt_view, Manifest, ManifestEntry};
use crate::registry::{entry_rows, kryphocron_lexicon_registry, registry_rows};
use crate::semver::{parse_semver, spec_parse_semver};
use crate::text::str_eq;
use crate::tier::{DeprecationState, SemVer, Tier};
use vstd::prelude::*;

verus! {

/// The deprecation state of a registry entry built from the manifest.
#[derive(Debug, Clone, PartialEq, Eq)]
pub enum RowDeprecation {
    /// Not deprecated.
    Active,
    /// Deprecated since a lexicon-set version, with an optional successor.
    Deprecated {
        /// Lexicon-set version the deprecation landed in.
        since_version: SemVer,
        /// Successor NSID, if committed.
        successor: Option<String>,
    },
}

/// A registry entry built from the manifest.
#[derive(Debug, Clone, PartialEq, Eq)]
pub struct RegistryRow {
    /// NSID of the lexicon.
    pub nsid: String,
    /// Its tier.
    pub tier: Tier,
    /// Its deprecation state.
    pub deprecation: RowDeprecation,
}

/// The tier a manifest tier string names: `public` or `private`.
pub open spec fn manifest_tier(t: Seq<char>) -> Option<Tier> {
    if t == "public"@ {
        Some(Tier::Public)
    } else if t == "private"@ {
        Some(Tier::Private)
    } else {
        None
    }
}

/// The manifest entry cannot become a registry entry: its tier is unknown
/// or its deprecation version is not `major.minor.patch`.
pub open spec fn row_violated(me: ManifestEntry) -> bool {
    manifest_tier(me.tier@) is None || (me.deprecated_in matches Some(d) && spec_parse_semver(d@)
        is None)
}

/// The message for a deprecation version that is not a semver.
pub open spec fn bad_semver_message(version: Seq<char>, nsid: Seq<char>) -> Seq<char> {
    "deprecated_in `"@ + version + "` on `"@ + nsid + "` is not a valid semver"@
}

/// `e` reports why the manifest entry of `nsid` cannot become a registry
/// entry, the tier first.
pub open spec fn row_error(e: BuildError, nsid: Seq<char>, me: ManifestEntry) -> bool {
    if manifest_tier(me.tier@) is None {
        e matches BuildError::UnknownTier(t) && t@ == me.tier@
    } else {
        e matches BuildError::ManifestParse(msg) && msg@ == bad_semver_message(
            me.deprecated_in.unwrap()@,
            nsid,
        )
    }
}

/// `row` is the registry entry of the manifest entry `me` of `nsid`: its
/// tier, and active unless a deprecation version is given, in which case
/// deprecated since that version with the manifest's successor.
pub open spec fn row_for(row: RegistryRow, nsid: Seq<char>, me: ManifestEntry) -> bool {
    &&& row.nsid@ == nsid
    &&& Some(row.tier) == manifest_tier(me.tier@)
    &&& match me.deprecated_in {
        None => row.deprecation is Active,
        Some(d) => row.deprecation matches RowDeprecation::Deprecated { since_version: v, successor }
            && spec_parse_semver(d@) == Some((v.major, v.minor, v.patch)) && opt_view(successor)
            == opt_view(me.successor),
    }
}

/// The tier a manifest tier string names.
pub fn tier_from_manifest(t: &str) -> (r: Option<Tier>)
    ensures
        r == manifest_tier(t@),
{
    if str_eq(t, "public") {
        Some(Tier::Public)
    } else if str_eq(t, "private") {
        Some(Tier::Private)
    } else {
        None
    }
}

/// The registry entries of the manifest, one per entry in manifest order.
///
/// # Errors
///
/// For the first entry that cannot become a registry entry,
/// [`BuildError::UnknownTier`] for a tier other than `public` or
/// `private`, else [`BuildError::ManifestParse`] for a deprecation version
/// that is not `major.minor.patch`.
pub fn registry_entries_for(manifest: &Manifest) -> (r: Result<Vec<RegistryRow>, BuildError>)
    ensures
        ({
            let rows = manifest_rows(*manifest);
            &&& r is Ok <==> forall|i: int| 0 <= i < rows.len() ==> !row_violated(#[trigger] rows[i].1)
            &&& r matches Ok(v) ==> v.len() == rows.len() && forall|i: int|
                0 <= i < rows.len() ==> row_for(#[trigger] v@[i], rows[i].0, rows[i].1)
            &&& r matches Err(e) ==> exists|i: int|
                0 <= i < rows.len() && row_violated(#[trigger] rows[i].1) && (forall|j: int|
                    0 <= j < i ==> !row_violated(#[trigger] rows[j].1)) && row_error(
                    e,
                    rows[i].0,
                    rows[i].1,
                )
        }),
{
    let ghost rows = manifest_rows(*manifest);
    let mut out: Vec<RegistryRow> = Vec::new();
    for i in 0..manifest.lexicons.len()
        invariant
            rows == manifest_rows(*manifest),
            out.len() == i,
            forall|j: int| 0 <= j < i ==> !row_violated(#[trigger] rows[j].1),
            forall|j: int| 0 <= j < i ==> row_for(#[trigger] out@[j], rows[j].0, rows[j].1),
    {
        let nsid = &manifest.lexicons[i].0;
        let entry = &manifest.lexicons[i].1;
        assert(rows[i as int].0 == nsid@ && rows[i as int].1 == *entry);
        let tier = match tier_from_manifest(entry.tier.as_str()) {
            Some(t) => t,
            None => {
                let e = BuildError::UnknownTier(entry.tier.clone());
                assert(row_violated(rows[i as int].1));
                return Err(e);
            },
        };
        let deprecation = match &entry.deprecated_in {
            None => RowDeprecation::Active,
            Some(ver) => match parse_semver(ver.as_str()) {
                Some((major, minor, patch)) => RowDeprecation::Deprecated {
                    since_version: SemVer::new(major, minor, patch),
                    successor: clone_opt(&entry.successor),
                },
                None => {
                    let mut msg = String::from_str("deprecated_in `");
                    msg.append(ver.as_str());
                    msg.append("` on `");
                    msg.append(nsid.as_str());
                    msg.append("` is not a valid semver");
                    assert(msg@ =~= bad_semver_message(ver@, nsid@));
                    assert(row_violated(rows[i as int].1));
                    return Err(BuildError::ManifestParse(msg));
                },
            },
        };
        out.push(RegistryRow { nsid: nsid.clone(), tier, deprecation });
    }
    Ok(out)
}

/// The manifest entry and the registry entry at position `i` disagree: one
/// of them is missing, or their NSIDs, their tiers or their deprecation
/// states differ (every registry entry is active).
pub open spec fn registry_differs_at(rows: Seq<(Seq<char>, ManifestEntry)>, i: int) -> bool {
    let reg = registry_rows();
    ||| i >= rows.len()
    ||| i >= reg.len()
    ||| rows[i].0 != reg[i].0
    ||| manifest_tier(rows[i].1.tier@) != Some(reg[i].1)
    ||| rows[i].1.deprecated_in is Some
}

/// The manifest describes the registry: entry for entry, the same NSIDs
/// in the same order, with the same tiers and deprecation states.
pub open spec fn manifest_matches_registry(rows: Seq<(Seq<char>, ManifestEntry)>) -> bool {
    &&& rows.len() == registry_rows().len()
    &&& forall|i: int| 0 <= i < rows.len() ==> !registry_differs_at(rows, i)
}

/// Check that the registry is the one the manifest describes.
///
/// # Errors
///
/// [`BuildError::RegistryMismatch`] with the NSID at the first position
/// where the two disagree: the manifest's NSID there if it has one, else
/// the registry's.
pub fn registry_matches_manifest(manifest: &Manifest) -> (r: Result<(), BuildError>)
    ensures
        r is Ok <==> manifest_matches_registry(manifest_rows(*manifest)),
        r matches Err(e) ==> exists|i: int|
            {
                &&& 0 <= i
                &&& registry_differs_at(manifest_rows(*manifest), i)
                &&& forall|j: int| 0 <= j < i ==> !registry_differs_at(manifest_rows(*manifest), j)
                &&& e matches BuildError::RegistryMismatch(n) && n@ == (if i < manifest_rows(
                    *manifest,
                ).len() {
                    manifest_rows(*manifest)[i].0
                } else {
                    registry_rows()[i].0
                })
            },
{
    let ghost rows = manifest_rows(*manifest);
    let reg = kryphocron_lexicon_registry();
    let ghost regs = registry_rows();
    let n = manifest.lexicons.len();
    let m = reg.len();
    let top = if n < m { m } else { n };
    for i in 0..top
        invariant
            rows == manifest_rows(*manifest),
            regs == registry_rows(),
            entry_rows(reg@) == regs,
            forall|k: int| 0 <= k < reg.len() ==> reg@[k].deprecation == DeprecationState::Active,
            n == manifest.lexicons.len(),
            m == reg.len(),
            top == if n < m { m } else { n },
            forall|j: int| 0 <= j < i ==> !registry_differs_at(rows, j),
    {
        assert(rows.len() == n && regs.len() == m);
        if i >= n {
            assert(registry_differs_at(rows, i as int));
            return Err(BuildError::RegistryMismatch(String::from_str(reg[i].nsid)));
        }
        let nsid = &manifest.lexicons[i].0;
        let entry = &manifest.lexicons[i].1;
        assert(rows[i as int].0 == nsid@ && rows[i as int].1 == *entry);
        if i >= m {
            assert(registry_differs_at(rows, i as int));
            return Err(BuildError::RegistryMismatch(nsid.clone()));
        }
        let e = reg[i];
        assert(regs[i as int] == (e.nsid@, e.tier));
        let same_tier = match tier_from_manifest(entry.tier.as_str()) {
            Some(t) => t == e.tier,
            None => false,
        };
        if !str_eq(nsid.as_str(), e.nsid) || !same_tier || entry.deprecated_in.is_some() {
            assert(registry_differs_at(rows, i as int));
            return Err(BuildError::RegistryMismatch(nsid.clone()));
        }
    }
    assert(rows.len() == n && regs.len() == m);
    proof {
        if n != m {
            let k: int = if n < m { n as int } else { m as int };
            assert(registry_differs_at(rows, k));
        }
    }
    Ok(())
}

/// Whether a manifest matches the registry depends only on each entry's
/// NSID, tier and deprecation version: two manifests that agree on those,
/// entry for entry, both match or both fail, whatever their audience
/// exemptions, exemption reasons, successors and lexicon versions.
pub proof fn law_registry_match_reads_only_registry_facts(
    rows1: Seq<(Seq<char>, ManifestEntry)>,
    rows2: Seq<(Seq<char>, ManifestEntry)>,
)
    requires
        rows1.len() == rows2.len(),
        forall|i: int|
            0 <= i < rows1.len() ==> (#[trigger] rows1[i]).0 == rows2[i].0 && rows1[i].1.tier@
                == rows2[i].1.tier@ && opt_view(rows1[i].1.deprecated_in) == opt_view(
                rows2[i].1.deprecated_in,
            ),
    ensures
        manifest_matches_registry(rows1) <==> manifest_matches_registry(rows2),
{
    assert forall|i: int| 0 <= i < rows1.len() implies (registry_differs_at(rows1, i)
        <==> registry_differs_at(rows2, i)) by {
        assert(rows1[i].0 == rows2[i].0);
    }
}

/// A manifest entry for entry like the registry, each with the registry's
/// NSID and tier and no deprecation, matches it, whatever else it says.
pub proof fn law_registry_shaped_manifest_matches(rows: Seq<(Seq<char>, ManifestEntry)>)
    requires
        rows.len() == registry_rows().len(),
        forall|i: int|
            0 <= i < rows.len() ==> (#[trigger] rows[i]).0 == registry_rows()[i].0 && manifest_tier(
                rows[i].1.tier@,
            ) == Some(registry_rows()[i].1) && rows[i].1.deprecated_in is None,
    ensures
        manifest_matches_registry(rows),
{
    assert forall|i: int| 0 <= i < rows.len() implies !registry_differs_at(rows, i) by {
        assert(rows[i].0 == registry_rows()[i].0);
    }
}

/// A manifest that matches the registry builds the registry: every entry
/// becomes a registry entry, and the entry built for position `i` has the
/// registry's NSID and tier there and is active.
pub proof fn law_matching_manifest_builds_registry(manifest: Manifest, row: RegistryRow, i: int)
    requires
        manifest_matches_registry(manifest_rows(manifest)),
        0 <= i < manifest_rows(manifest).len(),
        row_for(row, manifest_rows(manifest)[i].0, manifest_rows(manifest)[i].1),
    ensures
        forall|j: int|
            0 <= j < manifest_rows(manifest).len() ==> !row_violated(
                #[trigger] manifest_rows(manifest)[j].1,
            ),
        row.nsid@ == registry_rows()[i].0,
        row.tier == registry_rows()[i].1,
        row.deprecation is Active,
{
    let rows = manifest_rows(manifest);
    assert forall|j: int| 0 <= j < rows.len() implies !row_violated(#[trigger] rows[j].1) by {
        assert(!registry_differs_at(rows, j));
    }
    assert(!registry_differs_at(rows, i));
}

} // verus!
