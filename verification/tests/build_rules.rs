//! The build-time consistency rules on concrete manifests and lockfiles.

use kryphocron_lexicons::lexicon::{AudienceListShape, MainShape, ParsedLexicon};
use kryphocron_lexicons::audience::validate_private_tier_audience_refs;
use kryphocron_lexicons::consistency::three_way_consistency_check;
use kryphocron_lexicons::entries::{
    registry_entries_for, registry_matches_manifest, tier_from_manifest, RowDeprecation,
};
use kryphocron_lexicons::lockfile::{lockfile_is_stale, validate_lockfile};
use kryphocron_lexicons::manifest::{
    check_lock_version, check_manifest_version, manifest_nsids, LockEntry, Lockfile, Manifest,
    ManifestEntry, VersionDoc,
};
use kryphocron_lexicons::semver::parse_semver;
use kryphocron_lexicons::{kryphocron_lexicon_registry, BuildError, SemVer, Tier};

fn s(x: &str) -> String {
    x.to_string()
}

fn entry(tier: &str, deprecated_in: Option<&str>, successor: Option<&str>) -> ManifestEntry {
    ManifestEntry {
        tier: s(tier),
        lexicon_version: s("1.0.0"),
        deprecated_in: deprecated_in.map(s),
        successor: successor.map(s),
        audience_exempt: false,
        exemption_reason: None,
    }
}

fn manifest(entries: Vec<(&str, ManifestEntry)>) -> Manifest {
    Manifest {
        manifest_version: s("1.0.0"),
        lexicons: entries.into_iter().map(|(k, v)| (s(k), v)).collect(),
    }
}

fn lock(tier: &str, deprecated_in: Option<&str>, successor: Option<&str>, first: &str) -> LockEntry {
    LockEntry {
        tier_locked: s(tier),
        deprecated_in_locked: deprecated_in.map(s),
        successor_locked: successor.map(s),
        first_seen_in_lexicon_set_version: s(first),
    }
}

fn lockfile(entries: Vec<(&str, LockEntry)>) -> Lockfile {
    Lockfile {
        lock_version: s("1.0.0"),
        lexicons: entries.into_iter().map(|(k, v)| (s(k), v)).collect(),
    }
}

fn version(v: &str) -> VersionDoc {
    VersionDoc { version: s(v) }
}

const LIKE: &str = "tools.kryphocron.feed.like";
const MUTE: &str = "tools.kryphocron.graph.mute";
const AUDIENCE: &str = "tools.kryphocron.policy.audience";

#[test]
fn schema_versions_other_than_1_0_0_are_refused() {
    let mut m = manifest(vec![]);
    assert!(check_manifest_version(&m).is_ok());
    m.manifest_version = s("2.0.0");
    match check_manifest_version(&m) {
        Err(BuildError::ManifestSchemaVersion(v)) => assert_eq!(v, "2.0.0"),
        other => panic!("{other:?}"),
    }
    let mut l = lockfile(vec![]);
    assert!(check_lock_version(&l).is_ok());
    l.lock_version = s("1.0");
    match check_lock_version(&l) {
        Err(BuildError::LockfileSchemaVersion(v)) => assert_eq!(v, "1.0"),
        other => panic!("{other:?}"),
    }
}

#[test]
fn first_build_locks_every_lexicon_at_the_current_version() {
    let m = manifest(vec![(LIKE, entry("public", None, None)), (MUTE, entry("private", Some("0.2.0"), None))]);
    let u = validate_lockfile(&m, &None, &version("0.3.0")).unwrap();
    assert_eq!(u.lock_version, "1.0.0");
    assert_eq!(u.lexicons.len(), 2);
    assert_eq!(u.lexicons[0].0, LIKE);
    assert_eq!(u.lexicons[0].1, lock("public", None, None, "0.3.0"));
    assert_eq!(u.lexicons[1].1, lock("private", Some("0.2.0"), None, "0.3.0"));
}

#[test]
fn existing_lexicons_keep_their_first_seen_version() {
    let m = manifest(vec![(LIKE, entry("public", None, None)), (MUTE, entry("private", None, None))]);
    let prior = lockfile(vec![(LIKE, lock("public", None, None, "0.1.0"))]);
    let u = validate_lockfile(&m, &Some(prior), &version("0.3.0")).unwrap();
    assert_eq!(u.lexicons[0].1.first_seen_in_lexicon_set_version, "0.1.0");
    assert_eq!(u.lexicons[1].1.first_seen_in_lexicon_set_version, "0.3.0");
}

#[test]
fn tier_change_is_refused() {
    let m = manifest(vec![(LIKE, entry("private", None, None))]);
    let prior = lockfile(vec![(LIKE, lock("public", None, None, "0.1.0"))]);
    match validate_lockfile(&m, &Some(prior), &version("0.3.0")) {
        Err(BuildError::TierImmutableViolated { nsid, locked, current }) => {
            assert_eq!((nsid.as_str(), locked.as_str(), current.as_str()), (LIKE, "public", "private"));
        }
        other => panic!("{other:?}"),
    }
}

#[test]
fn deprecation_reversal_is_refused() {
    let m = manifest(vec![(LIKE, entry("public", None, None))]);
    let prior = lockfile(vec![(LIKE, lock("public", Some("0.2.0"), None, "0.1.0"))]);
    match validate_lockfile(&m, &Some(prior), &version("0.3.0")) {
        Err(BuildError::DeprecationMonotonicityViolated { nsid, locked, current }) => {
            assert_eq!(nsid, LIKE);
            assert_eq!(locked.as_deref(), Some("0.2.0"));
            assert_eq!(current, None);
        }
        other => panic!("{other:?}"),
    }
}

#[test]
fn successor_change_is_refused() {
    let m = manifest(vec![(LIKE, entry("public", Some("0.2.0"), Some("tools.kryphocron.feed.like2")))]);
    let prior = lockfile(vec![(LIKE, lock("public", Some("0.2.0"), Some("tools.kryphocron.feed.likeV2"), "0.1.0"))]);
    match validate_lockfile(&m, &Some(prior), &version("0.3.0")) {
        Err(BuildError::SuccessorMonotonicityViolated { nsid, locked, current }) => {
            assert_eq!(nsid, LIKE);
            assert_eq!(locked.as_deref(), Some("tools.kryphocron.feed.likeV2"));
            assert_eq!(current.as_deref(), Some("tools.kryphocron.feed.like2"));
        }
        other => panic!("{other:?}"),
    }
}

#[test]
fn setting_a_deprecation_for_the_first_time_is_allowed() {
    let m = manifest(vec![(LIKE, entry("public", Some("0.3.0"), Some("tools.kryphocron.feed.like2")))]);
    let prior = lockfile(vec![(LIKE, lock("public", None, None, "0.1.0"))]);
    let u = validate_lockfile(&m, &Some(prior), &version("0.3.0")).unwrap();
    assert_eq!(u.lexicons[0].1, lock("public", Some("0.3.0"), Some("tools.kryphocron.feed.like2"), "0.1.0"));
}

#[test]
fn regenerated_lockfile_is_a_fixed_point() {
    let m = manifest(vec![(LIKE, entry("public", Some("0.2.0"), None)), (MUTE, entry("private", None, None))]);
    let prior = lockfile(vec![(LIKE, lock("public", None, None, "0.1.0"))]);
    let u = validate_lockfile(&m, &Some(prior), &version("0.2.0")).unwrap();
    let expected: Vec<(String, LockEntry)> = u.lexicons.clone();
    let again = validate_lockfile(&m, &Some(u), &version("9.9.9")).unwrap();
    assert_eq!(again.lexicons, expected);
}

#[test]
fn three_way_check_reports_every_difference() {
    let l = vec![s("a.b.c"), s("a.b.d")];
    let m = vec![s("a.b.c"), s("a.b.e")];
    let c = vec![s("a.b.c"), s("a.b.d"), s("a.b.f")];
    match three_way_consistency_check(&l, &m, &c) {
        Err(BuildError::NsidSetMismatch {
            lexicon_minus_manifest,
            manifest_minus_lexicon,
            lexicon_minus_codegen,
            codegen_minus_lexicon,
        }) => {
            assert_eq!(lexicon_minus_manifest, vec![s("a.b.d")]);
            assert_eq!(manifest_minus_lexicon, vec![s("a.b.e")]);
            assert!(lexicon_minus_codegen.is_empty());
            assert_eq!(codegen_minus_lexicon, vec![s("a.b.f")]);
        }
        other => panic!("{other:?}"),
    }
    assert!(three_way_consistency_check(&l, &l.clone(), &l.clone()).is_ok());
}

#[test]
fn manifest_nsids_are_sorted_and_distinct() {
    let m = manifest(vec![(MUTE, entry("private", None, None)), (LIKE, entry("public", None, None)), (LIKE, entry("public", None, None))]);
    assert_eq!(manifest_nsids(&m), vec![s(LIKE), s(MUTE)]);
}

fn parsed(id: &str, main: MainShape) -> ParsedLexicon {
    ParsedLexicon { id: s(id), main }
}

fn at_uri() -> MainShape {
    MainShape::Object(AudienceListShape::Str(Some(s("at-uri"))))
}

#[test]
fn private_tier_audience_rule_accepts_gated_lexicons() {
    let mut audience = entry("private", None, None);
    audience.audience_exempt = true;
    audience.exemption_reason = Some(s("the audience mechanism itself"));
    let m = manifest(vec![(LIKE, entry("public", None, None)), (MUTE, entry("private", None, None)), (AUDIENCE, audience)]);
    let docs = vec![parsed(MUTE, at_uri()), parsed(LIKE, MainShape::Missing)];
    assert!(validate_private_tier_audience_refs(&m, &docs).is_ok());
}

#[test]
fn private_tier_audience_rule_errors() {
    let mut exempt = entry("private", None, None);
    exempt.audience_exempt = true;
    exempt.exemption_reason = Some(s(""));
    match validate_private_tier_audience_refs(&manifest(vec![(MUTE, exempt)]), &vec![]) {
        Err(BuildError::MissingExemptionReason(n)) => assert_eq!(n, MUTE),
        other => panic!("{other:?}"),
    }
    match validate_private_tier_audience_refs(&manifest(vec![(AUDIENCE, entry("private", None, None))]), &vec![]) {
        Err(BuildError::AudienceMechanismMustBeExempt { nsid }) => assert_eq!(nsid, AUDIENCE),
        other => panic!("{other:?}"),
    }
    match validate_private_tier_audience_refs(&manifest(vec![(MUTE, entry("private", None, None))]), &vec![]) {
        Err(BuildError::ManifestParse(msg)) => {
            assert_eq!(msg, "private-tier NSID `tools.kryphocron.graph.mute` has no lexicon JSON")
        }
        other => panic!("{other:?}"),
    }
    let docs = vec![parsed(MUTE, MainShape::Object(AudienceListShape::Str(Some(s("did")))))];
    match validate_private_tier_audience_refs(&manifest(vec![(MUTE, entry("private", None, None))]), &docs) {
        Err(BuildError::PrivateLexiconMissingAudienceRef { nsid, expected_ref }) => {
            assert_eq!(nsid, MUTE);
            assert_eq!(expected_ref, AUDIENCE);
        }
        other => panic!("{other:?}"),
    }
    let docs = vec![parsed(MUTE, MainShape::NotAnObject)];
    assert!(validate_private_tier_audience_refs(&manifest(vec![(MUTE, entry("private", None, None))]), &docs).is_err());
}

#[test]
fn registry_entries_follow_the_manifest() {
    let m = manifest(vec![
        (LIKE, entry("public", Some("0.2.1"), Some("tools.kryphocron.feed.like2"))),
        (MUTE, entry("private", None, Some("ignored.without.deprecation"))),
    ]);
    let rows = registry_entries_for(&m).unwrap();
    assert_eq!(rows.len(), 2);
    assert_eq!(rows[0].nsid, LIKE);
    assert_eq!(rows[0].tier, Tier::Public);
    match &rows[0].deprecation {
        RowDeprecation::Deprecated { since_version, successor } => {
            assert_eq!(*since_version, SemVer::new(0, 2, 1));
            assert_eq!(successor.as_deref(), Some("tools.kryphocron.feed.like2"));
        }
        RowDeprecation::Active => panic!("expected deprecated"),
    }
    assert_eq!(rows[1].tier, Tier::Private);
    assert!(matches!(rows[1].deprecation, RowDeprecation::Active));
}

#[test]
fn registry_entries_errors() {
    match registry_entries_for(&manifest(vec![(LIKE, entry("secret", None, None))])) {
        Err(BuildError::UnknownTier(t)) => assert_eq!(t, "secret"),
        other => panic!("{other:?}"),
    }
    match registry_entries_for(&manifest(vec![(LIKE, entry("public", Some("0.2"), None))])) {
        Err(BuildError::ManifestParse(msg)) => assert_eq!(
            msg,
            "deprecated_in `0.2` on `tools.kryphocron.feed.like` is not a valid semver"
        ),
        other => panic!("{other:?}"),
    }
}

#[test]
fn manifest_tiers() {
    assert_eq!(tier_from_manifest("public"), Some(Tier::Public));
    assert_eq!(tier_from_manifest("private"), Some(Tier::Private));
    assert_eq!(tier_from_manifest("Public"), None);
}

#[test]
fn semver_parsing() {
    assert_eq!(parse_semver("1.2.3"), Some((1, 2, 3)));
    assert_eq!(parse_semver("0.10.200"), Some((0, 10, 200)));
    assert_eq!(parse_semver("+1.2.3"), Some((1, 2, 3)));
    assert_eq!(parse_semver("007.0.4294967295"), Some((7, 0, 4294967295)));
    assert_eq!(parse_semver("1.2"), None);
    assert_eq!(parse_semver("1.2.3.4"), None);
    assert_eq!(parse_semver("1..3"), None);
    assert_eq!(parse_semver("1.2.x"), None);
    assert_eq!(parse_semver("1.2.-3"), None);
    assert_eq!(parse_semver("1.+.3"), None);
    assert_eq!(parse_semver("1.2.4294967296"), None);
    assert_eq!(parse_semver(""), None);
    assert_eq!(parse_semver(" 1.2.3"), None);
}

fn registry_manifest() -> Vec<(String, ManifestEntry)> {
    kryphocron_lexicon_registry()
        .iter()
        .map(|e| {
            let tier = match e.tier {
                Tier::Public => "public",
                _ => "private",
            };
            (s(e.nsid), entry(tier, None, None))
        })
        .collect()
}

fn mismatch_at(m: &Manifest) -> String {
    match registry_matches_manifest(m) {
        Err(BuildError::RegistryMismatch(n)) => n,
        other => panic!("expected a registry mismatch, got {other:?}"),
    }
}

#[test]
fn registry_check_accepts_the_manifest_of_the_registry() {
    let m = Manifest { manifest_version: s("1.0.0"), lexicons: registry_manifest() };
    assert!(registry_matches_manifest(&m).is_ok());
}

#[test]
fn registry_check_reports_the_first_difference() {
    let base = registry_manifest();
    // A deprecation the registry does not carry.
    let mut rows = base.clone();
    rows[2].1 = entry("public", Some("1.1.0"), None);
    let m = Manifest { manifest_version: s("1.0.0"), lexicons: rows };
    assert_eq!(mismatch_at(&m), "tools.kryphocron.feed.postPublic");
    // Another tier.
    let mut rows = base.clone();
    rows[0].1 = entry("private", None, None);
    rows[5].1 = entry("public", None, None);
    let m = Manifest { manifest_version: s("1.0.0"), lexicons: rows };
    assert_eq!(mismatch_at(&m), LIKE);
    // A tier that is neither public nor private.
    let mut rows = base.clone();
    rows[6].1 = entry("secret", None, None);
    let m = Manifest { manifest_version: s("1.0.0"), lexicons: rows };
    assert_eq!(mismatch_at(&m), MUTE);
    // A registered NSID the manifest lacks: the registry's NSID is named.
    let mut rows = base.clone();
    rows.pop();
    let m = Manifest { manifest_version: s("1.0.0"), lexicons: rows };
    assert_eq!(mismatch_at(&m), AUDIENCE);
    // A manifest entry the registry lacks.
    let mut rows = base.clone();
    rows.push((s("tools.kryphocron.zzz.extra"), entry("public", None, None)));
    let m = Manifest { manifest_version: s("1.0.0"), lexicons: rows };
    assert_eq!(mismatch_at(&m), "tools.kryphocron.zzz.extra");
    // An NSID in another place.
    let mut rows = base;
    rows[1].0 = s("tools.kryphocron.feed.other");
    let m = Manifest { manifest_version: s("1.0.0"), lexicons: rows };
    assert_eq!(mismatch_at(&m), "tools.kryphocron.feed.other");
}

#[test]
fn lockfile_staleness_ignores_layout_and_key_order() {
    let committed = "{\n  \"lock_version\": \"1.0.0\",\n  \"lexicons\": {}\n}\n";
    let regenerated = "{\"lexicons\":{},\"lock_version\":\"1.0.0\"}";
    assert!(!lockfile_is_stale(committed, regenerated));
    assert!(!lockfile_is_stale(regenerated, regenerated));
    let changed = "{\"lexicons\":{},\"lock_version\":\"1.1.0\"}";
    assert!(lockfile_is_stale(committed, changed));
    // Texts that are not JSON are compared as they stand.
    assert!(!lockfile_is_stale("not json", "not json"));
    assert!(lockfile_is_stale("not json", "not  json"));
    assert!(lockfile_is_stale("not json", regenerated));
}
