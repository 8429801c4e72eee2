//! Registry pinning and closed-namespace lookup.

use std::collections::BTreeMap;

use kryphocron_lexicons::codegen::codegen_digest;
use kryphocron_lexicons::{kryphocron_lexicon_registry, Nsid, Tier, UnknownNsid};

/// The eight lexicons of the set and their tiers.
fn v1_nsids() -> Vec<(&'static str, Tier)> {
    vec![
        ("tools.kryphocron.feed.postPublic", Tier::Public),
        ("tools.kryphocron.feed.postPrivate", Tier::Private),
        ("tools.kryphocron.feed.like", Tier::Public),
        ("tools.kryphocron.feed.repost", Tier::Public),
        ("tools.kryphocron.feed.threadgate", Tier::Public),
        ("tools.kryphocron.graph.block", Tier::Private),
        ("tools.kryphocron.graph.mute", Tier::Private),
        ("tools.kryphocron.policy.audience", Tier::Private),
    ]
}

#[test]
fn registry_contains_exactly_the_v1_nsids() {
    let expected: BTreeMap<&str, Tier> = v1_nsids().into_iter().collect();
    let actual: BTreeMap<&str, Tier> = kryphocron_lexicon_registry()
        .iter()
        .map(|e| (e.nsid, e.tier))
        .collect();
    assert_eq!(
        actual.keys().copied().collect::<Vec<_>>(),
        expected.keys().copied().collect::<Vec<_>>(),
        "registry NSID set",
    );
    for (nsid, tier) in &expected {
        assert_eq!(actual.get(nsid).copied(), Some(*tier), "{nsid} tier");
    }
}

#[test]
fn registry_size_pinned_at_eight() {
    assert_eq!(
        kryphocron_lexicon_registry().len(),
        8,
        "the baseline lexicon set is eight entries",
    );
}

#[test]
fn tier_from_nsid_resolves_every_v1_lexicon() {
    for (nsid_str, expected_tier) in v1_nsids() {
        let nsid = Nsid::new(nsid_str).unwrap();
        let resolved = Tier::from_nsid(&nsid)
            .unwrap_or_else(|_| panic!("{nsid_str} not registered"));
        assert_eq!(resolved, expected_tier, "{nsid_str}");
    }
}

#[test]
fn tier_from_nsid_rejects_unknown_nsid() {
    let unknown = Nsid::new("com.example.not.in.registry").unwrap();
    let result = Tier::from_nsid(&unknown);
    assert!(
        matches!(result, Err(UnknownNsid::NotRegistered(_))),
        "{result:?}",
    );
}

#[test]
fn tier_from_nsid_rejects_lookalike_with_wrong_authority() {
    let pretender = Nsid::new("tools.kryphocron.feed.notARealLexicon").unwrap();
    assert!(matches!(
        Tier::from_nsid(&pretender),
        Err(UnknownNsid::NotRegistered(_)),
    ));
}

#[test]
fn codegen_hash_is_a_64_char_lowercase_hex_string() {
    let hash = codegen_digest(&vec![
        ("tools/mod.rs".to_string(), b"pub mod kryphocron;".to_vec()),
        ("tools/kryphocron/feed/like.rs".to_string(), b"pub struct Like;".to_vec()),
    ]);
    assert_eq!(hash.len(), 64, "SHA-256 digest renders as 64 hex chars");
    assert!(
        hash.chars().all(|c| c.is_ascii_hexdigit() && !c.is_ascii_uppercase()),
        "hex chars only, no uppercase: {hash}",
    );
}
