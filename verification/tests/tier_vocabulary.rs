//! The tier vocabulary and the registry lookup on concrete values.

use kryphocron_lexicons::{
    kryphocron_lexicon_registry, DeprecationState, Nsid, SemVer, Tier, UnknownNsid, Visibility,
};

#[test]
fn only_visible_allows_read() {
    assert!(Visibility::Visible.allows_read());
    assert!(!Visibility::Hidden.allows_read());
    assert!(!Visibility::Forbidden.allows_read());
}

#[test]
fn semver_new_keeps_its_parts() {
    let v = SemVer::new(1, 2, 3);
    assert_eq!((v.major, v.minor, v.patch), (1, 2, 3));
    assert_eq!(v, SemVer { major: 1, minor: 2, patch: 3 });
}

#[test]
fn registry_entries_are_active_and_sorted() {
    let reg = kryphocron_lexicon_registry();
    for e in &reg {
        assert_eq!(e.deprecation, DeprecationState::Active);
        assert!(e.nsid.starts_with("tools.kryphocron."));
    }
    for w in reg.windows(2) {
        assert!(w[0].nsid < w[1].nsid);
    }
}

#[test]
fn from_nsid_str_on_concrete_values() {
    assert_eq!(Tier::from_nsid_str("tools.kryphocron.graph.mute"), Some(Tier::Private));
    assert_eq!(Tier::from_nsid_str("tools.kryphocron.feed.like"), Some(Tier::Public));
    assert_eq!(Tier::from_nsid_str("tools.kryphocron.feed.like2"), None);
    assert_eq!(Tier::from_nsid_str("tools.kryphocron.feed.lik"), None);
    assert_eq!(Tier::from_nsid_str(""), None);
}

#[test]
fn unknown_nsid_carries_the_nsid() {
    let n = Nsid::new("app.bsky.feed.post").unwrap();
    match Tier::from_nsid(&n) {
        Err(UnknownNsid::NotRegistered(m)) => assert_eq!(m.as_str(), "app.bsky.feed.post"),
        other => panic!("{other:?}"),
    }
}
