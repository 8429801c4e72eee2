//! The closed-namespace lexicon registry and the NSID-to-tier lookup.

use crate::nsid::{nsid_as_str, nsid_text};
use crate::rows::{distinct_keys, lemma_lookup, lemma_lookup_distinct, lookup};
use crate::text::{has_prefix, str_eq};
use crate::tier::{DeprecationState, LexiconRegistryEntry, Tier, UnknownNsid};
use proto_blue_syntax::Nsid;
use vstd::prelude::*;

verus! {

/// The registered lexicons, NSID and tier, in NSID order.
pub open spec fn registry_rows() -> Seq<(Seq<char>, Tier)> {
    seq![
        ("tools.kryphocron.feed.like"@, Tier::Public),
        ("tools.kryphocron.feed.postPrivate"@, Tier::Private),
        ("tools.kryphocron.feed.postPublic"@, Tier::Public),
        ("tools.kryphocron.feed.repost"@, Tier::Public),
        ("tools.kryphocron.feed.threadgate"@, Tier::Public),
        ("tools.kryphocron.graph.block"@, Tier::Private),
        ("tools.kryphocron.graph.mute"@, Tier::Private),
        ("tools.kryphocron.policy.audience"@, Tier::Private),
    ]
}

/// The tier the registry assigns to `nsid`; `None` outside the registry.
pub open spec fn registered_tier(nsid: Seq<char>) -> Option<Tier> {
    lookup(registry_rows(), nsid)
}

/// The registry entries as (NSID, tier) rows.
pub open spec fn entry_rows(entries: Seq<LexiconRegistryEntry>) -> Seq<(Seq<char>, Tier)> {
    entries.map_values(|e: LexiconRegistryEntry| (e.nsid@, e.tier))
}

/// The authoritative registry of the lexicon set: one entry per
/// registered NSID, in NSID order, all currently active.
pub fn kryphocron_lexicon_registry() -> (r: Vec<LexiconRegistryEntry>)
    ensures
        entry_rows(r@) == registry_rows(),
        forall|i: int| 0 <= i < r.len() ==> r@[i].deprecation == DeprecationState::Active,
{
    let r = vec![
        LexiconRegistryEntry {
            nsid: "tools.kryphocron.feed.like",
            tier: Tier::Public,
            deprecation: DeprecationState::Active,
        },
        LexiconRegistryEntry {
            nsid: "tools.kryphocron.feed.postPrivate",
            tier: Tier::Private,
            deprecation: DeprecationState::Active,
        },
        LexiconRegistryEntry {
            nsid: "tools.kryphocron.feed.postPublic",
            tier: Tier::Public,
            deprecation: DeprecationState::Active,
        },
        LexiconRegistryEntry {
            nsid: "tools.kryphocron.feed.repost",
            tier: Tier::Public,
            deprecation: DeprecationState::Active,
        },
        LexiconRegistryEntry {
            nsid: "tools.kryphocron.feed.threadgate",
            tier: Tier::Public,
            deprecation: DeprecationState::Active,
        },
        LexiconRegistryEntry {
            nsid: "tools.kryphocron.graph.block",
            tier: Tier::Private,
            deprecation: DeprecationState::Active,
        },
        LexiconRegistryEntry {
            nsid: "tools.kryphocron.graph.mute",
            tier: Tier::Private,
            deprecation: DeprecationState::Active,
        },
        LexiconRegistryEntry {
            nsid: "tools.kryphocron.policy.audience",
            tier: Tier::Private,
            deprecation: DeprecationState::Active,
        },
    ];
    assert(entry_rows(r@) =~= registry_rows());
    r
}

/// The registry is a map: no NSID is registered twice.
pub proof fn law_registry_is_a_map()
    ensures
        distinct_keys(registry_rows()),
{
    reveal_strlit("tools.kryphocron.feed.like");
    reveal_strlit("tools.kryphocron.feed.postPrivate");
    reveal_strlit("tools.kryphocron.feed.postPublic");
    reveal_strlit("tools.kryphocron.feed.repost");
    reveal_strlit("tools.kryphocron.feed.threadgate");
    reveal_strlit("tools.kryphocron.graph.block");
    reveal_strlit("tools.kryphocron.graph.mute");
    reveal_strlit("tools.kryphocron.policy.audience");
    reveal_strlit("tools.kryphocron.");
    assert forall|i: int, j: int|
        0 <= i < j < registry_rows().len() implies registry_rows()[i].0 != registry_rows()[j].0 by {
        assert(registry_rows()[i].0[17] != registry_rows()[j].0[17] || registry_rows()[i].0.len()
            != registry_rows()[j].0.len() || registry_rows()[i].0[22] != registry_rows()[j].0[22]
            || registry_rows()[i].0[23] != registry_rows()[j].0[23]);
    }
}

/// The registry is closed over the `tools.kryphocron.` namespace: every NSID
/// it resolves lies under that prefix.
pub proof fn law_registry_is_closed_namespace(nsid: Seq<char>)
    ensures
        registered_tier(nsid) is Some ==> has_prefix(nsid, "tools.kryphocron."@),
{
    lemma_lookup(registry_rows(), nsid);
    reveal_strlit("tools.kryphocron.feed.like");
    reveal_strlit("tools.kryphocron.feed.postPrivate");
    reveal_strlit("tools.kryphocron.feed.postPublic");
    reveal_strlit("tools.kryphocron.feed.repost");
    reveal_strlit("tools.kryphocron.feed.threadgate");
    reveal_strlit("tools.kryphocron.graph.block");
    reveal_strlit("tools.kryphocron.graph.mute");
    reveal_strlit("tools.kryphocron.policy.audience");
    reveal_strlit("tools.kryphocron.");
    if registered_tier(nsid) is Some {
        let k = choose|k: int| 0 <= k < registry_rows().len() && registry_rows()[k].0 == nsid;
        assert(nsid.subrange(0, 17) =~= "tools.kryphocron."@);
    }
}

/// A lookup resolves an NSID to a tier exactly when the registry holds a
/// row pairing that NSID with that tier.
pub proof fn law_lookup_agrees_with_registry(nsid: Seq<char>, tier: Tier)
    ensures
        registered_tier(nsid) == Some(tier) <==> registry_rows().contains((nsid, tier)),
{
    law_registry_is_a_map();
    lemma_lookup(registry_rows(), nsid);
    if registry_rows().contains((nsid, tier)) {
        let k = choose|k: int| 0 <= k < registry_rows().len() && registry_rows()[k] == (nsid, tier);
        lemma_lookup_distinct(registry_rows(), k);
    }
    if registered_tier(nsid) == Some(tier) {
        let k = choose|k: int| 0 <= k < registry_rows().len() && registry_rows()[k].0 == nsid;
        lemma_lookup_distinct(registry_rows(), k);
        assert(registry_rows()[k] == (nsid, tier));
    }
}

impl Tier {
    /// The tier the registry assigns to the NSID spelled `nsid`, or `None`
    /// when the registry has no such entry.
    pub fn from_nsid_str(nsid: &str) -> (r: Option<Tier>)
        ensures
            r == registered_tier(nsid@),
    {
        let entries = kryphocron_lexicon_registry();
        let n = entries.len();
        let mut i: usize = 0;
        assert(registry_rows().skip(0) =~= registry_rows());
        while i < n
            invariant
                n == entries.len(),
                i <= n,
                entry_rows(entries@) == registry_rows(),
                lookup(registry_rows(), nsid@) == lookup(registry_rows().skip(i as int), nsid@),
            decreases n - i,
        {
            let e = entries[i];
            proof {
                assert(registry_rows().skip(i as int).drop_first() =~= registry_rows().skip(
                    i + 1,
                ));
                assert(registry_rows().skip(i as int)[0] == entry_rows(entries@)[i as int]);
            }
            if str_eq(nsid, e.nsid) {
                return Some(e.tier);
            }
            i = i + 1;
        }
        proof {
            assert(registry_rows().skip(i as int).len() == 0);
        }
        None
    }

    /// Map an NSID to its tier through the closed-namespace registry.
    ///
    /// # Errors
    ///
    /// Returns [`UnknownNsid::NotRegistered`], carrying the NSID, for any
    /// NSID not present in the registry.
    pub fn from_nsid(nsid: &Nsid) -> (r: Result<Tier, UnknownNsid>)
        ensures
            match r {
                Ok(t) => registered_tier(nsid_text(*nsid)) == Some(t),
                Err(UnknownNsid::NotRegistered(n)) => {
                    &&& registered_tier(nsid_text(*nsid)) is None
                    &&& nsid_text(n) == nsid_text(*nsid)
                },
            },
    {
        match Tier::from_nsid_str(nsid_as_str(nsid)) {
            Some(t) => Ok(t),
            None => Err(UnknownNsid::NotRegistered(nsid.clone())),
        }
    }
}

} // verus!
