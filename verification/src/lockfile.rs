//! Lockfile validation: regenerating the lockfile from the manifest, and
//! the rules that the locked metadata imposes on the manifest.

use crate::error::BuildError;
use crate::manifest::{
    clone_opt, lock_rows, manifest_rows, opt_eq, opt_view, supported_schema, LockEntry,
    LockEntryView, Lockfile, Manifest, ManifestEntry, VersionDoc,
};
use crate::rows::{distinct_keys, find_row, lemma_lookup, lemma_lookup_distinct, lookup};
use crate::text::str_eq;
use vstd::prelude::*;

verus! {

/// The rows of the prior lockfile; none when there is no lockfile yet.
pub open spec fn prior_rows(lf: Option<Lockfile>) -> Seq<(Seq<char>, LockEntryView)> {
    match lf {
        Some(l) => lock_rows(l.lexicons@),
        None => Seq::empty(),
    }
}

/// The lock entry regenerated for a manifest entry: the manifest's tier,
/// deprecation and successor, and the first-seen version of the prior
/// entry, or the current lexicon-set version for a new lexicon.
pub open spec fn regenerated_entry(
    me: ManifestEntry,
    prior: Option<LockEntryView>,
    version: Seq<char>,
) -> LockEntryView {
    LockEntryView {
        tier_locked: me.tier@,
        deprecated_in_locked: opt_view(me.deprecated_in),
        successor_locked: opt_view(me.successor),
        first_seen: match prior {
            Some(p) => p.first_seen,
            None => version,
        },
    }
}

/// The regenerated lockfile rows: one per manifest row, in manifest order.
pub open spec fn regenerate(
    m: Seq<(Seq<char>, ManifestEntry)>,
    prior: Seq<(Seq<char>, LockEntryView)>,
    version: Seq<char>,
) -> Seq<(Seq<char>, LockEntryView)> {
    m.map_values(
        |r: (Seq<char>, ManifestEntry)| (r.0, regenerated_entry(r.1, lookup(prior, r.0), version)),
    )
}

/// The manifest gives a tier other than the locked one.
pub open spec fn tier_changed(me: ManifestEntry, p: LockEntryView) -> bool {
    p.tier_locked != me.tier@
}

/// A locked deprecation is cleared or changed.
pub open spec fn deprecation_changed(me: ManifestEntry, p: LockEntryView) -> bool {
    p.deprecated_in_locked is Some && p.deprecated_in_locked != opt_view(me.deprecated_in)
}

/// A locked successor is cleared or changed.
pub open spec fn successor_changed(me: ManifestEntry, p: LockEntryView) -> bool {
    p.successor_locked is Some && p.successor_locked != opt_view(me.successor)
}

/// The manifest entry breaks what its prior lock entry, if any, fixed.
pub open spec fn lock_violated(me: ManifestEntry, prior: Option<LockEntryView>) -> bool {
    match prior {
        Some(p) => tier_changed(me, p) || deprecation_changed(me, p) || successor_changed(me, p),
        None => false,
    }
}

/// No manifest row breaks its prior lock entry.
pub open spec fn lock_respected(
    m: Seq<(Seq<char>, ManifestEntry)>,
    prior: Seq<(Seq<char>, LockEntryView)>,
) -> bool {
    forall|i: int| 0 <= i < m.len() ==> !lock_violated(m[i].1, #[trigger] lookup(prior, m[i].0))
}

/// `e` reports the first rule, in the order tier, deprecation, successor,
/// that the manifest entry `me` of `nsid` breaks against the lock entry `p`.
pub open spec fn lock_error(e: BuildError, nsid: Seq<char>, me: ManifestEntry, p: LockEntryView) -> bool {
    if tier_changed(me, p) {
        e matches BuildError::TierImmutableViolated { nsid: n, locked, current } && n@ == nsid
            && locked@ == p.tier_locked && current@ == me.tier@
    } else if deprecation_changed(me, p) {
        e matches BuildError::DeprecationMonotonicityViolated { nsid: n, locked, current } && n@
            == nsid && opt_view(locked) == p.deprecated_in_locked && opt_view(current) == opt_view(
            me.deprecated_in,
        )
    } else {
        e matches BuildError::SuccessorMonotonicityViolated { nsid: n, locked, current } && n@
            == nsid && opt_view(locked) == p.successor_locked && opt_view(current) == opt_view(
            me.successor,
        )
    }
}

/// Regenerate the lockfile from the manifest and hold the manifest to the
/// prior lockfile: a lexicon's tier never changes, and a deprecation or
/// successor, once locked, is never cleared or changed.
///
/// # Errors
///
/// The first broken rule, in manifest order and for one lexicon in the
/// order tier, deprecation, successor.
pub fn validate_lockfile(
    manifest: &Manifest,
    lockfile: &Option<Lockfile>,
    version: &VersionDoc,
) -> (r: Result<Lockfile, BuildError>)
    ensures
        ({
            let rows = manifest_rows(*manifest);
            let prior = prior_rows(*lockfile);
            &&& r is Ok <==> lock_respected(rows, prior)
            &&& r matches Ok(u) ==> u.lock_version@ == supported_schema() && lock_rows(u.lexicons@)
                == regenerate(rows, prior, version.version@)
            &&& r matches Err(e) ==> exists|i: int|
                0 <= i < rows.len() && lock_violated(rows[i].1, #[trigger] lookup(prior, rows[i].0))
                    && (forall|j: int|
                    0 <= j < i ==> !lock_violated(rows[j].1, #[trigger] lookup(prior, rows[j].0)))
                    && lock_error(e, rows[i].0, rows[i].1, lookup(prior, rows[i].0).unwrap())
        }),
{
    let ghost rows = manifest_rows(*manifest);
    let ghost prior = prior_rows(*lockfile);
    let empty: Vec<(String, LockEntry)> = Vec::new();
    let prior_entries: &Vec<(String, LockEntry)> = match lockfile {
        Some(l) => &l.lexicons,
        None => &empty,
    };
    assert(lock_rows(prior_entries@) == prior) by {
        if lockfile is None {
            assert(lock_rows(prior_entries@) =~= Seq::empty());
        }
    }
    let mut out: Vec<(String, LockEntry)> = Vec::new();
    let n = manifest.lexicons.len();
    for i in 0..n
        invariant
            n == manifest.lexicons.len(),
            rows == manifest_rows(*manifest),
            prior == prior_rows(*lockfile),
            lock_rows(prior_entries@) == prior,
            forall|j: int| 0 <= j < i ==> !lock_violated(rows[j].1, #[trigger] lookup(prior, rows[j].0)),
            lock_rows(out@) == regenerate(rows, prior, version.version@).subrange(0, i as int),
    {
        let nsid = &manifest.lexicons[i].0;
        let entry = &manifest.lexicons[i].1;
        let found = find_row(prior_entries, nsid.as_str());
        proof {
            lemma_lookup(prior, rows[i as int].0);
            assert(rows[i as int].0 == nsid@);
            assert forall|j: int| 0 <= j < prior_entries.len() implies #[trigger] prior[j]
                == (prior_entries@[j].0@, prior_entries@[j].1@) by {}
        }
        let first_seen = match found {
            Some(k) => prior_entries[k].1.first_seen_in_lexicon_set_version.clone(),
            None => version.version.clone(),
        };
        let new_lock = LockEntry {
            tier_locked: entry.tier.clone(),
            deprecated_in_locked: clone_opt(&entry.deprecated_in),
            successor_locked: clone_opt(&entry.successor),
            first_seen_in_lexicon_set_version: first_seen,
        };
        proof {
            if let Some(k) = found {
                assert(prior[k as int].0 == nsid@);
                assert(lookup(prior, nsid@) == Some(prior[k as int].1));
            } else {
                assert(lookup(prior, nsid@) is None);
            }
            assert(new_lock@ == regenerated_entry(*entry, lookup(prior, nsid@), version.version@));
        }
        if let Some(k) = found {
            let p = &prior_entries[k].1;
            let ghost pv = lookup(prior, rows[i as int].0).unwrap();
            assert(pv == p@);
            if !str_eq(p.tier_locked.as_str(), new_lock.tier_locked.as_str()) {
                let e = BuildError::TierImmutableViolated {
                    nsid: nsid.clone(),
                    locked: p.tier_locked.clone(),
                    current: new_lock.tier_locked,
                };
                proof {
                    assert(lock_violated(rows[i as int].1, lookup(prior, rows[i as int].0)));
                    assert(lock_error(e, rows[i as int].0, rows[i as int].1, pv));
                }
                return Err(e);
            }
            if p.deprecated_in_locked.is_some() && !opt_eq(
                &p.deprecated_in_locked,
                &new_lock.deprecated_in_locked,
            ) {
                let e = BuildError::DeprecationMonotonicityViolated {
                    nsid: nsid.clone(),
                    locked: clone_opt(&p.deprecated_in_locked),
                    current: new_lock.deprecated_in_locked,
                };
                proof {
                    assert(lock_violated(rows[i as int].1, lookup(prior, rows[i as int].0)));
                    assert(lock_error(e, rows[i as int].0, rows[i as int].1, pv));
                }
                return Err(e);
            }
            if p.successor_locked.is_some() && !opt_eq(
                &p.successor_locked,
                &new_lock.successor_locked,
            ) {
                let e = BuildError::SuccessorMonotonicityViolated {
                    nsid: nsid.clone(),
                    locked: clone_opt(&p.successor_locked),
                    current: new_lock.successor_locked,
                };
                proof {
                    assert(lock_violated(rows[i as int].1, lookup(prior, rows[i as int].0)));
                    assert(lock_error(e, rows[i as int].0, rows[i as int].1, pv));
                }
                return Err(e);
            }
        }
        let ghost before = out@;
        out.push((nsid.clone(), new_lock));
        proof {
            assert(lock_rows(out@) =~= lock_rows(before).push((nsid@, new_lock@)));
            assert(regenerate(rows, prior, version.version@).subrange(0, i + 1) =~= regenerate(
                rows,
                prior,
                version.version@,
            ).subrange(0, i as int).push((nsid@, new_lock@)));
        }
    }
    proof {
        assert(regenerate(rows, prior, version.version@).subrange(0, n as int) =~= regenerate(
            rows,
            prior,
            version.version@,
        ));
    }
    Ok(Lockfile { lock_version: String::from_str("1.0.0"), lexicons: out })
}

/// A lexicon's tier is immutable: wherever the lockfile already holds a
/// lexicon and validation passes, the regenerated tier is the locked one.
pub proof fn law_tier_is_immutable(
    m: Seq<(Seq<char>, ManifestEntry)>,
    prior: Seq<(Seq<char>, LockEntryView)>,
    version: Seq<char>,
    i: int,
)
    requires
        lock_respected(m, prior),
        0 <= i < m.len(),
        lookup(prior, m[i].0) is Some,
    ensures
        regenerate(m, prior, version)[i].1.tier_locked == lookup(prior, m[i].0).unwrap().tier_locked,
{
    assert(!lock_violated(m[i].1, lookup(prior, m[i].0)));
}

/// Deprecation and succession are monotonic: once the lockfile holds a
/// deprecation version or a successor for a lexicon, a passing validation
/// regenerates exactly that value.
pub proof fn law_deprecation_and_successor_are_monotonic(
    m: Seq<(Seq<char>, ManifestEntry)>,
    prior: Seq<(Seq<char>, LockEntryView)>,
    version: Seq<char>,
    i: int,
)
    requires
        lock_respected(m, prior),
        0 <= i < m.len(),
        lookup(prior, m[i].0) is Some,
    ensures
        ({
            let p = lookup(prior, m[i].0).unwrap();
            let g = regenerate(m, prior, version)[i].1;
            &&& p.deprecated_in_locked is Some ==> g.deprecated_in_locked == p.deprecated_in_locked
            &&& p.successor_locked is Some ==> g.successor_locked == p.successor_locked
        }),
{
    assert(!lock_violated(m[i].1, lookup(prior, m[i].0)));
}

/// A lexicon keeps the lexicon-set version it was first seen in; a new
/// lexicon is first seen in the current one.
pub proof fn law_first_seen_is_kept(
    m: Seq<(Seq<char>, ManifestEntry)>,
    prior: Seq<(Seq<char>, LockEntryView)>,
    version: Seq<char>,
    i: int,
)
    requires
        0 <= i < m.len(),
    ensures
        regenerate(m, prior, version)[i].1.first_seen == match lookup(prior, m[i].0) {
            Some(p) => p.first_seen,
            None => version,
        },
{
}

/// The first build, with no lockfile yet, accepts any manifest.
pub proof fn law_first_build_accepts(m: Seq<(Seq<char>, ManifestEntry)>)
    ensures
        lock_respected(m, Seq::empty()),
{
    assert forall|i: int| 0 <= i < m.len() implies !lock_violated(
        m[i].1,
        #[trigger] lookup(Seq::<(Seq<char>, LockEntryView)>::empty(), m[i].0),
    ) by {}
}

/// The manifest entry keeps every fact its prior lock entry fixed: the
/// same tier, the locked deprecation if one is locked, the locked
/// successor if one is locked.
pub open spec fn keeps_locked_facts(me: ManifestEntry, p: LockEntryView) -> bool {
    &&& p.tier_locked == me.tier@
    &&& p.deprecated_in_locked is Some ==> p.deprecated_in_locked == opt_view(me.deprecated_in)
    &&& p.successor_locked is Some ==> p.successor_locked == opt_view(me.successor)
}

/// A manifest whose every entry keeps what its prior lock entry fixed is
/// accepted, however much it adds: a first deprecation, or a first
/// successor whether or not a deprecation is already locked. The
/// regenerated lockfile then carries the manifest's tier, deprecation and
/// successor for every lexicon.
pub proof fn law_keeping_locked_facts_validates(
    m: Seq<(Seq<char>, ManifestEntry)>,
    prior: Seq<(Seq<char>, LockEntryView)>,
    version: Seq<char>,
)
    requires
        forall|i: int|
            0 <= i < m.len() && #[trigger] lookup(prior, m[i].0) is Some ==> keeps_locked_facts(
                m[i].1,
                lookup(prior, m[i].0).unwrap(),
            ),
    ensures
        lock_respected(m, prior),
        forall|i: int|
            0 <= i < m.len() ==> {
                let g = #[trigger] regenerate(m, prior, version)[i].1;
                &&& g.tier_locked == m[i].1.tier@
                &&& g.deprecated_in_locked == opt_view(m[i].1.deprecated_in)
                &&& g.successor_locked == opt_view(m[i].1.successor)
            },
{
    assert forall|i: int| 0 <= i < m.len() implies !lock_violated(
        m[i].1,
        #[trigger] lookup(prior, m[i].0),
    ) by {
        if lookup(prior, m[i].0) is Some {
            assert(keeps_locked_facts(m[i].1, lookup(prior, m[i].0).unwrap()));
        }
    }
}

/// With no successor locked, the successor rule cannot be broken, whatever
/// deprecation is locked: the entry is refused only for a changed tier or
/// a changed locked deprecation.
pub proof fn law_unlocked_successor_is_free(me: ManifestEntry, p: LockEntryView)
    requires
        p.successor_locked is None,
    ensures
        lock_violated(me, Some(p)) <==> p.tier_locked != me.tier@ || (p.deprecated_in_locked is Some
            && p.deprecated_in_locked != opt_view(me.deprecated_in)),
{
}

/// Regeneration is a fixed point: a manifest validated against a lockfile
/// also validates against the lockfile it regenerated, whatever the
/// current lexicon-set version, and regenerates that lockfile unchanged.
/// So a freshly committed lockfile is never stale for the same manifest.
pub proof fn law_regeneration_is_fixed_point(
    m: Seq<(Seq<char>, ManifestEntry)>,
    prior: Seq<(Seq<char>, LockEntryView)>,
    version: Seq<char>,
    later_version: Seq<char>,
)
    requires
        distinct_keys(m),
        lock_respected(m, prior),
    ensures
        lock_respected(m, regenerate(m, prior, version)),
        regenerate(m, regenerate(m, prior, version), later_version) == regenerate(m, prior, version),
{
    let g = regenerate(m, prior, version);
    assert(distinct_keys(g));
    assert forall|i: int| 0 <= i < m.len() implies lookup(g, #[trigger] m[i].0) == Some(g[i].1) by {
        lemma_lookup_distinct(g, i);
    }
    assert forall|i: int| 0 <= i < m.len() implies !lock_violated(m[i].1, #[trigger] lookup(g, m[i].0)) by {
        assert(lookup(g, m[i].0) == Some(g[i].1));
    }
    assert(regenerate(m, g, later_version) =~= g);
}

/// A JSON value: objects are maps from keys to values, so neither the
/// order of keys nor whitespace has a place in it.
pub enum JsonValue {
    /// `null`.
    Null,
    /// `true` or `false`.
    Bool(bool),
    /// A number, by the text `serde_json` prints for it.
    Number(Seq<char>),
    /// A string, by its characters.
    Str(Seq<char>),
    /// An array, in order.
    Array(Seq<JsonValue>),
    /// An object: each key to its value (a repeated key keeps its last
    /// value).
    Object(Map<Seq<char>, JsonValue>),
}

/// The JSON value that `serde_json` parses `text` to; `None` when `text`
/// is not JSON.
pub uninterp spec fn json_value(text: Seq<char>) -> Option<JsonValue>;

/// The compact text that `serde_json` prints for a JSON value.
pub uninterp spec fn json_print(v: JsonValue) -> Seq<char>;

/// `serde_json::from_str::<serde_json::Value>` followed by printing the
/// value compactly (`Display` of `serde_json::Value`). Claimed: the text
/// parses to `json_value` of it, and the result is `json_print` of that
/// value; `None` when it does not parse. Without the `preserve_order`
/// feature, the parsed objects are sorted maps, so the printed text is a
/// function of the value alone. What the printed text is beyond that is
/// not stated.
#[verifier::external_body]
fn compact_json(text: &str) -> (r: Option<String>)
    ensures
        match json_value(text@) {
            Some(v) => r matches Some(c) && c@ == json_print(v),
            None => r is None,
        },
{
    serde_json::from_str::<serde_json::Value>(text).ok().map(|v| v.to_string())
}

/// A lockfile text as it is compared: the compact print of its JSON value,
/// or the text itself when it is not JSON.
pub open spec fn normalized_json(text: Seq<char>) -> Seq<char> {
    match json_value(text) {
        Some(v) => json_print(v),
        None => text,
    }
}

/// Two lockfile texts that parse to the same JSON value, whatever their
/// whitespace and the order of their keys, are compared as equal: neither
/// is stale against the other.
pub proof fn law_same_json_value_is_fresh(a: Seq<char>, b: Seq<char>)
    requires
        json_value(a) is Some,
        json_value(a) == json_value(b),
    ensures
        normalized_json(a) == normalized_json(b),
{
}

/// The compared form of a lockfile text.
fn normalize_json_text(text: &str) -> (r: String)
    ensures
        r@ == normalized_json(text@),
{
    match compact_json(text) {
        Some(c) => c,
        None => text.to_owned(),
    }
}

/// Whether the committed lockfile is stale: its text and the regenerated
/// one differ once whitespace and key order are set aside (texts that are
/// not JSON are compared as they stand).
pub fn lockfile_is_stale(committed: &str, regenerated: &str) -> (r: bool)
    ensures
        r <==> normalized_json(committed@) != normalized_json(regenerated@),
{
    let a = normalize_json_text(committed);
    let b = normalize_json_text(regenerated);
    !str_eq(a.as_str(), b.as_str())
}

} // verus!
