//! The private-tier audience rule: every private-tier lexicon is gated by
//! an audience list, or exempt for a stated reason.

use crate::error::BuildError;
use crate::lexicon::{
    collection_docs, declares_audience_list, file_declares, file_event, json_lexicon_id,
    lemma_declared_shape, lemma_loaded_docs, lexicon_json, loaded_docs, main_declares_audience_list,
    model_declares_audience_list, parse_result_is, MainShape, ParsedLexicon, AUDIENCE_LEXICON,
};
use proto_blue_lexicon::Lexicons;
use crate::manifest::{manifest_rows, Manifest, ManifestEntry};
use crate::entries::{manifest_matches_registry, registry_differs_at};
use crate::registry::{law_registry_is_a_map, registered_tier, registry_rows};
use crate::rows::{distinct_keys, lemma_lookup, lemma_lookup_distinct, lookup};
use crate::tier::Tier;
use crate::text::str_eq;
use vstd::prelude::*;

verus! {

/// The parsed lexicons' main definitions, keyed by NSID.
pub open spec fn parsed_rows(docs: Seq<ParsedLexicon>) -> Seq<(Seq<char>, MainShape)> {
    docs.map_values(|d: ParsedLexicon| (d.id@, d.main))
}

/// The entry is marked exempt but gives no (or an empty) reason.
pub open spec fn reason_missing(me: ManifestEntry) -> bool {
    match me.exemption_reason {
        Some(r) => r@.len() == 0,
        None => true,
    }
}

/// The private-tier entry of `nsid` breaks the audience rule: an exempt
/// entry must give a reason; a non-exempt one must not be the audience
/// lexicon itself and must have a lexicon whose main definition declares
/// the audience-list field.
pub open spec fn audience_violated(
    nsid: Seq<char>,
    me: ManifestEntry,
    docs: Seq<(Seq<char>, MainShape)>,
) -> bool {
    &&& me.tier@ == "private"@
    &&& if me.audience_exempt {
        reason_missing(me)
    } else {
        nsid == AUDIENCE_LEXICON@ || lookup(docs, nsid) is None || !declares_audience_list(
            lookup(docs, nsid).unwrap(),
        )
    }
}

/// The message for a private-tier NSID with no lexicon document.
pub open spec fn no_lexicon_message(nsid: Seq<char>) -> Seq<char> {
    "private-tier NSID `"@ + nsid + "` has no lexicon JSON"@
}

/// `e` reports how the private-tier entry of `nsid` breaks the rule.
pub open spec fn audience_error(
    e: BuildError,
    nsid: Seq<char>,
    me: ManifestEntry,
    docs: Seq<(Seq<char>, MainShape)>,
) -> bool {
    if me.audience_exempt {
        e matches BuildError::MissingExemptionReason(n) && n@ == nsid
    } else if nsid == AUDIENCE_LEXICON@ {
        e matches BuildError::AudienceMechanismMustBeExempt { nsid: n } && n@ == nsid
    } else if lookup(docs, nsid) is None {
        e matches BuildError::ManifestParse(msg) && msg@ == no_lexicon_message(nsid)
    } else {
        e matches BuildError::PrivateLexiconMissingAudienceRef { nsid: n, expected_ref }
            && n@ == nsid && expected_ref@ == AUDIENCE_LEXICON@
    }
}

/// The audience rule for one non-exempt private-tier entry.
fn check_audience_list(nsid: &String, entry: &ManifestEntry, parsed: &Vec<ParsedLexicon>) -> (r: Result<
    (),
    BuildError,
>)
    requires
        entry.tier@ == "private"@,
        !entry.audience_exempt,
    ensures
        r is Ok <==> !audience_violated(nsid@, *entry, parsed_rows(parsed@)),
        r matches Err(e) ==> audience_error(e, nsid@, *entry, parsed_rows(parsed@)),
{
    let ghost docs = parsed_rows(parsed@);
    let ghost k = nsid@;
    if str_eq(nsid.as_str(), AUDIENCE_LEXICON) {
        return Err(BuildError::AudienceMechanismMustBeExempt { nsid: nsid.clone() });
    }
    let mut found: Option<usize> = None;
    for j in 0..parsed.len()
        invariant
            docs == parsed_rows(parsed@),
            match found {
                Some(x) => x < j && docs[x as int].0 == nsid@ && forall|y: int|
                    0 <= y < x ==> docs[y].0 != nsid@,
                None => forall|y: int| 0 <= y < j ==> docs[y].0 != nsid@,
            },
    {
        if found.is_none() && str_eq(parsed[j].id.as_str(), nsid.as_str()) {
            found = Some(j);
        }
    }
    proof {
        crate::rows::lemma_lookup(docs, k);
    }
    match found {
        None => {
            let mut msg = String::from_str("private-tier NSID `");
            msg.append(nsid.as_str());
            msg.append("` has no lexicon JSON");
            assert(msg@ =~= no_lexicon_message(k));
            Err(BuildError::ManifestParse(msg))
        },
        Some(x) => {
            assert(lookup(docs, k) == Some(parsed@[x as int].main));
            if main_declares_audience_list(&parsed[x].main) {
                Ok(())
            } else {
                Err(
                    BuildError::PrivateLexiconMissingAudienceRef {
                        nsid: nsid.clone(),
                        expected_ref: String::from_str(AUDIENCE_LEXICON),
                    },
                )
            }
        },
    }
}

/// Hold every private-tier lexicon of the manifest to the audience rule,
/// in manifest order.
///
/// # Errors
///
/// The first private-tier entry that breaks the rule, as
/// [`audience_error`] describes.
pub fn validate_private_tier_audience_refs(
    manifest: &Manifest,
    parsed: &Vec<ParsedLexicon>,
) -> (r: Result<(), BuildError>)
    ensures
        ({
            let rows = manifest_rows(*manifest);
            let docs = parsed_rows(parsed@);
            &&& r is Ok <==> forall|i: int|
                0 <= i < rows.len() ==> !audience_violated(#[trigger] rows[i].0, rows[i].1, docs)
            &&& r matches Err(e) ==> exists|i: int|
                0 <= i < rows.len() && audience_violated(#[trigger] rows[i].0, rows[i].1, docs)
                    && (forall|j: int|
                    0 <= j < i ==> !audience_violated(#[trigger] rows[j].0, rows[j].1, docs))
                    && audience_error(e, rows[i].0, rows[i].1, docs)
        }),
{
    let ghost rows = manifest_rows(*manifest);
    let ghost docs = parsed_rows(parsed@);
    for i in 0..manifest.lexicons.len()
        invariant
            rows == manifest_rows(*manifest),
            docs == parsed_rows(parsed@),
            forall|j: int| 0 <= j < i ==> !audience_violated(#[trigger] rows[j].0, rows[j].1, docs),
    {
        let nsid = &manifest.lexicons[i].0;
        let entry = &manifest.lexicons[i].1;
        let ghost k = rows[i as int].0;
        assert(k == nsid@ && rows[i as int].1 == *entry);
        if str_eq(entry.tier.as_str(), "private") {
            if entry.audience_exempt {
                let missing = match &entry.exemption_reason {
                    Some(reason) => reason.as_str().is_empty(),
                    None => true,
                };
                if missing {
                    let e = BuildError::MissingExemptionReason(nsid.clone());
                    assert(audience_violated(k, *entry, docs));
                    return Err(e);
                }
            } else {
                let r = check_audience_list(nsid, entry, parsed);
                if let Err(e) = r {
                    return Err(e);
                }
            }
        }
    }
    Ok(())
}

/// An entry that is exempt from the audience rule and gives a non-empty
/// reason never breaks the rule, whatever its NSID, its tier and whether
/// a lexicon document exists for it.
pub proof fn law_exempt_with_reason_passes(
    nsid: Seq<char>,
    me: ManifestEntry,
    docs: Seq<(Seq<char>, MainShape)>,
)
    requires
        me.audience_exempt,
        me.exemption_reason matches Some(r) && r@.len() > 0,
    ensures
        !audience_violated(nsid, me, docs),
{
}

/// A manifest whose private-tier entries are all exempt with a non-empty
/// reason passes the audience rule, with or without lexicon documents.
pub proof fn law_all_exempt_manifest_passes(
    rows: Seq<(Seq<char>, ManifestEntry)>,
    docs: Seq<(Seq<char>, MainShape)>,
)
    requires
        forall|i: int|
            0 <= i < rows.len() && (#[trigger] rows[i]).1.tier@ == "private"@ ==> rows[i].1.audience_exempt
                && (rows[i].1.exemption_reason matches Some(r) && r@.len() > 0),
    ensures
        forall|i: int| 0 <= i < rows.len() ==> !audience_violated(#[trigger] rows[i].0, rows[i].1, docs),
{
    assert forall|i: int| 0 <= i < rows.len() implies !audience_violated(
        #[trigger] rows[i].0,
        rows[i].1,
        docs,
    ) by {
        if rows[i].1.tier@ == "private"@ {
            law_exempt_with_reason_passes(rows[i].0, rows[i].1, docs);
        }
    }
}

/// The audience rule, stated positively: every private-tier lexicon of a
/// manifest that passes it is either exempt with a non-empty reason, or is
/// not the audience lexicon itself and has a lexicon document whose main
/// definition declares the audience-list field.
pub proof fn law_private_lexicons_are_gated(
    rows: Seq<(Seq<char>, ManifestEntry)>,
    docs: Seq<(Seq<char>, MainShape)>,
    i: int,
)
    requires
        forall|j: int| 0 <= j < rows.len() ==> !audience_violated(#[trigger] rows[j].0, rows[j].1, docs),
        0 <= i < rows.len(),
        rows[i].1.tier@ == "private"@,
    ensures
        (rows[i].1.audience_exempt && !reason_missing(rows[i].1)) || (!rows[i].1.audience_exempt
            && rows[i].0 != AUDIENCE_LEXICON@ && lookup(docs, rows[i].0) is Some
            && declares_audience_list(lookup(docs, rows[i].0).unwrap())),
{
    assert(!audience_violated(rows[i].0, rows[i].1, docs));
}

/// The audience rule, read through the registry that `Tier::from_nsid`
/// consults: when the manifest matches the registry and passes the rule,
/// every NSID the registry calls private has a manifest entry that is
/// either exempt with a non-empty reason, or not exempt, not the audience
/// lexicon itself, and backed by a lexicon document whose main definition
/// declares the audience-list field.
pub proof fn law_registry_private_lexicons_are_gated(
    rows: Seq<(Seq<char>, ManifestEntry)>,
    docs: Seq<(Seq<char>, MainShape)>,
    nsid: Seq<char>,
)
    requires
        manifest_matches_registry(rows),
        forall|j: int| 0 <= j < rows.len() ==> !audience_violated(#[trigger] rows[j].0, rows[j].1, docs),
        registered_tier(nsid) == Some(Tier::Private),
    ensures
        lookup(rows, nsid) is Some,
        ({
            let me = lookup(rows, nsid).unwrap();
            ||| me.audience_exempt && !reason_missing(me)
            ||| !me.audience_exempt && nsid != AUDIENCE_LEXICON@ && lookup(docs, nsid) is Some
                && declares_audience_list(lookup(docs, nsid).unwrap())
        }),
{
    let reg = registry_rows();
    law_registry_is_a_map();
    lemma_lookup(reg, nsid);
    let k = choose|k: int| 0 <= k < reg.len() && reg[k].0 == nsid;
    lemma_lookup_distinct(reg, k);
    assert(!registry_differs_at(rows, k));
    assert(distinct_keys(rows)) by {
        assert forall|i: int, j: int| 0 <= i < j < rows.len() implies rows[i].0 != rows[j].0 by {
            assert(!registry_differs_at(rows, i));
            assert(!registry_differs_at(rows, j));
        }
    }
    lemma_lookup_distinct(rows, k);
    assert(rows[k].1.tier@ == "private"@);
    law_private_lexicons_are_gated(rows, docs, k);
}

/// The build checks passed on the lexicon files `files`, the manifest rows
/// `rows` and the embedded table `table`, and `l` is the collection built
/// from the table: every file parses and no two declare one NSID; the
/// files declare exactly the manifest's NSIDs; the manifest matches the
/// registry; the table holds the files' texts in order; and `l` is what
/// `build_lexicons` gives for the table.
pub open spec fn checked_collection(
    files: Seq<(String, String)>,
    rows: Seq<(Seq<char>, ManifestEntry)>,
    table: Seq<(String, String)>,
    l: Lexicons,
) -> bool {
    &&& forall|i: int| 0 <= i < files.len() ==> !file_event(files, i)
    &&& forall|i: int, x: Seq<char>|
        0 <= i < files.len() && #[trigger] file_declares(files, i, x) ==> exists|j: int|
            0 <= j < rows.len() && #[trigger] rows[j].0 == x
    &&& forall|j: int|
        0 <= j < rows.len() ==> exists|i: int|
            0 <= i < files.len() && #[trigger] file_declares(files, i, #[trigger] rows[j].0)
    &&& manifest_matches_registry(rows)
    &&& table.len() == files.len()
    &&& forall|i: int| 0 <= i < table.len() ==> #[trigger] table[i].1@ == files[i].1@
    &&& collection_docs(l) == loaded_docs(table, table.len() as int)
    &&& forall|i: int|
        0 <= i < table.len() ==> (lexicon_json(#[trigger] table[i].1@) matches Ok(v) && v.id
            == json_lexicon_id(table[i].1@))
}

/// Under the build checks, the table's documents carry the files' NSIDs,
/// which are pairwise different.
proof fn lemma_checked_ids(
    files: Seq<(String, String)>,
    rows: Seq<(Seq<char>, ManifestEntry)>,
    table: Seq<(String, String)>,
    l: Lexicons,
)
    requires
        checked_collection(files, rows, table, l),
    ensures
        forall|i: int|
            0 <= i < table.len() ==> file_declares(files, i, json_lexicon_id(#[trigger] table[i].1@)),
        forall|i: int, j: int|
            0 <= i < j < table.len() ==> json_lexicon_id(#[trigger] table[i].1@) != json_lexicon_id(
                #[trigger] table[j].1@,
            ),
{
    assert forall|i: int| 0 <= i < table.len() implies file_declares(
        files,
        i,
        json_lexicon_id(#[trigger] table[i].1@),
    ) by {
        assert(table[i].1@ == files[i].1@);
    }
    assert forall|i: int, j: int| 0 <= i < j < table.len() implies json_lexicon_id(
        #[trigger] table[i].1@,
    ) != json_lexicon_id(#[trigger] table[j].1@) by {
        assert(table[i].1@ == files[i].1@);
        assert(table[j].1@ == files[j].1@);
        assert(!file_event(files, j));
        assert(lexicon_json(files[j].1@) is Ok);
        if json_lexicon_id(table[i].1@) == json_lexicon_id(table[j].1@) {
            assert(lexicon_json(files[i].1@) matches Ok(w) && w.id == lexicon_json(
                files[j].1@,
            )->Ok_0.id);
        }
    }
}

/// The collection built from lexicon files that passed the build checks
/// holds exactly the registered NSIDs: an NSID has a document there if
/// and only if `Tier::from_nsid` resolves it.
pub proof fn law_checked_collection_is_the_registry(
    files: Seq<(String, String)>,
    rows: Seq<(Seq<char>, ManifestEntry)>,
    table: Seq<(String, String)>,
    l: Lexicons,
    s: Seq<char>,
)
    requires
        checked_collection(files, rows, table, l),
    ensures
        collection_docs(l).contains_key(s) <==> registered_tier(s) is Some,
{
    lemma_checked_ids(files, rows, table, l);
    lemma_loaded_docs(table, table.len() as int, s);
    let reg = registry_rows();
    lemma_lookup(reg, s);
    if collection_docs(l).contains_key(s) {
        let i = choose|i: int| 0 <= i < table.len() && json_lexicon_id(#[trigger] table[i].1@) == s;
        assert(file_declares(files, i, s));
        let j = choose|j: int| 0 <= j < rows.len() && #[trigger] rows[j].0 == s;
        assert(!registry_differs_at(rows, j));
        assert(reg[j].0 == s);
    }
    if registered_tier(s) is Some {
        let k = choose|k: int| 0 <= k < reg.len() && reg[k].0 == s;
        assert(!registry_differs_at(rows, k));
        assert(rows[k].0 == s);
        let i = choose|i: int| 0 <= i < files.len() && #[trigger] file_declares(files, i, s);
        assert(table[i].1@ == files[i].1@);
        assert(file_declares(files, i, json_lexicon_id(table[i].1@)));
        assert(json_lexicon_id(table[i].1@) == s);
    }
}

/// The audience rule, read on the collection built from lexicon files that
/// passed the build checks and the audience rule: every NSID the registry
/// calls private has a manifest entry that is either exempt with a
/// non-empty reason, or not exempt and held in the collection by a
/// document whose main definition, a record's object or an object, has an
/// `audienceList` property that is an `at-uri` string.
pub proof fn law_checked_collection_private_lexicons_are_gated(
    files: Seq<(String, String)>,
    rows: Seq<(Seq<char>, ManifestEntry)>,
    table: Seq<(String, String)>,
    l: Lexicons,
    parsed: Seq<ParsedLexicon>,
    s: Seq<char>,
)
    requires
        checked_collection(files, rows, table, l),
        parsed.len() == files.len(),
        forall|i: int|
            0 <= i < files.len() ==> parse_result_is(Ok(#[trigger] parsed[i]), files[i].1@),
        forall|j: int|
            0 <= j < rows.len() ==> !audience_violated(
                #[trigger] rows[j].0,
                rows[j].1,
                parsed_rows(parsed),
            ),
        registered_tier(s) == Some(Tier::Private),
    ensures
        lookup(rows, s) is Some,
        ({
            let me = lookup(rows, s).unwrap();
            ||| me.audience_exempt && !reason_missing(me)
            ||| !me.audience_exempt && collection_docs(l).contains_key(s) && (lexicon_json(
                collection_docs(l)[s],
            ) matches Ok(v) && model_declares_audience_list(v))
        }),
{
    let docs = parsed_rows(parsed);
    law_registry_private_lexicons_are_gated(rows, docs, s);
    let me = lookup(rows, s).unwrap();
    if !me.audience_exempt {
        lemma_checked_ids(files, rows, table, l);
        lemma_lookup(docs, s);
        let i = choose|i: int| 0 <= i < docs.len() && docs[i].0 == s;
        assert(parse_result_is(Ok(parsed[i]), files[i].1@));
        assert(distinct_keys(docs)) by {
            assert forall|a: int, b: int| 0 <= a < b < docs.len() implies docs[a].0 != docs[b].0 by {
                assert(parse_result_is(Ok(parsed[a]), files[a].1@));
                assert(parse_result_is(Ok(parsed[b]), files[b].1@));
                assert(!file_event(files, b));
                if docs[a].0 == docs[b].0 {
                    assert(lexicon_json(files[a].1@) matches Ok(w) && w.id == lexicon_json(
                        files[b].1@,
                    )->Ok_0.id);
                }
            }
        }
        lemma_lookup_distinct(docs, i);
        let v = lexicon_json(files[i].1@)->Ok_0;
        lemma_declared_shape(parsed[i].main, v);
        assert(table[i].1@ == files[i].1@);
        assert(file_declares(files, i, json_lexicon_id(table[i].1@)));
        assert(json_lexicon_id(table[i].1@) == s);
        lemma_loaded_docs(table, table.len() as int, s);
    }
}

} // verus!
