//! Lexicon documents: parsing them, reading the shape of their main
//! definition, and loading them into a lexicon collection.

use crate::error::BuildError;
use crate::manifest::{clone_opt, opt_view};
use crate::rows::{find_row, lemma_lookup, rows_map};
use crate::text::{contains_str, sorted_unique, str_eq, strictly_sorted, strings_view};
use proto_blue_lexicon::{LexUserType, LexiconDoc, LexiconError, Lexicons};
use vstd::prelude::*;

verus! {

/// `proto_blue_lexicon::Lexicons`, a collection of lexicon documents; opaque here.
#[verifier::external_type_specification]
#[verifier::external_body]
pub struct ExLexicons(Lexicons);

/// `proto_blue_lexicon::LexiconError`, why a document was refused; opaque here.
#[verifier::external_type_specification]
#[verifier::external_body]
pub struct ExLexiconError(LexiconError);

/// The NSID of the audience lexicon, which private-tier lexicons point at.
pub const AUDIENCE_LEXICON: &'static str = "tools.kryphocron.policy.audience";

/// What the `audienceList` property of a main object is.
#[derive(Debug, Clone, PartialEq, Eq)]
pub enum AudienceListShape {
    /// There is no such property.
    Absent,
    /// The property is a string, with this format if one is given.
    Str(Option<String>),
    /// The property has another type.
    Other,
}

/// What the `main` definition of a lexicon is, as far as the audience rule
/// reads it.
#[derive(Debug, Clone, PartialEq, Eq)]
pub enum MainShape {
    /// The lexicon has no `main` definition.
    Missing,
    /// `main` is neither a record nor an object.
    NotAnObject,
    /// `main` is a record or an object; its `audienceList` property.
    Object(AudienceListShape),
}

/// A parsed lexicon document: its NSID and the shape of its main definition.
#[derive(Debug, Clone, PartialEq, Eq)]
pub struct ParsedLexicon {
    /// The NSID the document declares.
    pub id: String,
    /// The shape of its `main` definition.
    pub main: MainShape,
}

/// What one property of an object definition is, as the audience rule
/// reads it.
pub enum PropKind {
    /// A string, with this format if one is given.
    Str(Option<String>),
    /// Any other type.
    Other,
}

/// A property kind by its characters.
pub enum PropModel {
    /// A string, with this format if one is given.
    Str(Option<Seq<char>>),
    /// Any other type.
    Other,
}

/// What kind of definition a lexicon definition is, as the audience rule
/// reads it.
#[derive(Debug, Clone, Copy, PartialEq, Eq, Structural)]
pub enum DefKind {
    /// A record; its properties are those of the record's object.
    Record,
    /// An object.
    Object,
    /// Any other definition; it has no properties here.
    Other,
}

/// The facts of a lexicon document that the audience rule reads: its NSID
/// and, for each definition by name, its kind and the properties of its
/// object (a record's object, or the object itself; none otherwise).
pub struct LexiconFacts {
    /// The NSID the document declares.
    pub id: String,
    /// The definitions, by name.
    pub defs: Vec<(String, (DefKind, Vec<(String, PropKind)>))>,
}

/// A definition by its characters.
pub enum DefModel {
    /// A record, with the properties of its object.
    Record(Map<Seq<char>, PropModel>),
    /// An object, with its properties.
    Object(Map<Seq<char>, PropModel>),
    /// Any other definition.
    Other,
}

/// The facts of a lexicon document as maps: names are keys, and the order
/// in which definitions and properties were listed plays no part.
pub struct LexiconModel {
    /// The NSID the document declares.
    pub id: Seq<char>,
    /// Each definition by name.
    pub defs: Map<Seq<char>, DefModel>,
}

/// A property kind by its characters.
pub open spec fn prop_model(p: PropKind) -> PropModel {
    match p {
        PropKind::Str(f) => PropModel::Str(opt_view(f)),
        PropKind::Other => PropModel::Other,
    }
}

/// The rows of an object's properties, by their characters.
pub open spec fn prop_rows(ps: Seq<(String, PropKind)>) -> Seq<(Seq<char>, PropModel)> {
    ps.map_values(|p: (String, PropKind)| (p.0@, prop_model(p.1)))
}

/// An object's properties as a map.
pub open spec fn props_map(ps: Seq<(String, PropKind)>) -> Map<Seq<char>, PropModel> {
    rows_map(prop_rows(ps))
}

/// A definition by its characters.
pub open spec fn def_model(kind: DefKind, ps: Vec<(String, PropKind)>) -> DefModel {
    match kind {
        DefKind::Record => DefModel::Record(props_map(ps@)),
        DefKind::Object => DefModel::Object(props_map(ps@)),
        DefKind::Other => DefModel::Other,
    }
}

/// The rows of a document's definitions, by their characters.
pub open spec fn def_rows(ds: Seq<(String, (DefKind, Vec<(String, PropKind)>))>) -> Seq<
    (Seq<char>, DefModel),
> {
    ds.map_values(|d: (String, (DefKind, Vec<(String, PropKind)>))| (d.0@, def_model(d.1.0, d.1.1)))
}

impl View for LexiconFacts {
    type V = LexiconModel;

    open spec fn view(&self) -> LexiconModel {
        LexiconModel { id: self.id@, defs: rows_map(def_rows(self.defs@)) }
    }
}

/// The facts of the lexicon document that the JSON text `raw` parses to,
/// or the parser's message when it does not parse.
pub uninterp spec fn lexicon_json(raw: Seq<char>) -> Result<LexiconModel, Seq<char>>;

/// `serde_json::from_str::<LexiconDoc>`: parses a lexicon document and
/// reads from it what the audience rule needs; on failure, the parser's
/// message (`Display` of `serde_json::Error`). Claimed: the result is
/// `lexicon_json` of the text, by its view. What the parser accepts is not
/// stated.
#[verifier::external_body]
fn read_lexicon_json(raw: &str) -> (r: Result<LexiconFacts, String>)
    ensures
        match r {
            Ok(f) => lexicon_json(raw@) == Ok::<LexiconModel, Seq<char>>(f@),
            Err(m) => lexicon_json(raw@) == Err::<LexiconModel, Seq<char>>(m@),
        },
{
    match serde_json::from_str::<LexiconDoc>(raw) {
        Err(e) => Err(format!("{e}")),
        Ok(doc) => Ok(LexiconFacts { id: doc.id, defs: doc.defs.into_iter().map(|(k, d)| {
            let (kind, ps) = match d {
                LexUserType::Record(r) => (DefKind::Record, r.record.properties),
                LexUserType::Object(o) => (DefKind::Object, o.properties),
                _ => (DefKind::Other, std::collections::HashMap::new()),
            };
            (k, (kind, ps.into_iter().map(|(n, t)| (n, match t {
                LexUserType::String(s) => PropKind::Str(s.format),
                _ => PropKind::Other,
            })).collect()))
        }).collect() }),
    }
}

/// `s` is the shape of the `audienceList` property among `props`.
pub open spec fn audience_shape_is(s: AudienceListShape, props: Map<Seq<char>, PropModel>) -> bool {
    if props.contains_key("audienceList"@) {
        match props["audienceList"@] {
            PropModel::Str(f) => s matches AudienceListShape::Str(g) && opt_view(g) == f,
            PropModel::Other => s is Other,
        }
    } else {
        s is Absent
    }
}

/// `m` is the shape of the `main` definition among `defs`: a record is
/// read through its object, an object as it stands.
pub open spec fn main_shape_is(m: MainShape, defs: Map<Seq<char>, DefModel>) -> bool {
    if defs.contains_key("main"@) {
        match defs["main"@] {
            DefModel::Record(props) => m matches MainShape::Object(a) && audience_shape_is(a, props),
            DefModel::Object(props) => m matches MainShape::Object(a) && audience_shape_is(a, props),
            DefModel::Other => m is NotAnObject,
        }
    } else {
        m is Missing
    }
}

/// The shape of the `audienceList` property of an object definition.
fn audience_list_shape(props: &Vec<(String, PropKind)>) -> (r: AudienceListShape)
    ensures
        audience_shape_is(r, props_map(props@)),
{
    let ghost rows = prop_rows(props@);
    let found = find_row(props, "audienceList");
    proof {
        lemma_lookup(rows, "audienceList"@);
        assert forall|j: int| 0 <= j < rows.len() implies #[trigger] rows[j].0 == props@[j].0@ by {}
    }
    match found {
        None => AudienceListShape::Absent,
        Some(i) => {
            assert(rows[i as int].1 == prop_model(props@[i as int].1));
            match &props[i].1 {
                PropKind::Str(f) => AudienceListShape::Str(clone_opt(f)),
                PropKind::Other => AudienceListShape::Other,
            }
        },
    }
}

/// The shape of the `main` definition of a document: a record's object or
/// an object, and its `audienceList` property.
fn main_shape(facts: &LexiconFacts) -> (r: MainShape)
    ensures
        main_shape_is(r, facts@.defs),
{
    let ghost rows = def_rows(facts.defs@);
    let found = find_row(&facts.defs, "main");
    proof {
        lemma_lookup(rows, "main"@);
        assert forall|j: int| 0 <= j < rows.len() implies #[trigger] rows[j].0 == facts.defs@[j].0@ by {}
    }
    match found {
        None => MainShape::Missing,
        Some(i) => {
            assert(rows[i as int].1 == def_model(
                facts.defs@[i as int].1.0,
                facts.defs@[i as int].1.1,
            ));
            match facts.defs[i].1.0 {
                DefKind::Record => MainShape::Object(audience_list_shape(&facts.defs[i].1.1)),
                DefKind::Object => MainShape::Object(audience_list_shape(&facts.defs[i].1.1)),
                DefKind::Other => MainShape::NotAnObject,
            }
        },
    }
}

/// `r` is what parsing the text `raw` gives: the document's NSID and the
/// shape of its main definition, or the parser's message.
pub open spec fn parse_result_is(r: Result<ParsedLexicon, String>, raw: Seq<char>) -> bool {
    match lexicon_json(raw) {
        Ok(v) => r matches Ok(p) && p.id@ == v.id && main_shape_is(p.main, v.defs),
        Err(e) => r matches Err(m) && m@ == e,
    }
}

/// Parse one lexicon document; on failure, the parser's message.
pub fn parse_lexicon(raw: &str) -> (r: Result<ParsedLexicon, String>)
    ensures
        parse_result_is(r, raw@),
{
    match read_lexicon_json(raw) {
        Ok(facts) => {
            let main = main_shape(&facts);
            Ok(ParsedLexicon { id: facts.id, main })
        },
        Err(m) => Err(m),
    }
}

/// Whether a main definition declares the audience-list field: an
/// `audienceList` property that is an `at-uri` string.
pub open spec fn declares_audience_list(m: MainShape) -> bool {
    m matches MainShape::Object(AudienceListShape::Str(Some(f))) && f@ == "at-uri"@
}

/// Whether a parsed document's main definition, a record's object or an
/// object, has an `audienceList` property that is an `at-uri` string.
pub open spec fn model_declares_audience_list(v: LexiconModel) -> bool {
    &&& v.defs.contains_key("main"@)
    &&& match v.defs["main"@] {
        DefModel::Record(p) => p.contains_key("audienceList"@) && p["audienceList"@]
            == PropModel::Str(Some("at-uri"@)),
        DefModel::Object(p) => p.contains_key("audienceList"@) && p["audienceList"@]
            == PropModel::Str(Some("at-uri"@)),
        DefModel::Other => false,
    }
}

/// A main shape read from a document that declares the audience-list
/// field says so of the document itself.
pub proof fn lemma_declared_shape(m: MainShape, v: LexiconModel)
    requires
        main_shape_is(m, v.defs),
        declares_audience_list(m),
    ensures
        model_declares_audience_list(v),
{
}

/// The file at `i` parses to a document declaring the NSID `x`.
pub open spec fn file_declares(files: Seq<(String, String)>, i: int, x: Seq<char>) -> bool {
    lexicon_json(files[i].1@) matches Ok(v) && v.id == x
}

/// Whether a main definition declares the audience-list field.
pub fn main_declares_audience_list(m: &MainShape) -> (r: bool)
    ensures
        r == declares_audience_list(*m),
{
    match m {
        MainShape::Object(AudienceListShape::Str(Some(f))) => str_eq(f.as_str(), "at-uri"),
        _ => false,
    }
}

// ---- Reading the lexicon directory ----

/// The outcome of parsing each lexicon file: its path, and the parsed
/// lexicon or the parser's message.
pub type ParseOutcome = (String, Result<ParsedLexicon, String>);

/// The file at `i` stops the reading: it did not parse, or it declares an
/// NSID that an earlier file already declared.
pub open spec fn lexicon_event(outs: Seq<ParseOutcome>, i: int) -> bool {
    match outs[i].1 {
        Err(_) => true,
        Ok(p) => exists|j: int| 0 <= j < i && (#[trigger] outs[j].1 matches Ok(q) && q.id@ == p.id@),
    }
}

/// `e` is the error that the file at `i` stops the reading with.
pub open spec fn lexicon_event_error(e: BuildError, outs: Seq<ParseOutcome>, i: int) -> bool {
    match outs[i].1 {
        Err(d) => e matches BuildError::LexiconParse { path, detail } && path@ == outs[i].0@ && detail@
            == d@,
        Ok(p) => e matches BuildError::DuplicateLexicon(n) && n@ == p.id@,
    }
}

/// No file stops the reading.
pub open spec fn no_lexicon_event(outs: Seq<ParseOutcome>) -> bool {
    forall|i: int| 0 <= i < outs.len() ==> !lexicon_event(outs, i)
}

/// `e` is the error of the first file that stops the reading.
pub open spec fn first_lexicon_event(outs: Seq<ParseOutcome>, e: BuildError) -> bool {
    exists|i: int|
        0 <= i < outs.len() && lexicon_event(outs, i) && (forall|j: int|
            0 <= j < i ==> !lexicon_event(outs, j)) && lexicon_event_error(e, outs, i)
}

/// Check the parse outcomes of the lexicon files, in file order: every
/// file parsed and no two declare the same NSID.
///
/// # Errors
///
/// For the first file that did not parse, [`BuildError::LexiconParse`]
/// with its path and the parser's message; for the first file declaring an
/// NSID already declared, [`BuildError::DuplicateLexicon`].
pub fn check_parsed_lexicons(outs: &Vec<ParseOutcome>) -> (r: Result<(), BuildError>)
    ensures
        r is Ok <==> no_lexicon_event(outs@),
        r matches Err(e) ==> first_lexicon_event(outs@, e),
{
    let mut ids: Vec<String> = Vec::new();
    for i in 0..outs.len()
        invariant
            forall|j: int| 0 <= j < i ==> !lexicon_event(outs@, j),
            ids.len() == i,
            forall|j: int|
                0 <= j < i ==> (#[trigger] outs@[j].1 matches Ok(q) && q.id@ == ids@[j]@),
    {
        match &outs[i].1 {
            Err(d) => {
                let e = BuildError::LexiconParse { path: outs[i].0.clone(), detail: d.clone() };
                assert(lexicon_event(outs@, i as int));
                return Err(e);
            },
            Ok(p) => {
                if contains_str(&ids, p.id.as_str()) {
                    proof {
                        let k = choose|k: int| 0 <= k < ids.len() && strings_view(ids@)[k] == p.id@;
                        assert(outs@[k].1 matches Ok(q) && q.id@ == p.id@);
                        assert(lexicon_event(outs@, i as int));
                    }
                    return Err(BuildError::DuplicateLexicon(p.id.clone()));
                }
                proof {
                    assert forall|j: int| 0 <= j < i implies !(#[trigger] outs@[j].1 matches Ok(q)
                        && q.id@ == p.id@) by {
                        assert(strings_view(ids@)[j] == ids@[j]@);
                    }
                }
                ids.push(p.id.clone());
            },
        }
    }
    Ok(())
}

/// The file at `i` stops the reading: its text does not parse, or it
/// declares an NSID that an earlier file already declared.
pub open spec fn file_event(files: Seq<(String, String)>, i: int) -> bool {
    match lexicon_json(files[i].1@) {
        Err(_) => true,
        Ok(v) => exists|j: int|
            0 <= j < i && (#[trigger] lexicon_json(files[j].1@) matches Ok(w) && w.id == v.id),
    }
}

/// `e` is the error that the file at `i` stops the reading with: the
/// parser's message with the file's path, or the NSID declared twice.
pub open spec fn file_event_error(e: BuildError, files: Seq<(String, String)>, i: int) -> bool {
    match lexicon_json(files[i].1@) {
        Err(d) => e matches BuildError::LexiconParse { path, detail } && path@ == files[i].0@
            && detail@ == d,
        Ok(v) => e matches BuildError::DuplicateLexicon(n) && n@ == v.id,
    }
}

/// With outcomes that are the parses of the files, a file stops the check
/// of the outcomes exactly when it stops the reading of the files, and
/// with the same error.
proof fn lemma_outcomes_of_files(outs: Seq<ParseOutcome>, files: Seq<(String, String)>, i: int)
    requires
        outs.len() == files.len(),
        forall|j: int| 0 <= j < outs.len() ==> #[trigger] outs[j].0@ == files[j].0@,
        forall|j: int| 0 <= j < outs.len() ==> parse_result_is(#[trigger] outs[j].1, files[j].1@),
        0 <= i < outs.len(),
    ensures
        lexicon_event(outs, i) <==> file_event(files, i),
        forall|e: BuildError| lexicon_event_error(e, outs, i) ==> file_event_error(e, files, i),
{
    assert(parse_result_is(outs[i].1, files[i].1@));
    assert(outs[i].0@ == files[i].0@);
    match lexicon_json(files[i].1@) {
        Err(_) => {},
        Ok(v) => {
            if lexicon_event(outs, i) {
                let j = choose|j: int|
                    0 <= j < i && (#[trigger] outs[j].1 matches Ok(q) && q.id@ == outs[i].1->Ok_0.id@);
                assert(parse_result_is(outs[j].1, files[j].1@));
                assert(lexicon_json(files[j].1@) matches Ok(w) && w.id == v.id);
            }
            if file_event(files, i) {
                let j = choose|j: int|
                    0 <= j < i && (#[trigger] lexicon_json(files[j].1@) matches Ok(w) && w.id == v.id);
                assert(parse_result_is(outs[j].1, files[j].1@));
                assert(outs[j].1 matches Ok(q) && q.id@ == outs[i].1->Ok_0.id@);
            }
        },
    }
}

/// Parse the lexicon files, given as (path, JSON text) in path order, and
/// hold them to [`check_parsed_lexicons`]: every file parses and no two
/// declare the same NSID.
///
/// # Errors
///
/// For the first file that stops the reading, as [`file_event_error`]
/// describes.
pub fn parse_lexicon_files(files: &Vec<(String, String)>) -> (r: Result<Vec<ParsedLexicon>, BuildError>)
    ensures
        r is Ok <==> forall|i: int| 0 <= i < files.len() ==> !file_event(files@, i),
        r matches Ok(v) ==> v.len() == files.len() && forall|i: int|
            0 <= i < files.len() ==> parse_result_is(Ok(#[trigger] v@[i]), files@[i].1@),
        r matches Err(e) ==> exists|i: int|
            0 <= i < files.len() && file_event(files@, i) && (forall|j: int|
                0 <= j < i ==> !file_event(files@, j)) && file_event_error(e, files@, i),
{
    let mut outs: Vec<ParseOutcome> = Vec::new();
    for i in 0..files.len()
        invariant
            outs.len() == i,
            forall|j: int| 0 <= j < i ==> #[trigger] outs@[j].0@ == files@[j].0@,
            forall|j: int| 0 <= j < i ==> parse_result_is(#[trigger] outs@[j].1, files@[j].1@),
    {
        outs.push((files[i].0.clone(), parse_lexicon(files[i].1.as_str())));
    }
    let ghost all = outs@;
    proof {
        assert forall|i: int| 0 <= i < all.len() implies (lexicon_event(all, i) <==> file_event(
            files@,
            i,
        )) && (forall|e: BuildError| lexicon_event_error(e, all, i) ==> file_event_error(e, files@, i))
            by {
            lemma_outcomes_of_files(all, files@, i);
        }
    }
    match check_parsed_lexicons(&outs) {
        Err(e) => {
            proof {
                let i = choose|i: int|
                    0 <= i < all.len() && lexicon_event(all, i) && (forall|j: int|
                        0 <= j < i ==> !lexicon_event(all, j)) && lexicon_event_error(e, all, i);
                assert(file_event(files@, i) && file_event_error(e, files@, i));
                assert forall|j: int| 0 <= j < i implies !file_event(files@, j) by {
                    assert(!lexicon_event(all, j));
                }
                assert(!(forall|k: int| 0 <= k < files.len() ==> !file_event(files@, k)));
            }
            return Err(e);
        },
        Ok(()) => {},
    }
    let mut docs: Vec<ParsedLexicon> = Vec::new();
    let n = outs.len();
    while outs.len() > 0
        invariant
            n == all.len(),
            no_lexicon_event(all),
            docs.len() + outs.len() == n,
            outs@ == all.skip(docs.len() as int),
            forall|j: int| 0 <= j < docs.len() ==> #[trigger] all[j].1 == Ok::<ParsedLexicon, String>(docs@[j]),
        decreases outs.len(),
    {
        let k = docs.len();
        let (_, res) = outs.remove(0);
        assert(all[k as int] == all.skip(k as int)[0]);
        assert(!lexicon_event(all, k as int));
        match res {
            Ok(p) => {
                docs.push(p);
            },
            Err(_) => {
                assert(false);
            },
        }
        assert(outs@ =~= all.skip(docs.len() as int));
    }
    proof {
        assert forall|i: int| 0 <= i < files.len() implies !file_event(files@, i) by {
            assert(!lexicon_event(all, i));
        }
        assert forall|i: int| 0 <= i < files.len() implies parse_result_is(
            Ok(#[trigger] docs@[i]),
            files@[i].1@,
        ) by {
            assert(all[i].1 == Ok::<ParsedLexicon, String>(docs@[i]));
        }
    }
    Ok(docs)
}

/// The NSIDs of the parsed lexicons, distinct and in code-point order.
pub fn lexicon_nsids(docs: &Vec<ParsedLexicon>) -> (r: Vec<String>)
    ensures
        strictly_sorted(strings_view(r@)),
        forall|x: Seq<char>|
            strings_view(r@).contains(x) <==> exists|i: int|
                0 <= i < docs.len() && #[trigger] docs@[i].id@ == x,
{
    let mut ids: Vec<String> = Vec::new();
    for i in 0..docs.len()
        invariant
            ids.len() == i,
            forall|j: int| 0 <= j < i ==> #[trigger] ids@[j]@ == docs@[j].id@,
    {
        ids.push(docs[i].id.clone());
    }
    let r = sorted_unique(&ids);
    proof {
        assert forall|x: Seq<char>|
            strings_view(ids@).contains(x) <==> exists|i: int|
                0 <= i < docs.len() && #[trigger] docs@[i].id@ == x by {
            if strings_view(ids@).contains(x) {
                let j = choose|j: int| 0 <= j < ids.len() && strings_view(ids@)[j] == x;
                assert(docs@[j].id@ == x);
            }
            if exists|i: int| 0 <= i < docs.len() && #[trigger] docs@[i].id@ == x {
                let i = choose|i: int| 0 <= i < docs.len() && #[trigger] docs@[i].id@ == x;
                assert(strings_view(ids@)[i] == x);
            }
        }
    }
    r
}

/// Lexicons that pass the check declare pairwise different NSIDs.
pub proof fn law_accepted_lexicon_ids_distinct(outs: Seq<ParseOutcome>, i: int, j: int)
    requires
        no_lexicon_event(outs),
        0 <= i < j < outs.len(),
    ensures
        outs[i].1 is Ok && outs[j].1 is Ok && outs[i].1->Ok_0.id@ != outs[j].1->Ok_0.id@,
{
    assert(!lexicon_event(outs, i));
    assert(!lexicon_event(outs, j));
}

// ---- The lexicon collection ----

/// The documents a lexicon collection holds: for each NSID, the JSON text
/// the document held under it was parsed from.
pub uninterp spec fn collection_docs(l: Lexicons) -> Map<Seq<char>, Seq<char>>;

/// The NSIDs of the documents a lexicon collection holds.
pub open spec fn collection_nsids(l: Lexicons) -> Set<Seq<char>> {
    collection_docs(l).dom()
}

/// The `id` field of the lexicon document that `json` parses to.
pub uninterp spec fn json_lexicon_id(json: Seq<char>) -> Seq<char>;

/// Whether the text `json` parses to a lexicon document that passes the
/// collection's load-time refinements (primary definitions only under
/// `main`, every `required` entry among the object's properties).
pub uninterp spec fn lexicon_loads(json: Seq<char>) -> bool;

/// `Lexicons::new`: an empty collection.
#[verifier::external_body]
fn lexicons_new() -> (l: Lexicons)
    ensures
        collection_docs(l).dom() == Set::<Seq<char>>::empty(),
{
    Lexicons::new()
}

/// `Lexicons::add_from_json`: parses a document and adds it. Claimed: it
/// succeeds exactly when the document loads and the collection does not
/// yet hold its NSID (a second document for an NSID is refused); on
/// success the collection holds, under that NSID, the document parsed
/// from `json`, and the text parses, by the same parser as `lexicon_json`,
/// to a document with that NSID; on failure the collection is unchanged.
/// Which documents load is not stated.
#[verifier::external_body]
fn lexicons_add_from_json(l: &mut Lexicons, json: &str) -> (r: Result<(), LexiconError>)
    ensures
        r is Ok <==> lexicon_loads(json@) && !collection_docs(*old(l)).contains_key(
            json_lexicon_id(json@),
        ),
        r is Ok ==> collection_docs(*final(l)) == collection_docs(*old(l)).insert(
            json_lexicon_id(json@),
            json@,
        ),
        r is Ok ==> (lexicon_json(json@) matches Ok(v) && v.id == json_lexicon_id(json@)),
        r is Err ==> collection_docs(*final(l)) == collection_docs(*old(l)),
{
    l.add_from_json(json)
}

/// A lexicon document that the collection refused, and why.
#[derive(Debug)]
pub struct LexiconLoadError {
    /// The NSID the document was embedded under.
    pub nsid: String,
    /// The collection's reason.
    pub cause: LexiconError,
}

/// The documents of the first `n` entries of `jsons`, added in order: each
/// entry's text under its document's NSID.
pub open spec fn loaded_docs(jsons: Seq<(String, String)>, n: int) -> Map<Seq<char>, Seq<char>>
    decreases n,
{
    if n <= 0 {
        Map::empty()
    } else {
        loaded_docs(jsons, n - 1).insert(json_lexicon_id(jsons[n - 1].1@), jsons[n - 1].1@)
    }
}

/// The first `n` documents hold exactly their NSIDs, and, when no two of
/// them share an NSID, each NSID holds its own entry's text.
pub proof fn lemma_loaded_docs(jsons: Seq<(String, String)>, n: int, x: Seq<char>)
    requires
        0 <= n <= jsons.len(),
    ensures
        loaded_docs(jsons, n).contains_key(x) <==> exists|j: int|
            0 <= j < n && json_lexicon_id(#[trigger] jsons[j].1@) == x,
        (forall|i: int, j: int|
            0 <= i < j < n ==> json_lexicon_id(#[trigger] jsons[i].1@) != json_lexicon_id(
                #[trigger] jsons[j].1@,
            )) ==> forall|j: int|
            0 <= j < n && json_lexicon_id(#[trigger] jsons[j].1@) == x ==> loaded_docs(
                jsons,
                n,
            )[x] == jsons[j].1@,
    decreases n,
{
    if n > 0 {
        lemma_loaded_docs(jsons, n - 1, x);
        if loaded_docs(jsons, n - 1).contains_key(x) {
            let j = choose|j: int| 0 <= j < n - 1 && json_lexicon_id(#[trigger] jsons[j].1@) == x;
            assert(0 <= j < n && json_lexicon_id(jsons[j].1@) == x);
        }
    }
}

/// The document at `i` is refused when the documents before it were all
/// loaded: it does not load, or an earlier document has its NSID.
pub open spec fn load_refused(jsons: Seq<(String, String)>, i: int) -> bool {
    !lexicon_loads(jsons[i].1@) || exists|j: int|
        0 <= j < i && json_lexicon_id(#[trigger] jsons[j].1@) == json_lexicon_id(jsons[i].1@)
}

/// Every document loads and no two declare the same NSID.
pub open spec fn all_load_distinct(jsons: Seq<(String, String)>) -> bool {
    &&& forall|i: int| 0 <= i < jsons.len() ==> lexicon_loads(#[trigger] jsons[i].1@)
    &&& forall|i: int, j: int|
        0 <= i < j < jsons.len() ==> json_lexicon_id(#[trigger] jsons[i].1@) != json_lexicon_id(
            #[trigger] jsons[j].1@,
        )
}

/// Build the lexicon collection from the embedded documents, given as
/// (NSID, JSON text), adding them in order: the collection holds each
/// entry's document under that document's NSID, and nothing else.
///
/// # Errors
///
/// The first document, in table order, that the collection refuses, with
/// the NSID it was embedded under.
pub fn build_lexicons(jsons: &Vec<(String, String)>) -> (r: Result<Lexicons, LexiconLoadError>)
    ensures
        r is Ok <==> all_load_distinct(jsons@),
        r matches Ok(l) ==> collection_docs(l) == loaded_docs(jsons@, jsons.len() as int),
        r matches Ok(l) ==> forall|i: int|
            0 <= i < jsons.len() ==> (lexicon_json(#[trigger] jsons@[i].1@) matches Ok(v) && v.id
                == json_lexicon_id(jsons@[i].1@)),
        r matches Err(e) ==> exists|i: int|
            0 <= i < jsons.len() && load_refused(jsons@, i) && (forall|j: int|
                0 <= j < i ==> !load_refused(jsons@, j)) && #[trigger] jsons@[i].0@ == e.nsid@,
{
    let mut docs = lexicons_new();
    assert(collection_docs(docs) =~= loaded_docs(jsons@, 0));
    for i in 0..jsons.len()
        invariant
            collection_docs(docs) == loaded_docs(jsons@, i as int),
            forall|j: int| 0 <= j < i ==> !load_refused(jsons@, j),
            forall|j: int|
                0 <= j < i ==> (lexicon_json(#[trigger] jsons@[j].1@) matches Ok(v) && v.id
                    == json_lexicon_id(jsons@[j].1@)),
    {
        proof {
            lemma_loaded_docs(jsons@, i as int, json_lexicon_id(jsons@[i as int].1@));
        }
        match lexicons_add_from_json(&mut docs, jsons[i].1.as_str()) {
            Ok(()) => {},
            Err(cause) => {
                let e = LexiconLoadError { nsid: jsons[i].0.clone(), cause };
                assert(load_refused(jsons@, i as int));
                proof {
                    if all_load_distinct(jsons@) {
                        let j = choose|j: int|
                            0 <= j < i && json_lexicon_id(#[trigger] jsons@[j].1@) == json_lexicon_id(
                                jsons@[i as int].1@,
                            );
                        assert(json_lexicon_id(jsons@[j].1@) != json_lexicon_id(jsons@[i as int].1@));
                    }
                }
                assert(jsons@[i as int].0@ == e.nsid@);
                return Err(e);
            },
        }
    }
    proof {
        assert forall|i: int, j: int|
            0 <= i < j < jsons.len() implies json_lexicon_id(#[trigger] jsons@[i].1@)
            != json_lexicon_id(#[trigger] jsons@[j].1@) by {
            assert(!load_refused(jsons@, j));
        }
        assert forall|i: int| 0 <= i < jsons.len() implies lexicon_loads(#[trigger] jsons@[i].1@) by {
            assert(!load_refused(jsons@, i));
        }
    }
    Ok(docs)
}

} // verus!
