//! Lexicon documents, generated-file NSIDs and the code digest.

use kryphocron_lexicons::codegen::{codegen_digest, codegen_nsid, codegen_nsids, hex};
use kryphocron_lexicons::lexicon::{
    build_lexicons, check_parsed_lexicons, lexicon_nsids, main_declares_audience_list,
    parse_lexicon, parse_lexicon_files, AudienceListShape, MainShape, ParsedLexicon,
};
use kryphocron_lexicons::BuildError;

const POST_PRIVATE: &str = r#"{"lexicon":1,"id":"tools.kryphocron.feed.postPrivate","defs":{"main":{"type":"record","key":"tid","record":{"type":"object","required":["createdAt","audienceList"],"properties":{"createdAt":{"type":"string","format":"datetime"},"audienceList":{"type":"string","format":"at-uri"}}}}}}"#;

const MUTE: &str = r#"{"lexicon":1,"id":"tools.kryphocron.graph.mute","defs":{"main":{"type":"object","properties":{"subject":{"type":"string","format":"did"}}}}}"#;

const TOKEN: &str = r#"{"lexicon":1,"id":"tools.kryphocron.feed.token","defs":{"main":{"type":"token"}}}"#;

#[test]
fn parse_reads_the_main_definition() {
    let p = parse_lexicon(POST_PRIVATE).unwrap();
    assert_eq!(p.id, "tools.kryphocron.feed.postPrivate");
    assert!(main_declares_audience_list(&p.main));
    let m = parse_lexicon(MUTE).unwrap();
    assert_eq!(m.id, "tools.kryphocron.graph.mute");
    assert!(matches!(m.main, MainShape::Object(AudienceListShape::Absent)));
    assert!(!main_declares_audience_list(&m.main));
    let t = parse_lexicon(TOKEN).unwrap();
    assert!(matches!(t.main, MainShape::NotAnObject));
    assert!(parse_lexicon("{").is_err());
}

#[test]
fn lexicon_files_errors_in_file_order() {
    let files = vec![
        ("a.json".to_string(), MUTE.to_string()),
        ("b.json".to_string(), "not json".to_string()),
        ("c.json".to_string(), MUTE.to_string()),
    ];
    match parse_lexicon_files(&files) {
        Err(BuildError::LexiconParse { path, .. }) => assert_eq!(path, "b.json"),
        other => panic!("{:?}", other.map(|v| v.len())),
    }
    let files = vec![
        ("a.json".to_string(), MUTE.to_string()),
        ("b.json".to_string(), POST_PRIVATE.to_string()),
        ("c.json".to_string(), MUTE.to_string()),
    ];
    match parse_lexicon_files(&files) {
        Err(BuildError::DuplicateLexicon(n)) => assert_eq!(n, "tools.kryphocron.graph.mute"),
        other => panic!("{:?}", other.map(|v| v.len())),
    }
    let files = vec![
        ("a.json".to_string(), MUTE.to_string()),
        ("b.json".to_string(), POST_PRIVATE.to_string()),
    ];
    let docs = parse_lexicon_files(&files).unwrap();
    assert_eq!(docs.len(), 2);
    assert_eq!(
        lexicon_nsids(&docs),
        vec!["tools.kryphocron.feed.postPrivate".to_string(), "tools.kryphocron.graph.mute".to_string()]
    );
}

#[test]
fn check_parsed_lexicons_on_given_outcomes() {
    let ok = |id: &str| -> Result<ParsedLexicon, String> {
        Ok(ParsedLexicon { id: id.to_string(), main: MainShape::Missing })
    };
    let outs = vec![("x".to_string(), ok("a.b.c")), ("y".to_string(), ok("a.b.d"))];
    assert!(check_parsed_lexicons(&outs).is_ok());
    let outs = vec![
        ("x".to_string(), ok("a.b.c")),
        ("y".to_string(), Err("bad".to_string())),
        ("z".to_string(), ok("a.b.c")),
    ];
    match check_parsed_lexicons(&outs) {
        Err(BuildError::LexiconParse { path, detail }) => {
            assert_eq!(path, "y");
            assert_eq!(detail, "bad");
        }
        other => panic!("{other:?}"),
    }
}

#[test]
fn lexicon_collection_holds_every_document() {
    let jsons = vec![
        ("tools.kryphocron.feed.postPrivate".to_string(), POST_PRIVATE.to_string()),
        ("tools.kryphocron.graph.mute".to_string(), MUTE.to_string()),
    ];
    let lexicons = build_lexicons(&jsons).ok().unwrap();
    assert!(lexicons.get("tools.kryphocron.feed.postPrivate").is_some());
    assert!(lexicons.get("tools.kryphocron.graph.mute").is_some());
    let twice = vec![
        ("first".to_string(), MUTE.to_string()),
        ("second".to_string(), MUTE.to_string()),
    ];
    match build_lexicons(&twice) {
        Err(e) => assert_eq!(e.nsid, "second"),
        Ok(_) => panic!("a second document for one NSID must be refused"),
    }
}

#[test]
fn lexicon_collection_holds_each_document_under_its_nsid() {
    let jsons = vec![
        ("tools.kryphocron.graph.mute".to_string(), MUTE.to_string()),
        ("tools.kryphocron.feed.postPrivate".to_string(), POST_PRIVATE.to_string()),
    ];
    let lexicons = build_lexicons(&jsons).ok().unwrap();
    let post = lexicons.get("tools.kryphocron.feed.postPrivate").unwrap();
    assert_eq!(post.id, "tools.kryphocron.feed.postPrivate");
    assert!(post.defs.contains_key("main"));
    let mute = lexicons.get("tools.kryphocron.graph.mute").unwrap();
    assert_eq!(mute.id, "tools.kryphocron.graph.mute");
    assert!(lexicons.get("tools.kryphocron.feed.notARealLexicon").is_none());
    assert!(lexicons.get("com.example.not.in.registry").is_none());
    assert!(lexicons.get_def("tools.kryphocron.feed.postPrivate#main").is_some());
}

#[test]
fn lexicon_collection_names_the_first_refused_document() {
    assert!(build_lexicons(&Vec::new()).is_ok());
    let jsons = vec![
        ("tools.kryphocron.graph.mute".to_string(), MUTE.to_string()),
        ("broken".to_string(), "not json".to_string()),
        ("tools.kryphocron.graph.mute".to_string(), MUTE.to_string()),
    ];
    match build_lexicons(&jsons) {
        Err(e) => assert_eq!(e.nsid, "broken"),
        Ok(_) => panic!("a document that does not parse must be refused"),
    }
    // A document that parses but fails a load-time refinement: a required
    // property that the object does not have.
    let unrefined = r#"{"lexicon":1,"id":"tools.kryphocron.feed.bad","defs":{"main":{"type":"object","required":["missing"],"properties":{}}}}"#;
    let jsons = vec![
        ("tools.kryphocron.feed.bad".to_string(), unrefined.to_string()),
        ("tools.kryphocron.graph.mute".to_string(), MUTE.to_string()),
    ];
    match build_lexicons(&jsons) {
        Err(e) => assert_eq!(e.nsid, "tools.kryphocron.feed.bad"),
        Ok(_) => panic!("a document failing a refinement must be refused"),
    }
}

#[test]
fn generated_file_nsids() {
    assert_eq!(
        codegen_nsid("tools/kryphocron/feed/postPrivate.rs", "postPrivate.rs", '/'),
        Some("tools.kryphocron.feed.postPrivate".to_string())
    );
    assert_eq!(codegen_nsid("tools/kryphocron/feed/mod.rs", "mod.rs", '/'), None);
    assert_eq!(codegen_nsid("tools/mod.rs", "mod.rs", '/'), None);
    assert_eq!(codegen_nsid("other/x/y.rs", "y.rs", '/'), None);
    assert_eq!(
        codegen_nsid("tools/kryphocron/a/b.rs.rs", "b.rs.rs", '/'),
        Some("tools.kryphocron.a.b".to_string())
    );
    let files = vec![
        ("tools/kryphocron/graph/mute.rs".to_string(), "mute.rs".to_string()),
        ("tools/kryphocron/feed/like.rs".to_string(), "like.rs".to_string()),
        ("tools/kryphocron/feed/mod.rs".to_string(), "mod.rs".to_string()),
        ("tools/kryphocron/feed/like.rs".to_string(), "like.rs".to_string()),
    ];
    assert_eq!(
        codegen_nsids(&files, '/'),
        vec!["tools.kryphocron.feed.like".to_string(), "tools.kryphocron.graph.mute".to_string()]
    );
}

#[test]
fn hex_is_lowercase_two_digits_per_byte() {
    assert_eq!(hex(&[0xbe, 0xef, 0x00, 0x0a]), "beef000a");
    assert_eq!(hex(&[]), "");
}

#[test]
fn codegen_digest_exact_values() {
    let entries = vec![
        ("tools/mod.rs".to_string(), b"pub mod kryphocron;".to_vec()),
        ("tools/kryphocron/feed/like.rs".to_string(), b"pub struct Like;".to_vec()),
    ];
    assert_eq!(
        codegen_digest(&entries),
        "96478eed3b8beb49ccd8028ddd549057655905e933ed008cbcd75d0695c44ac9"
    );
    assert_eq!(
        codegen_digest(&vec![]),
        "e3b0c44298fc1c149afbf4c8996fb92427ae41e4649b934ca495991b7852b855"
    );
}

#[test]
fn codegen_digest_ignores_the_order_files_were_found_in() {
    let a = vec![
        ("tools/mod.rs".to_string(), b"pub mod kryphocron;".to_vec()),
        ("tools/kryphocron/feed/like.rs".to_string(), b"pub struct Like;".to_vec()),
    ];
    let b = vec![a[1].clone(), a[0].clone()];
    assert_eq!(codegen_digest(&a), codegen_digest(&b));
    let edited = vec![
        ("tools/mod.rs".to_string(), b"pub mod kryphocron; ".to_vec()),
        ("tools/kryphocron/feed/like.rs".to_string(), b"pub struct Like;".to_vec()),
    ];
    assert_ne!(codegen_digest(&a), codegen_digest(&edited));
}
