use mdq::document::{parse_note, MetaValue, ParseError};

fn note(content: &str) -> mdq::document::Document {
    parse_note("notes/a.md", content).expect("note should parse")
}

#[test]
fn parses_full_frontmatter() {
    let d = note(
        "---\ntitle: My Note\ntags: [foo, bar]\ncreated: 2021-01-02\nmodified: 2021-02-03\nauthor: steve\n---\nbody line one\nbody line two",
    );
    assert_eq!(d.path, "notes/a.md");
    assert_eq!(d.title, Some(String::from("My Note")));
    assert_eq!(d.tags, vec![String::from("foo"), String::from("bar")]);
    assert_eq!(d.created, Some(String::from("2021-01-02")));
    assert_eq!(d.modified, Some(String::from("2021-02-03")));
    assert_eq!(d.extra.len(), 1);
    assert_eq!(d.extra[0].key, "author");
    match &d.extra[0].value {
        MetaValue::Scalar(s) => assert_eq!(s, "steve"),
        MetaValue::List(_) => panic!("author should be a scalar"),
    }
    assert_eq!(d.body, "body line one\nbody line two");
}

#[test]
fn missing_header_is_rejected() {
    let r = parse_note("a.md", "no frontmatter here\njust text");
    assert_eq!(r.err(), Some(ParseError::MissingHeader));
}

#[test]
fn unterminated_header_is_rejected() {
    let r = parse_note("a.md", "---\ntitle: x\nbody without closing marker");
    assert_eq!(r.err(), Some(ParseError::UnterminatedHeader));
}

#[test]
fn malformed_entry_is_rejected() {
    let r = parse_note("a.md", "---\nthis line has no colon\n---\nbody");
    assert_eq!(r.err(), Some(ParseError::MalformedEntry));
}

#[test]
fn scalar_tags_become_one_tag() {
    let d = note("---\ntags: solo\n---\nbody");
    assert_eq!(d.tags, vec![String::from("solo")]);
}

#[test]
fn blank_header_lines_are_skipped() {
    let d = note("---\n\ntitle: t\n\n---\nbody");
    assert_eq!(d.title, Some(String::from("t")));
    assert_eq!(d.extra.len(), 0);
}

#[test]
fn empty_list_value_has_no_items() {
    let d = note("---\ntags: []\n---\nbody");
    assert_eq!(d.tags.len(), 0);
}

#[test]
fn header_values_are_trimmed() {
    let d = note("---\ntitle:   spaced out  \n---\nbody");
    assert_eq!(d.title, Some(String::from("spaced out")));
}

#[test]
fn body_is_kept_verbatim_lines() {
    let d = note("---\ntitle: t\n---\nalpha\n\n  indented");
    assert_eq!(d.body, "alpha\n\n  indented");
}

#[test]
fn unknown_keys_are_preserved_in_order() {
    let d = note("---\none: 1\ntwo: [a, b]\n---\nbody");
    assert_eq!(d.extra.len(), 2);
    assert_eq!(d.extra[0].key, "one");
    assert_eq!(d.extra[1].key, "two");
    match &d.extra[1].value {
        MetaValue::List(items) => assert_eq!(items, &vec![String::from("a"), String::from("b")]),
        MetaValue::Scalar(_) => panic!("two should be a list"),
    }
}

#[test]
fn tokenize_splits_and_drops_short_tokens() {
    let toks = mdq::text::tokenize("Hello, world! a bb");
    assert_eq!(
        toks,
        vec![String::from("Hello"), String::from("world"), String::from("bb")],
    );
}

#[test]
fn normalize_term_folds_case_and_stems() {
    assert_eq!(mdq::text::normalize_term("Running"), "run");
    assert_eq!(mdq::text::normalize_term("fruitlessly"), "fruitless");
    assert_eq!(mdq::text::normalize_term("run"), "run");
}

#[test]
fn lower_str_folds_ascii_only() {
    assert_eq!(mdq::text::lower_str("AbC-09"), "abc-09");
}
