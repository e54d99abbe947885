use mdq::document::parse_note;
use mdq::index::{Index, NoteFile};
use mdq::query::{parse_query, QueryExpr, QuerySyntaxError};
use mdq::session::{step, SessionAction, SessionEvent, SessionState};
use mdq::terms::{map_terms, Field};
use mdq::walk::{in_batch, is_hidden_name, is_note_filename};

fn index_of(files: &[(&str, &str)]) -> Index {
    let mut idx = Index::new();
    let batch: Vec<NoteFile> = files
        .iter()
        .map(|(p, c)| NoteFile { path: String::from(*p), content: String::from(*c) })
        .collect();
    let report = idx.update_batch(&batch);
    assert!(report.iter().all(|r| r.is_none()));
    idx
}

fn search(idx: &Index, q: &str) -> Vec<String> {
    let tree = parse_query(q).expect("query should parse");
    idx.search(&tree)
}

#[test]
fn tag_exactness() {
    let idx = index_of(&[("n.md", "---\ntags: [foo, bar]\n---\nsome body")]);
    assert_eq!(search(&idx, "tag:foo"), vec![String::from("n.md")]);
    assert_eq!(search(&idx, "tag:foo AND tag:bar"), vec![String::from("n.md")]);
    assert_eq!(search(&idx, "tag:baz"), Vec::<String>::new());
}

#[test]
fn tags_match_case_folded() {
    let idx = index_of(&[("n.md", "---\ntags: [Foo]\n---\nbody")]);
    assert_eq!(search(&idx, "tag:FOO"), vec![String::from("n.md")]);
}

#[test]
fn stemming_symmetry() {
    let idx = index_of(&[("n.md", "---\ntitle: t\n---\nI was running fast")]);
    assert_eq!(search(&idx, "run"), vec![String::from("n.md")]);
    assert_eq!(search(&idx, "RUNS"), vec![String::from("n.md")]);
}

#[test]
fn title_terms_match_bare_and_scoped() {
    let idx = index_of(&[("n.md", "---\ntitle: Planting Trees\n---\nnothing else")]);
    assert_eq!(search(&idx, "plant"), vec![String::from("n.md")]);
    assert_eq!(search(&idx, "title:plant"), vec![String::from("n.md")]);
}

#[test]
fn boolean_precedence_or_binds_looser() {
    // A OR B AND C == A OR (B AND C)
    let idx = index_of(&[
        ("a.md", "---\ntitle: t\n---\nalpha"),
        ("bc.md", "---\ntitle: t\n---\nbeta gamma"),
        ("b.md", "---\ntitle: t\n---\nbeta"),
    ]);
    let hits = search(&idx, "alpha OR beta AND gamma");
    assert_eq!(hits, vec![String::from("a.md"), String::from("bc.md")]);
}

#[test]
fn boolean_precedence_not_binds_tightest() {
    // NOT A AND B == (NOT A) AND B
    let idx = index_of(&[
        ("ab.md", "---\ntitle: t\n---\nalpha beta"),
        ("b.md", "---\ntitle: t\n---\nbeta"),
    ]);
    let hits = search(&idx, "NOT alpha AND beta");
    assert_eq!(hits, vec![String::from("b.md")]);
}

#[test]
fn precedence_tree_shape() {
    let tree = parse_query("A OR B AND C").expect("should parse");
    assert_eq!(
        format!("{:?}", tree),
        "Or(Term(\"A\"), And(Term(\"B\"), Term(\"C\")))",
    );
    let tree2 = parse_query("NOT A AND B").expect("should parse");
    assert_eq!(format!("{:?}", tree2), "And(Not(Term(\"A\")), Term(\"B\"))");
}

#[test]
fn implicit_and_between_adjacent_terms() {
    let idx = index_of(&[
        ("ab.md", "---\ntitle: t\n---\nalpha beta"),
        ("a.md", "---\ntitle: t\n---\nalpha"),
    ]);
    assert_eq!(search(&idx, "alpha beta"), vec![String::from("ab.md")]);
}

#[test]
fn parentheses_group() {
    let idx = index_of(&[
        ("ac.md", "---\ntitle: t\n---\nalpha gamma"),
        ("bc.md", "---\ntitle: t\n---\nbeta gamma"),
        ("c.md", "---\ntitle: t\n---\ngamma"),
    ]);
    let hits = search(&idx, "(alpha OR beta) AND gamma");
    assert_eq!(hits, vec![String::from("ac.md"), String::from("bc.md")]);
}

#[test]
fn malformed_query_fails_and_index_is_untouched() {
    let mut idx = index_of(&[("n.md", "---\ntags: [foo]\n---\nbody words")]);
    let before = search(&idx, "tag:foo");
    let r = parse_query("tag:foo AND");
    assert_eq!(r.err(), Some(QuerySyntaxError::DanglingOperator));
    // the failed parse left the index exactly as it was
    assert_eq!(search(&idx, "tag:foo"), before);
    let report = idx.update_batch(&Vec::new());
    assert_eq!(report.len(), 0);
    assert_eq!(search(&idx, "tag:foo"), before);
}

#[test]
fn empty_query_is_rejected() {
    assert_eq!(parse_query("").err(), Some(QuerySyntaxError::EmptyQuery));
    assert_eq!(parse_query("   ").err(), Some(QuerySyntaxError::EmptyQuery));
}

#[test]
fn unbalanced_parens_are_rejected() {
    assert_eq!(parse_query("(alpha").err(), Some(QuerySyntaxError::UnbalancedParens));
    assert_eq!(parse_query("alpha)").err(), Some(QuerySyntaxError::UnbalancedParens));
    assert_eq!(parse_query("()").err(), Some(QuerySyntaxError::UnbalancedParens));
}

#[test]
fn dangling_operators_are_rejected() {
    assert_eq!(parse_query("AND alpha").err(), Some(QuerySyntaxError::DanglingOperator));
    assert_eq!(parse_query("alpha OR").err(), Some(QuerySyntaxError::DanglingOperator));
    assert_eq!(parse_query("NOT").err(), Some(QuerySyntaxError::DanglingOperator));
}

#[test]
fn unknown_field_matches_nothing() {
    let idx = index_of(&[("n.md", "---\ntags: [foo]\n---\nbody")]);
    assert_eq!(search(&idx, "zzz:foo"), Vec::<String>::new());
}

#[test]
fn reindexing_is_idempotent() {
    let file = ("n.md", "---\ntags: [foo]\n---\nsome running body");
    let once = index_of(&[file]);
    let twice = index_of(&[file, file]);
    assert_eq!(search(&once, "tag:foo"), search(&twice, "tag:foo"));
    assert_eq!(search(&once, "run"), search(&twice, "run"));
    assert_eq!(search(&twice, "tag:foo").len(), 1);
    assert_eq!(twice.entries.len(), 1);
}

#[test]
fn replacing_a_document_drops_its_old_terms() {
    let mut idx = index_of(&[("n.md", "---\ntags: [old]\n---\nbody")]);
    let d = parse_note("n.md", "---\ntags: [new]\n---\nbody").expect("should parse");
    let terms = map_terms(&d);
    idx.add_document(String::from("n.md"), terms);
    assert_eq!(search(&idx, "tag:old"), Vec::<String>::new());
    assert_eq!(search(&idx, "tag:new"), vec![String::from("n.md")]);
}

#[test]
fn update_batch_reports_and_skips_bad_files() {
    let mut idx = Index::new();
    let batch = vec![
        NoteFile { path: String::from("good.md"), content: String::from("---\ntags: [ok]\n---\nbody") },
        NoteFile { path: String::from("bad.md"), content: String::from("no header at all") },
    ];
    let report = idx.update_batch(&batch);
    assert_eq!(report.len(), 2);
    assert!(report[0].is_none());
    assert!(report[1].is_some());
    assert_eq!(search(&idx, "tag:ok"), vec![String::from("good.md")]);
    assert_eq!(idx.entries.len(), 1);
}

#[test]
fn map_terms_fields() {
    let d = parse_note("n.md", "---\ntitle: Running Fast\ntags: [Foo]\n---\njumping high")
        .expect("should parse");
    let ts = map_terms(&d);
    assert!(ts.contains_term(&Field::Tag, &String::from("foo")));
    assert!(ts.contains_term(&Field::Title, &String::from("run")));
    assert!(ts.contains_term(&Field::Body, &String::from("run")));
    assert!(ts.contains_term(&Field::Body, &String::from("jump")));
    assert!(!ts.contains_term(&Field::Title, &String::from("jump")));
    assert!(!ts.contains_term(&Field::Tag, &String::from("bar")));
}

#[test]
fn traversal_filtering() {
    assert!(is_hidden_name(".git"));
    assert!(!is_hidden_name("notes"));
    assert!(is_note_filename("a.md"));
    assert!(!is_note_filename("a.txt"));
    assert!(!is_note_filename(".md"));
    assert!(in_batch(&vec![String::from("dir"), String::from("note.md")]));
    assert!(!in_batch(&vec![String::from(".hidden"), String::from("note.md")]));
    assert!(!in_batch(&vec![String::from("dir"), String::from("note.txt")]));
    assert!(!in_batch(&vec![String::from("dir"), String::from(".note.md")]));
}

#[test]
fn excluded_entries_contribute_no_terms() {
    // what the walker excludes never reaches the indexer, so it adds nothing
    let entries = vec![
        (vec![String::from(".hidden"), String::from("secret.md")], "---\ntags: [hidden]\n---\nbody"),
        (vec![String::from("dir"), String::from("readme.txt")], "---\ntags: [plain]\n---\nbody"),
        (vec![String::from("dir"), String::from("note.md")], "---\ntags: [kept]\n---\nbody"),
    ];
    let mut idx = Index::new();
    let mut batch: Vec<NoteFile> = Vec::new();
    for (components, content) in &entries {
        if in_batch(components) {
            batch.push(NoteFile {
                path: components.join("/"),
                content: String::from(*content),
            });
        }
    }
    idx.update_batch(&batch);
    assert_eq!(search(&idx, "tag:hidden"), Vec::<String>::new());
    assert_eq!(search(&idx, "tag:plain"), Vec::<String>::new());
    assert_eq!(search(&idx, "tag:kept"), vec![String::from("dir/note.md")]);
    assert_eq!(idx.entries.len(), 1);
}

#[test]
fn field_filter_requires_both_sides() {
    // a lone colon side leaves the word a bare term, not a filter
    let tree = parse_query("tag:").expect("should parse as a bare term");
    assert_eq!(format!("{:?}", tree), "Term(\"tag:\")");
}

#[test]
fn not_alone_on_results() {
    let idx = index_of(&[
        ("a.md", "---\ntitle: t\n---\nalpha"),
        ("b.md", "---\ntitle: t\n---\nbeta"),
    ]);
    assert_eq!(search(&idx, "NOT alpha"), vec![String::from("b.md")]);
}

#[test]
fn session_transitions() {
    assert_eq!(
        step(SessionState::Idle, SessionEvent::QueryEntered),
        (SessionState::Evaluating, SessionAction::RunQuery),
    );
    assert_eq!(
        step(SessionState::Evaluating, SessionEvent::QueryParsed),
        (SessionState::Displaying, SessionAction::RenderResults),
    );
    assert_eq!(
        step(SessionState::Evaluating, SessionEvent::QueryRejected),
        (SessionState::Idle, SessionAction::ReportSyntaxError),
    );
    assert_eq!(
        step(SessionState::Displaying, SessionEvent::ResultChosen),
        (SessionState::Selected, SessionAction::LaunchViewer),
    );
    assert_eq!(
        step(SessionState::Displaying, SessionEvent::DismissResults),
        (SessionState::Idle, SessionAction::AwaitInput),
    );
    assert_eq!(
        step(SessionState::Selected, SessionEvent::ViewerExited),
        (SessionState::Idle, SessionAction::AwaitInput),
    );
    assert_eq!(
        step(SessionState::Selected, SessionEvent::ViewerFailed),
        (SessionState::Idle, SessionAction::ReportViewerError),
    );
    assert_eq!(
        step(SessionState::Idle, SessionEvent::QuitRequested),
        (SessionState::Exiting, SessionAction::Shutdown),
    );
    assert_eq!(
        step(SessionState::Idle, SessionEvent::EndOfInput),
        (SessionState::Exiting, SessionAction::Shutdown),
    );
    // events that do not apply change nothing
    assert_eq!(
        step(SessionState::Idle, SessionEvent::ViewerExited),
        (SessionState::Idle, SessionAction::Ignore),
    );
    assert_eq!(
        step(SessionState::Exiting, SessionEvent::QueryEntered),
        (SessionState::Exiting, SessionAction::Ignore),
    );
}

#[test]
fn eval_direct_on_term_set() {
    let d = parse_note("n.md", "---\ntags: [foo]\n---\nrunning").expect("should parse");
    let ts = map_terms(&d);
    let q = parse_query("run AND tag:foo").expect("should parse");
    assert!(mdq::query::eval(&q, &ts));
    let q2 = parse_query("walk OR tag:bar").expect("should parse");
    assert!(!mdq::query::eval(&q2, &ts));
    let q3 = QueryExpr::Term(String::from("running"));
    assert!(mdq::query::eval(&q3, &ts));
}
