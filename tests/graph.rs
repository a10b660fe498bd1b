use related_works_graph::cli::CliOpt;
use related_works_graph::graph::push_escaped;
use related_works_graph::types::{Author, AuthorId, Reference, Work, WorkId, Works};
use related_works_graph::validate::ValidationError;

fn work(title: &str, authors: &[&str], refs: &[&str], urls: &[&str]) -> Work {
    Work {
        title: title.to_string(),
        authors_string: String::new(),
        media: None,
        pages: None,
        year: None,
        month: None,
        authors: authors.iter().map(|a| AuthorId(a.to_string())).collect(),
        references: refs
            .iter()
            .map(|r| Reference {
                work: WorkId(r.to_string()),
                media_title: None,
                authors_string: None,
            })
            .collect(),
        urls: urls.iter().map(|u| u.to_string()).collect(),
    }
}

fn doc(works: Vec<(&str, Work)>, authors: &[(&str, &str)]) -> Works {
    Works {
        works: works
            .into_iter()
            .map(|(id, w)| (WorkId(id.to_string()), w))
            .collect(),
        authors: authors
            .iter()
            .map(|(id, name)| {
                (
                    AuthorId(id.to_string()),
                    Author {
                        name: name.to_string(),
                    },
                )
            })
            .collect(),
    }
}

fn emit(d: &Works) -> String {
    let mut out = String::new();
    d.write_graph(&mut out);
    out
}

fn scenario_a() -> Works {
    doc(
        vec![
            ("w1", work("Paper One", &["a1"], &[], &[])),
            ("w2", work("Paper Two", &["a1"], &["w1"], &[])),
        ],
        &[("a1", "Alice")],
    )
}

#[test]
fn two_works_one_citation() {
    let d = scenario_a();
    assert_eq!(d.validate(), Ok(()));
    let out = emit(&d);
    assert_eq!(out.matches("shape = box,").count(), 2);
    assert_eq!(out.matches(" -> ").count(), 1);
    assert!(out.contains("\"w2\" -> \"w1\";\n"));
}

#[test]
fn exact_output_of_two_works() {
    let out = emit(&scenario_a());
    let expected = [
        "digraph works {\n",
        "node [\n",
        "margin = \"0.5,0.15\",\n",
        "]\n",
        "\"w1\" [\n",
        "shape = box,\n",
        "label = \"Paper One\\nw1\",\n",
        "];\n",
        "\"w2\" [\n",
        "shape = box,\n",
        "label = \"Paper Two\\nw2\",\n",
        "];\n",
        "\"w2\" -> \"w1\";\n",
        "}\n",
    ]
    .concat();
    assert_eq!(out, expected);
}

#[test]
fn undeclared_cited_work() {
    let d = doc(
        vec![
            ("w1", work("Paper One", &["a1"], &[], &[])),
            ("w2", work("Paper Two", &["a1"], &["w3"], &[])),
        ],
        &[("a1", "Alice")],
    );
    assert_eq!(
        d.validate(),
        Err(ValidationError::UnknownWork {
            work_id: WorkId("w2".to_string()),
            referenced_work_id: WorkId("w3".to_string()),
        })
    );
}

#[test]
fn undeclared_author() {
    let d = doc(vec![("w1", work("Paper One", &["a2"], &[], &[]))], &[("a1", "Alice")]);
    assert_eq!(
        d.validate(),
        Err(ValidationError::UnknownAuthor {
            work_id: WorkId("w1".to_string()),
            author_id: AuthorId("a2".to_string()),
        })
    );
}

#[test]
fn url_attribute_present_and_absent() {
    let d = doc(
        vec![
            ("w1", work("Linked", &[], &[], &["https://example.org/p1", "https://example.org/p2"])),
            ("w2", work("Unlinked", &[], &[], &[])),
        ],
        &[],
    );
    let out = emit(&d);
    assert!(out.contains("\"w1\" [\nshape = box,\nURL = \"https://example.org/p1\",\nlabel"));
    assert!(out.contains("\"w2\" [\nshape = box,\nlabel"));
    assert_eq!(out.matches("URL = ").count(), 1);
    assert!(!out.contains("p2"));
}

#[test]
fn self_citation() {
    let d = doc(vec![("w1", work("Loop", &[], &["w1"], &[]))], &[]);
    assert_eq!(d.validate(), Ok(()));
    assert!(emit(&d).contains("\"w1\" -> \"w1\";\n"));
}

#[test]
fn quotes_in_title_and_url_are_escaped() {
    let d = doc(
        vec![(
            "w1",
            work("a\" -> \"evil\"; \"x", &[], &[], &["http://h/\"];\"y"]),
        )],
        &[],
    );
    let out = emit(&d);
    assert!(out.contains("label = \"a\\\" -> \\\"evil\\\"; \\\"x\\nw1\",\n"));
    assert!(out.contains("URL = \"http://h/\\\"];\\\"y\",\n"));
    // No line is an edge statement.
    assert!(out.lines().all(|l| !l.starts_with('"') || !l.contains("\" -> \"")));
    assert_eq!(out.lines().count(), 10);
}

#[test]
fn backslash_and_line_break_in_title() {
    let d = doc(vec![("w1", work("a\\b\nc\rd", &[], &[], &[]))], &[]);
    let out = emit(&d);
    assert!(out.contains("label = \"a\\\\b\\nc\\rd\\nw1\",\n"));
}

#[test]
fn emission_twice_is_identical() {
    let d = scenario_a();
    assert_eq!(emit(&d), emit(&d));
    let mut out = String::from("prefix\n");
    d.write_graph(&mut out);
    assert_eq!(out, format!("prefix\n{}", emit(&d)));
}

#[test]
fn empty_document() {
    let d = doc(vec![], &[]);
    assert_eq!(d.validate(), Ok(()));
    assert_eq!(emit(&d), "digraph works {\nnode [\nmargin = \"0.5,0.15\",\n]\n}\n");
}

#[test]
fn first_violation_is_reported() {
    // w1 is fine, w2 cites an unknown work and lists an unknown author:
    // authors are looked at first.
    let d = doc(
        vec![
            ("w1", work("One", &["a1"], &["w2"], &[])),
            ("w2", work("Two", &["a1", "a9"], &["w7"], &[])),
            ("w3", work("Three", &["a8"], &[], &[])),
        ],
        &[("a1", "Alice")],
    );
    assert_eq!(
        d.validate(),
        Err(ValidationError::UnknownAuthor {
            work_id: WorkId("w2".to_string()),
            author_id: AuthorId("a9".to_string()),
        })
    );
}

#[test]
fn consistent_document_with_cycle() {
    let d = doc(
        vec![
            ("w1", work("One", &["a1", "a2"], &["w2"], &[])),
            ("w2", work("Two", &["a2"], &["w1", "w2"], &[])),
        ],
        &[("a1", "Alice"), ("a2", "Bob")],
    );
    assert_eq!(d.validate(), Ok(()));
    assert_eq!(emit(&d).matches(" -> ").count(), 3);
}

#[test]
fn declared_identifiers() {
    let d = scenario_a();
    assert!(d.declares_author(&AuthorId("a1".to_string())));
    assert!(!d.declares_author(&AuthorId("a2".to_string())));
    assert!(d.declares_work(&WorkId("w2".to_string())));
    assert!(!d.declares_work(&WorkId("w3".to_string())));
}

#[test]
fn escaping_keeps_plain_text() {
    let mut out = String::from(">");
    push_escaped(&mut out, "plain text 123");
    assert_eq!(out, ">plain text 123");
    let mut out2 = String::new();
    push_escaped(&mut out2, "\"\\");
    assert_eq!(out2, "\\\"\\\\");
}

#[test]
fn dot_names() {
    assert_eq!(WorkId("w1".to_string()).to_dot_name(), "w1");
    assert_eq!(AuthorId("a1".to_string()).to_dot_name(), "a1");
}

#[test]
fn direct_dot_output() {
    let opt = |t: &str| CliOpt {
        works: "works.toml".to_string(),
        output_type: t.to_string(),
        output_path: None,
    };
    assert!(opt("dot").is_direct_dot());
    assert!(!opt("svg").is_direct_dot());
    assert!(!opt("dotx").is_direct_dot());
}

#[test]
fn duplicate_identifiers_are_detected() {
    assert!(scenario_a().has_distinct_keys());
    let dup_work = doc(
        vec![
            ("w1", work("One", &[], &[], &[])),
            ("w2", work("Two", &[], &[], &[])),
            ("w1", work("Again", &[], &[], &[])),
        ],
        &[],
    );
    assert!(!dup_work.has_distinct_keys());
    let dup_author = doc(vec![], &[("a1", "Alice"), ("a1", "Alicia")]);
    assert!(!dup_author.has_distinct_keys());
}
