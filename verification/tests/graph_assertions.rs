use jld_common::rdf::{Expected, Graph, Literal, Object, Subject, Triple, RDF_FIRST, RDF_JSON,
    RDF_NIL, RDF_REST};
use jld_common::Error;

fn subject(iri: &str) -> Subject {
    Subject::Iri(iri.to_string())
}

fn triple(s: Subject, p: &str, o: Object) -> Triple {
    Triple { subject: s, predicate: p.to_string(), object: o }
}

fn string_object(v: &str) -> Object {
    Object::Literal(Literal::String(v.to_string()))
}

#[test]
fn take_object_returns_and_removes_the_statement() {
    let mut g = Graph::new();
    g.insert(triple(subject("http://example.org/s"), "http://example.org/p", string_object("foo")));
    assert_eq!(g.len(), 1);
    let taken = g.take_object(&subject("http://example.org/s"), "http://example.org/p");
    assert_eq!(taken, Some(string_object("foo")));
    assert_eq!(g.len(), 0);
    assert!(g.is_empty());
}

#[test]
fn take_object_absent_leaves_the_graph_unchanged() {
    let mut g = Graph::new();
    g.insert(triple(subject("http://example.org/s"), "http://example.org/p", string_object("foo")));
    let taken = g.take_object(&subject("http://example.org/s"), "http://example.org/q");
    assert_eq!(taken, None);
    assert_eq!(g.len(), 1);
}

#[test]
fn take_object_distinguishes_subjects() {
    let mut g = Graph::new();
    g.insert(triple(subject("http://example.org/a"), "http://example.org/p", string_object("x")));
    g.insert(triple(Subject::Blank("_:b0".to_string()), "http://example.org/p", string_object("y")));
    let taken = g.take_object(&Subject::Blank("_:b0".to_string()), "http://example.org/p");
    assert_eq!(taken, Some(string_object("y")));
    assert_eq!(g.len(), 1);
}

#[test]
fn string_equality_success_consumes_the_statement() {
    let mut g = Graph::new();
    g.insert(triple(subject("http://example.org/s"), "http://example.org/p", string_object("foo")));
    let r = g.take_object_and_assert_eq_iri_or_str(
        &subject("http://example.org/s"),
        "http://example.org/p",
        Some("foo"),
    );
    assert_eq!(r, Ok(()));
    assert_eq!(g.len(), 0);
}

#[test]
fn string_mismatch_reports_expected_and_actual() {
    let mut g = Graph::new();
    g.insert(triple(subject("http://example.org/s"), "http://example.org/p", string_object("foo")));
    let r = g.take_object_and_assert_eq_iri_or_str(
        &subject("http://example.org/s"),
        "http://example.org/p",
        Some("bar"),
    );
    assert_eq!(
        r,
        Err(Error::GraphObjectMismatch(
            "http://example.org/p".to_string(),
            "bar".to_string(),
            "\"foo\"".to_string(),
        ))
    );
    assert_eq!(g.len(), 0);
}

#[test]
fn missing_statement_reports_expected_object() {
    let mut g = Graph::new();
    let r = g.take_object_and_assert_eq_iri_or_str(
        &subject("http://example.org/s"),
        "http://example.org/p",
        Some("foo"),
    );
    assert_eq!(
        r,
        Err(Error::GraphExpectedObject(
            "http://example.org/p".to_string(),
            "foo".to_string(),
        ))
    );
}

#[test]
fn unexpected_statement_reports_unexpected_object() {
    let mut g = Graph::new();
    g.insert(triple(subject("http://example.org/s"), "http://example.org/p", string_object("foo")));
    let r = g.take_object_and_assert_eq_iri_or_str(
        &subject("http://example.org/s"),
        "http://example.org/p",
        None,
    );
    assert_eq!(
        r,
        Err(Error::GraphUnexpectedObject(
            "http://example.org/p".to_string(),
            "\"foo\"".to_string(),
        ))
    );
    assert_eq!(g.len(), 0);
}

#[test]
fn absence_confirmed_when_nothing_expected_and_nothing_present() {
    let mut g = Graph::new();
    g.insert(triple(subject("http://example.org/s"), "http://example.org/q", string_object("x")));
    let r = g.take_object_and_assert_eq_iri_or_str(
        &subject("http://example.org/s"),
        "http://example.org/p",
        None,
    );
    assert_eq!(r, Ok(()));
    assert_eq!(g.len(), 1);
}

#[test]
fn exhaustion_is_permanent_on_the_second_call() {
    let mut g = Graph::new();
    g.insert(triple(subject("http://example.org/s"), "http://example.org/p", string_object("foo")));
    let first = g.take_object_and_assert_eq_iri_or_str(
        &subject("http://example.org/s"),
        "http://example.org/p",
        Some("foo"),
    );
    assert_eq!(first, Ok(()));
    let second = g.take_object_and_assert_eq_iri_or_str(
        &subject("http://example.org/s"),
        "http://example.org/p",
        Some("foo"),
    );
    assert_eq!(
        second,
        Err(Error::GraphExpectedObject(
            "http://example.org/p".to_string(),
            "foo".to_string(),
        ))
    );
}

#[test]
fn iri_adapter_matches_named_nodes_only() {
    let mut g = Graph::new();
    g.insert(triple(
        subject("http://example.org/s"),
        "http://example.org/p",
        Object::Iri("http://example.org/v".to_string()),
    ));
    let r = g.take_object_and_assert_eq_iri(
        &subject("http://example.org/s"),
        "http://example.org/p",
        Some("http://example.org/v"),
    );
    assert_eq!(r, Ok(()));

    let mut h = Graph::new();
    h.insert(triple(
        subject("http://example.org/s"),
        "http://example.org/p",
        string_object("http://example.org/v"),
    ));
    let r = h.take_object_and_assert_eq_iri(
        &subject("http://example.org/s"),
        "http://example.org/p",
        Some("http://example.org/v"),
    );
    assert_eq!(
        r,
        Err(Error::GraphObjectMismatch(
            "http://example.org/p".to_string(),
            "http://example.org/v".to_string(),
            "\"http://example.org/v\"".to_string(),
        ))
    );
}

#[test]
fn iri_or_string_adapter_accepts_a_named_node() {
    let mut g = Graph::new();
    g.insert(triple(
        subject("http://example.org/s"),
        "http://example.org/p",
        Object::Iri("http://example.org/v".to_string()),
    ));
    let r = g.take_object_and_assert_eq_iri_or_str(
        &subject("http://example.org/s"),
        "http://example.org/p",
        Some("http://example.org/v"),
    );
    assert_eq!(r, Ok(()));
}

#[test]
fn language_tagged_literal_never_equals_a_plain_string() {
    let mut g = Graph::new();
    g.insert(triple(
        subject("http://example.org/s"),
        "http://example.org/p",
        Object::Literal(Literal::LangString("foo".to_string(), "en".to_string())),
    ));
    let r = g.take_object_and_assert_eq_iri_or_str(
        &subject("http://example.org/s"),
        "http://example.org/p",
        Some("foo"),
    );
    assert_eq!(
        r,
        Err(Error::GraphObjectMismatch(
            "http://example.org/p".to_string(),
            "foo".to_string(),
            "\"foo\"@en".to_string(),
        ))
    );
}

#[test]
fn typed_literal_rendering_carries_its_datatype() {
    let mut g = Graph::new();
    g.insert(triple(
        subject("http://example.org/s"),
        "http://example.org/p",
        Object::Literal(Literal::TypedString(
            "5".to_string(),
            "http://www.w3.org/2001/XMLSchema#integer".to_string(),
        )),
    ));
    let r = g.take_object_and_assert_eq_iri_or_str(
        &subject("http://example.org/s"),
        "http://example.org/p",
        Some("5"),
    );
    assert_eq!(
        r,
        Err(Error::GraphObjectMismatch(
            "http://example.org/p".to_string(),
            "5".to_string(),
            "\"5\"^^<http://www.w3.org/2001/XMLSchema#integer>".to_string(),
        ))
    );
}

#[test]
fn json_adapter_matches_structurally_equal_documents() {
    let mut g = Graph::new();
    g.insert(triple(
        subject("http://example.org/s"),
        "http://example.org/p",
        Object::Literal(Literal::TypedString("{\"a\":1}".to_string(), RDF_JSON.to_string())),
    ));
    let r = g.take_object_and_assert_eq_json(
        &subject("http://example.org/s"),
        "http://example.org/p",
        Some("{\"a\":1}"),
    );
    assert_eq!(r, Ok(()));
    assert_eq!(g.len(), 0);
}

#[test]
fn json_adapter_ignores_formatting_differences() {
    let mut g = Graph::new();
    g.insert(triple(
        subject("http://example.org/s"),
        "http://example.org/p",
        Object::Literal(Literal::TypedString(
            "{ \"b\" : 2, \"a\" : 1 }".to_string(),
            RDF_JSON.to_string(),
        )),
    ));
    let r = g.take_object_and_assert_eq_json(
        &subject("http://example.org/s"),
        "http://example.org/p",
        Some("{\"a\":1,\"b\":2}"),
    );
    assert_eq!(r, Ok(()));
}

#[test]
fn json_adapter_reports_structural_differences() {
    let mut g = Graph::new();
    g.insert(triple(
        subject("http://example.org/s"),
        "http://example.org/p",
        Object::Literal(Literal::TypedString("{\"a\":1}".to_string(), RDF_JSON.to_string())),
    ));
    let r = g.take_object_and_assert_eq_json(
        &subject("http://example.org/s"),
        "http://example.org/p",
        Some("{\"a\":2}"),
    );
    assert_eq!(
        r,
        Err(Error::GraphObjectMismatch(
            "http://example.org/p".to_string(),
            "{\"a\":2}".to_string(),
            format!("\"{{\"a\":1}}\"^^<{}>", RDF_JSON),
        ))
    );
}

#[test]
fn json_adapter_treats_a_parse_failure_as_not_equal() {
    let mut g = Graph::new();
    g.insert(triple(
        subject("http://example.org/s"),
        "http://example.org/p",
        Object::Literal(Literal::TypedString("not json".to_string(), RDF_JSON.to_string())),
    ));
    let r = g.take_object_and_assert_eq_json(
        &subject("http://example.org/s"),
        "http://example.org/p",
        Some("{}"),
    );
    assert!(matches!(r, Err(Error::GraphObjectMismatch(_, _, _))));
}

#[test]
fn json_adapter_requires_the_json_datatype() {
    let mut g = Graph::new();
    g.insert(triple(
        subject("http://example.org/s"),
        "http://example.org/p",
        Object::Literal(Literal::TypedString(
            "{\"a\":1}".to_string(),
            "http://www.w3.org/2001/XMLSchema#string".to_string(),
        )),
    ));
    let r = g.take_object_and_assert_eq_json(
        &subject("http://example.org/s"),
        "http://example.org/p",
        Some("{\"a\":1}"),
    );
    assert!(matches!(r, Err(Error::GraphObjectMismatch(_, _, _))));
}

#[test]
fn assert_eq_accepts_an_explicit_expectation() {
    let mut g = Graph::new();
    g.insert(triple(
        subject("http://example.org/s"),
        "http://example.org/p",
        Object::Iri("http://example.org/v".to_string()),
    ));
    let r = g.take_object_and_assert_eq(
        &subject("http://example.org/s"),
        "http://example.org/p",
        Some(Expected::Iri("http://example.org/v".to_string())),
    );
    assert_eq!(r, Ok(()));
}

#[test]
fn remaining_exposes_the_unconsumed_statements() {
    let mut g = Graph::new();
    g.insert(triple(subject("http://example.org/s"), "http://example.org/p", string_object("x")));
    g.insert(triple(subject("http://example.org/s"), "http://example.org/q", string_object("y")));
    let r = g.take_object_and_assert_eq_iri_or_str(
        &subject("http://example.org/s"),
        "http://example.org/p",
        Some("x"),
    );
    assert_eq!(r, Ok(()));
    let rest = g.remaining();
    assert_eq!(rest.len(), 1);
    assert_eq!(
        rest[0],
        triple(subject("http://example.org/s"), "http://example.org/q", string_object("y"))
    );
}

#[test]
fn rdf_constants_hold_the_well_known_iris() {
    assert_eq!(RDF_NIL, "http://www.w3.org/1999/02/22-rdf-syntax-ns#nil");
    assert_eq!(RDF_FIRST, "http://www.w3.org/1999/02/22-rdf-syntax-ns#first");
    assert_eq!(RDF_REST, "http://www.w3.org/1999/02/22-rdf-syntax-ns#rest");
    assert_eq!(RDF_JSON, "http://www.w3.org/1999/02/22-rdf-syntax-ns#JSON");
    assert_eq!(
        jld_common::rdf::RDF_TYPE,
        "http://www.w3.org/1999/02/22-rdf-syntax-ns#type"
    );
}
