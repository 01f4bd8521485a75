use grillon::assertion::{Assertion, Operand};
use grillon::dsl::http::HeadersDsl;
use grillon::dsl::{contains, Predicate};
use grillon::headers::{Header, Headers};
use grillon::render::Render;

fn json_headers() -> Headers {
    Headers::new().with("content-type", "application/json")
}

#[test]
fn an_observed_header_is_contained() {
    let (predicate, expected) = contains(json_headers()).into_parts();
    let assertion = expected.eval(json_headers(), predicate);
    assert!(assertion.passed());
    assert_eq!(assertion.predicate(), Predicate::Contains);
    assert!(assertion.diff().is_none());
}

#[test]
fn a_header_with_another_value_is_not_contained() {
    let expected = Headers::new().with("content-type", "text/html");
    let (predicate, expected) = contains(expected).into_parts();
    let assertion = expected.eval(json_headers(), predicate);
    assert!(assertion.failed());
    match assertion.expected() {
        Operand::Single(headers) => assert_eq!(headers.render(), "{content-type: text/html}"),
        Operand::Bounds(_, _) => panic!("one operand was given"),
    }
    match assertion.actual() {
        Some(headers) => assert_eq!(headers.render(), "{content-type: application/json}"),
        None => panic!("the headers were observed"),
    }
}

#[test]
fn containment_is_inclusion_of_pairs() {
    let observed = || {
        Headers::new().with("a", "1").with("b", "2").with("a", "3").with("c", "")
    };
    assert!(observed().includes(&Headers::new()));
    assert!(observed().includes(&Headers::new().with("a", "1")));
    assert!(observed().includes(&Headers::new().with("a", "3")));
    assert!(observed().includes(&Headers::new().with("a", "3").with("a", "1")));
    assert!(observed().includes(&Headers::new().with("c", "").with("b", "2")));
    assert!(observed().includes(&Headers::new().with("b", "2").with("b", "2")));
    assert!(!observed().includes(&Headers::new().with("a", "2")));
    assert!(!observed().includes(&Headers::new().with("b", "2").with("d", "4")));
    assert!(!observed().includes(&Headers::new().with("A", "1")));
    assert!(!observed().includes(&Headers::new().with("a", "1 ")));
    assert!(!Headers::new().includes(&Headers::new().with("a", "1")));
    assert!(Headers::new().includes(&Headers::new()));
}

#[test]
fn unrelated_headers_change_nothing() {
    let expected = || Headers::new().with("content-type", "application/json");
    let passing = json_headers().with("server", "nginx").with("content-length", "42");
    assert!(Assertion::contains(passing, expected()).passed());
    let wider = Headers::new().with("server", "nginx").with("content-type", "application/json");
    assert!(Assertion::contains(wider, expected()).passed());
    let failing = Headers::new().with("content-type", "text/html");
    assert!(Assertion::contains(failing, expected()).failed());
    let failing = Headers::new().with("content-type", "text/html").with("server", "nginx");
    assert!(Assertion::contains(failing, expected()).failed());
}

#[test]
fn a_changed_value_turns_a_pass_into_a_failure() {
    let expected = || Headers::new().with("content-type", "application/json").with("x", "1");
    let observed = Headers::new().with("x", "1").with("content-type", "application/json");
    assert!(Assertion::contains(observed, expected()).passed());
    let changed = Headers::new().with("x", "2").with("content-type", "application/json");
    assert!(Assertion::contains(changed, expected()).failed());
}

#[test]
fn headers_keep_their_order() {
    let mut headers = Headers::new().with("b", "2");
    headers.push(Header { name: "a".to_string(), value: "1".to_string() });
    assert_eq!(headers.len(), 2);
    assert_eq!(headers.get(0).name, "b");
    assert_eq!(headers.get(1).value, "1");
    assert!(headers.holds(&Header { name: "a".to_string(), value: "1".to_string() }));
    assert!(!headers.holds(&Header { name: "a".to_string(), value: "2".to_string() }));
    let copy = headers.clone();
    assert_eq!(copy.render(), "{b: 2, a: 1}");
    assert_eq!(Headers::new().render(), "{}");
}
