use grillon::document::{Body, Document};
use grillon::dsl::http::{is_client_error, is_success};
use grillon::dsl::{contains, is, is_between, is_less_than, is_not};
use grillon::headers::Headers;
use grillon::report::{LogSettings, Verbosity};
use grillon::session::{Response, Session};
use grillon::status_code::StatusCode;

fn album(id: i64) -> Document {
    Document::Object(vec![
        ("id".to_string(), Document::Number(id)),
        ("title".to_string(), Document::Text("x".to_string())),
        ("userId".to_string(), Document::Number(1)),
    ])
}

fn observed() -> Response {
    Response {
        status: StatusCode::ok(),
        headers: Headers::new().with("content-type", "application/json"),
        body: Body::Document(album(1)),
        elapsed_ms: 120,
    }
}

fn open(verbosity: Verbosity) -> Session {
    Session::new(observed(), LogSettings { verbosity, color: false })
}

#[test]
fn a_new_session_passes_with_an_empty_trace() {
    let session = open(Verbosity::Normal);
    assert!(session.passed());
    assert!(session.trace().is_empty());
    assert_eq!(session.response().status.as_u16(), 200);
    assert_eq!(session.response().elapsed_ms, 120);
    let conclusion = session.conclude();
    assert!(conclusion.passed());
    assert!(conclusion.trace().is_empty());
    assert!(conclusion.reported().is_empty());
}

#[test]
fn status_in_the_success_range_passes() {
    let session = open(Verbosity::Normal).status(is_success());
    assert!(session.passed());
    assert_eq!(session.trace().len(), 1);
    assert_eq!(session.trace()[0].predicate_label, "is between");
    assert_eq!(session.trace()[0].expected_repr, "[200, 299]");
    assert_eq!(session.trace()[0].actual_repr, "200");
    assert!(session.trace()[0].passed);
}

#[test]
fn status_500_fails_on_200() {
    let session = open(Verbosity::Normal).status(is(500u16));
    assert!(!session.passed());
    assert_eq!(session.trace().len(), 1);
    assert_eq!(session.trace()[0].predicate_label, "is");
    assert_eq!(session.trace()[0].expected_repr, "500");
    assert_eq!(session.trace()[0].actual_repr, "200");
    assert!(!session.trace()[0].passed);
}

#[test]
fn headers_are_looked_up_by_pair() {
    let expected = Headers::new().with("content-type", "application/json");
    let session = open(Verbosity::Normal).headers(contains(expected));
    assert!(session.passed());
    let expected = Headers::new().with("content-type", "text/html");
    let session = session.headers(contains(expected));
    assert!(!session.passed());
    assert_eq!(session.trace().len(), 2);
    assert!(session.trace()[0].passed);
    assert!(!session.trace()[1].passed);
    assert_eq!(session.trace()[1].expected_repr, "{content-type: text/html}");
    assert_eq!(session.trace()[1].actual_repr, "{content-type: application/json}");
}

#[test]
fn the_body_is_held_against_a_pattern() {
    let session = open(Verbosity::Verbose).json_body(is(album(1)));
    assert!(session.passed());
    let session = session.json_body(is(album(2)));
    assert!(!session.passed());
    assert_eq!(session.trace()[1].diff.as_deref(), Some("$.id"));
    let part = Document::Object(vec![("title".to_string(), Document::Text("x".to_string()))]);
    let session = session.json_body(contains(part));
    assert!(session.trace()[2].passed);
    assert_eq!(session.trace()[2].predicate_label, "contains");
    assert_eq!(session.trace()[2].expected_repr, "{\"title\": \"x\"}");
}

#[test]
fn an_unreadable_body_does_not_stop_the_session() {
    let response = Response { body: Body::Unreadable, ..observed() };
    let settings = LogSettings { verbosity: Verbosity::Verbose, color: true };
    let session = Session::new(response, settings)
        .json_body(is(album(1)))
        .status(is(200u16));
    assert!(!session.passed());
    assert_eq!(session.trace().len(), 2);
    assert!(!session.trace()[0].passed);
    assert_eq!(session.trace()[0].actual_repr, "nothing readable");
    assert!(session.trace()[1].passed);
}

#[test]
fn the_response_time_is_held_against_a_limit() {
    let session = open(Verbosity::Normal).response_time(is_less_than(500u64));
    assert!(session.passed());
    let session = session.response_time(is_less_than(50u64));
    assert!(!session.passed());
    assert_eq!(session.trace()[1].predicate_label, "is less than");
    assert_eq!(session.trace()[1].expected_repr, "50");
    assert_eq!(session.trace()[1].actual_repr, "120");
    let session = session.response_time(is_between(200u64, 100u64));
    assert!(session.trace()[2].passed);
    assert_eq!(session.trace()[2].expected_repr, "[100, 200]");
}

#[test]
fn a_failure_in_the_middle_fails_the_session_and_stops_nothing() {
    let conclusion = open(Verbosity::Normal)
        .status(is_success())
        .status(is(500u16))
        .response_time(is_less_than(500u64))
        .conclude();
    assert!(!conclusion.passed());
    assert_eq!(conclusion.trace().len(), 3);
    let passed: Vec<bool> = conclusion.trace().iter().map(|record| record.passed).collect();
    assert_eq!(passed, vec![true, false, true]);
    let labels: Vec<&str> =
        conclusion.trace().iter().map(|record| record.predicate_label.as_str()).collect();
    assert_eq!(labels, vec!["is between", "is", "is less than"]);
    assert_eq!(conclusion.reported().len(), 3);
}

#[test]
fn a_failure_at_the_start_stops_nothing() {
    let session = open(Verbosity::Normal)
        .status(is_client_error())
        .status(is_not(500u16))
        .headers(contains(Headers::new()))
        .json_body(contains(Document::Object(vec![])))
        .response_time(is_less_than(121u64));
    assert!(!session.passed());
    assert_eq!(session.trace().len(), 5);
    let passed: Vec<bool> = session.trace().iter().map(|record| record.passed).collect();
    assert_eq!(passed, vec![false, true, true, true, true]);
}

#[test]
fn every_call_leaves_one_record() {
    let mut session = open(Verbosity::Quiet);
    for count in 0..20usize {
        assert_eq!(session.trace().len(), count);
        session = if count % 3 == 0 {
            session.status(is(200u16))
        } else if count % 3 == 1 {
            session.status(is(404u16))
        } else {
            session.response_time(is_less_than(1u64))
        };
    }
    let conclusion = session.conclude();
    assert_eq!(conclusion.trace().len(), 20);
    assert!(!conclusion.passed());
    for (count, record) in conclusion.trace().iter().enumerate() {
        assert_eq!(record.passed, count % 3 == 0);
    }
    assert_eq!(conclusion.reported().len(), 13);
    assert!(conclusion.reported().iter().all(|record| !record.passed));
}

#[test]
fn a_session_of_passes_passes() {
    let conclusion = open(Verbosity::Quiet)
        .status(is(StatusCode::ok()))
        .status(is_not(StatusCode::internal_server_error()))
        .status(is_between(StatusCode::ok(), StatusCode::no_content()))
        .json_body(is(album(1)))
        .conclude();
    assert!(conclusion.passed());
    assert_eq!(conclusion.trace().len(), 4);
    assert!(conclusion.reported().is_empty());
}

#[test]
fn the_report_keeps_the_diff_only_when_verbose() {
    let verbose = open(Verbosity::Verbose).json_body(is(album(2))).conclude();
    assert_eq!(verbose.reported()[0].diff.as_deref(), Some("$.id"));
    let normal = open(Verbosity::Normal).json_body(is(album(2))).conclude();
    assert_eq!(normal.reported()[0].diff, None);
    assert_eq!(normal.trace()[0].diff.as_deref(), Some("$.id"));
}
