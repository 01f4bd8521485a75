use grillon::assertion::{Assertion, Operand};
use grillon::document::{render_path, Body, Document, MatchMode, Step};
use grillon::dsl::http::JsonBodyDsl;
use grillon::dsl::{contains, is, Predicate};
use grillon::render::Render;

fn text(value: &str) -> Document {
    Document::Text(value.to_string())
}

fn object(fields: Vec<(&str, Document)>) -> Document {
    Document::Object(fields.into_iter().map(|(name, value)| (name.to_string(), value)).collect())
}

fn album(id: i64) -> Document {
    object(vec![("id", Document::Number(id)), ("title", text("x")), ("userId", Document::Number(1))])
}

fn departure(pattern: &Document, observed: &Document, mode: MatchMode) -> Option<String> {
    pattern.departure(observed, mode).map(|steps| render_path(&steps))
}

#[test]
fn an_equal_body_passes() {
    let (predicate, pattern) = is(album(1)).into_parts();
    let assertion = pattern.eval(Body::Document(album(1)), predicate);
    assert!(assertion.passed());
    assert_eq!(assertion.predicate(), Predicate::Is);
    assert!(assertion.diff().is_none());
}

#[test]
fn a_body_with_another_id_fails_at_the_id() {
    let (predicate, pattern) = is(album(2)).into_parts();
    let assertion = pattern.eval(Body::Document(album(1)), predicate);
    assert!(assertion.failed());
    assert_eq!(assertion.diff().as_deref(), Some("$.id"));
    match assertion.expected() {
        Operand::Single(document) => {
            assert_eq!(document.render(), "{\"id\": 2, \"title\": \"x\", \"userId\": 1}")
        }
        Operand::Bounds(_, _) => panic!("one pattern was given"),
    }
    match assertion.actual() {
        Some(document) => {
            assert_eq!(document.render(), "{\"id\": 1, \"title\": \"x\", \"userId\": 1}")
        }
        None => panic!("the body was read"),
    }
}

#[test]
fn an_unreadable_body_fails_with_a_diagnostic() {
    for mode in [MatchMode::Exact, MatchMode::Subset] {
        let assertion = Assertion::matches(Body::Unreadable, Document::Null, mode);
        assert!(assertion.failed());
        assert!(assertion.actual().is_none());
        assert_eq!(assertion.diff().as_deref(), Some("the body is not a structured document"));
    }
    let (predicate, pattern) = contains(album(1)).into_parts();
    let assertion = pattern.eval(Body::Unreadable, predicate);
    assert!(assertion.failed());
    assert_eq!(assertion.predicate(), Predicate::Contains);
}

#[test]
fn the_order_of_fields_does_not_matter() {
    let pattern = object(vec![("a", Document::Number(1)), ("b", Document::Number(2))]);
    let observed = object(vec![("b", Document::Number(2)), ("a", Document::Number(1))]);
    assert_eq!(departure(&pattern, &observed, MatchMode::Exact), None);
    assert_eq!(departure(&observed, &pattern, MatchMode::Exact), None);
    assert_eq!(departure(&pattern, &observed, MatchMode::Subset), None);
}

#[test]
fn a_subset_ignores_extra_fields() {
    let pattern = object(vec![("id", Document::Number(1))]);
    assert_eq!(departure(&pattern, &album(1), MatchMode::Subset), None);
    assert_eq!(departure(&pattern, &album(1), MatchMode::Exact), Some("$.title".to_string()));
    assert_eq!(departure(&album(1), &pattern, MatchMode::Subset), Some("$.title".to_string()));
    assert_eq!(departure(&pattern, &album(2), MatchMode::Subset), Some("$.id".to_string()));
    let (predicate, pattern) = contains(pattern).into_parts();
    assert!(pattern.eval(Body::Document(album(1)), predicate).passed());
}

#[test]
fn a_subset_ignores_extra_fields_at_every_depth() {
    let pattern = object(vec![("owner", object(vec![("id", Document::Number(7))]))]);
    let observed = object(vec![
        ("owner", object(vec![("name", text("ada")), ("id", Document::Number(7))])),
        ("title", text("x")),
    ]);
    assert_eq!(departure(&pattern, &observed, MatchMode::Subset), None);
    assert_eq!(departure(&pattern, &observed, MatchMode::Exact), Some("$.owner.name".to_string()));
    let elsewhere = object(vec![("owner", object(vec![("id", Document::Number(8))]))]);
    assert_eq!(departure(&pattern, &elsewhere, MatchMode::Subset), Some("$.owner.id".to_string()));
}

#[test]
fn scalars_agree_when_equal() {
    for mode in [MatchMode::Exact, MatchMode::Subset] {
        assert_eq!(departure(&Document::Null, &Document::Null, mode), None);
        assert_eq!(departure(&Document::Bool(true), &Document::Bool(true), mode), None);
        assert_eq!(departure(&Document::Number(-4), &Document::Number(-4), mode), None);
        assert_eq!(departure(&text("a"), &text("a"), mode), None);
        let root = Some("$".to_string());
        assert_eq!(departure(&Document::Bool(true), &Document::Bool(false), mode), root);
        assert_eq!(departure(&Document::Number(1), &Document::Number(2), mode), root);
        assert_eq!(departure(&text("a"), &text("b"), mode), root);
        assert_eq!(departure(&text("1"), &Document::Number(1), mode), root);
        assert_eq!(departure(&Document::Null, &Document::Bool(false), mode), root);
        assert_eq!(departure(&Document::List(vec![]), &Document::Object(vec![]), mode), root);
        assert_eq!(departure(&Document::Object(vec![]), &Document::Null, mode), root);
    }
}

#[test]
fn lists_agree_position_by_position() {
    let list = |items: Vec<i64>| Document::List(items.into_iter().map(Document::Number).collect());
    for mode in [MatchMode::Exact, MatchMode::Subset] {
        assert_eq!(departure(&list(vec![]), &list(vec![]), mode), None);
        assert_eq!(departure(&list(vec![1, 2, 3]), &list(vec![1, 2, 3]), mode), None);
        assert_eq!(departure(&list(vec![1, 2, 3]), &list(vec![1, 5, 3]), mode), Some("$[1]".to_string()));
        assert_eq!(departure(&list(vec![1, 2]), &list(vec![2, 1]), mode), Some("$[0]".to_string()));
        assert_eq!(departure(&list(vec![1, 2]), &list(vec![1, 2, 3]), mode), Some("$".to_string()));
        assert_eq!(departure(&list(vec![1, 2, 3]), &list(vec![1, 2]), mode), Some("$".to_string()));
    }
    let pattern = Document::List(vec![object(vec![("id", Document::Number(1))])]);
    let observed = Document::List(vec![album(1)]);
    assert_eq!(departure(&pattern, &observed, MatchMode::Subset), None);
    assert_eq!(departure(&pattern, &observed, MatchMode::Exact), Some("$[0].title".to_string()));
}

#[test]
fn a_missing_field_is_named() {
    let pattern = object(vec![("id", Document::Number(1)), ("year", Document::Number(1999))]);
    for mode in [MatchMode::Exact, MatchMode::Subset] {
        assert_eq!(departure(&pattern, &album(1), mode), Some("$.year".to_string()));
    }
    let steps = pattern.departure(&album(1), MatchMode::Subset).unwrap();
    assert_eq!(steps.len(), 1);
    assert!(matches!(&steps[0], Step::Key(name) if name == "year"));
}

#[test]
fn a_repeated_name_is_answered_by_any_field_of_that_name() {
    let observed = object(vec![("a", Document::Number(1)), ("a", Document::Number(2))]);
    let second = object(vec![("a", Document::Number(2))]);
    assert_eq!(departure(&second, &observed, MatchMode::Subset), None);
    assert_eq!(departure(&second, &observed, MatchMode::Exact), Some("$.a".to_string()));
    assert_eq!(departure(&observed, &observed, MatchMode::Exact), None);
    let third = object(vec![("a", Document::Number(3))]);
    assert_eq!(departure(&third, &observed, MatchMode::Subset), Some("$.a".to_string()));
}

#[test]
fn equality_implies_inclusion() {
    let documents = vec![
        Document::Null,
        album(1),
        album(2),
        object(vec![("id", Document::Number(1))]),
        Document::List(vec![album(1), Document::Null]),
        Document::List(vec![album(1)]),
        object(vec![]),
    ];
    for pattern in &documents {
        assert!(pattern.departure(pattern, MatchMode::Exact).is_none());
        for observed in &documents {
            let equal = pattern.departure(observed, MatchMode::Exact).is_none();
            let included = pattern.departure(observed, MatchMode::Subset).is_none();
            let mirrored = observed.departure(pattern, MatchMode::Exact).is_none();
            assert!(!equal || included);
            assert_eq!(equal, mirrored);
        }
    }
}
