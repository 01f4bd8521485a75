use grillon::document::{render_path, Document, Step};
use grillon::dsl::Predicate;
use grillon::render::{render_decimal, render_signed_decimal, Render};

#[test]
fn natural_numbers_read_in_decimal() {
    assert_eq!(render_decimal(0), "0");
    assert_eq!(render_decimal(7), "7");
    assert_eq!(render_decimal(10), "10");
    assert_eq!(render_decimal(909), "909");
    assert_eq!(render_decimal(1234567890), "1234567890");
    assert_eq!(render_decimal(u64::MAX), "18446744073709551615");
    for value in [0u64, 1, 9, 10, 11, 99, 100, 101, 65535, 4294967296] {
        assert_eq!(render_decimal(value), value.to_string());
    }
}

#[test]
fn integers_read_with_their_sign() {
    assert_eq!(render_signed_decimal(0), "0");
    assert_eq!(render_signed_decimal(-1), "-1");
    assert_eq!(render_signed_decimal(42), "42");
    assert_eq!(render_signed_decimal(-120), "-120");
    assert_eq!(render_signed_decimal(i64::MAX), "9223372036854775807");
    assert_eq!(render_signed_decimal(i64::MIN), "-9223372036854775808");
}

#[test]
fn scalars_render_as_numbers() {
    assert_eq!(200u16.render(), "200");
    assert_eq!(u16::MAX.render(), "65535");
    assert_eq!(120u64.render(), "120");
}

#[test]
fn predicates_have_labels() {
    assert_eq!(Predicate::Is.label(), "is");
    assert_eq!(Predicate::IsNot.label(), "is not");
    assert_eq!(Predicate::Between.label(), "is between");
    assert_eq!(Predicate::Contains.label(), "contains");
    assert_eq!(Predicate::LessThan.label(), "is less than");
    assert_eq!(Predicate::GreaterThan.label(), "is greater than");
}

#[test]
fn documents_read_like_json() {
    assert_eq!(Document::Null.render(), "null");
    assert_eq!(Document::Bool(true).render(), "true");
    assert_eq!(Document::Bool(false).render(), "false");
    assert_eq!(Document::Number(-3).render(), "-3");
    assert_eq!(Document::Text("x".to_string()).render(), "\"x\"");
    assert_eq!(Document::Text(String::new()).render(), "\"\"");
    assert_eq!(Document::List(vec![]).render(), "[]");
    assert_eq!(Document::Object(vec![]).render(), "{}");
    let list = Document::List(vec![Document::Number(1), Document::Null, Document::List(vec![])]);
    assert_eq!(list.render(), "[1, null, []]");
    let album = Document::Object(vec![
        ("id".to_string(), Document::Number(1)),
        ("title".to_string(), Document::Text("x".to_string())),
        ("tags".to_string(), Document::List(vec![Document::Bool(true)])),
        ("owner".to_string(), Document::Object(vec![("userId".to_string(), Document::Number(1))])),
    ]);
    assert_eq!(
        album.render(),
        "{\"id\": 1, \"title\": \"x\", \"tags\": [true], \"owner\": {\"userId\": 1}}"
    );
    assert_eq!(album.clone().render(), album.render());
}

#[test]
fn paths_start_at_the_root() {
    assert_eq!(render_path(&vec![]), "$");
    assert_eq!(render_path(&vec![Step::Key("id".to_string())]), "$.id");
    let path = vec![Step::Key("items".to_string()), Step::Index(12), Step::Key("name".to_string())];
    assert_eq!(render_path(&path), "$.items[12].name");
    assert_eq!(render_path(&vec![Step::Index(0), Step::Index(1)]), "$[0][1]");
}
