use grillon::assertion::{Assertion, Operand};
use grillon::dsl::http::{
    is_client_error, is_server_error, is_success, StatusCodeDsl, StatusCodeDslBetween,
    StatusCodeDslEquality, StatusCodeDslOrder,
};
use grillon::dsl::{is, is_between, is_greater_than, is_less_than, is_not, Predicate, Range};
use grillon::status_code::StatusCode;

fn status(code: u16) -> StatusCode {
    StatusCode::from_u16(code).unwrap()
}

#[test]
fn status_code_accepts_three_digits_only() {
    assert!(StatusCode::from_u16(99).is_none());
    assert!(StatusCode::from_u16(1000).is_none());
    assert!(StatusCode::from_u16(0).is_none());
    assert!(StatusCode::from_u16(u16::MAX).is_none());
    assert_eq!(StatusCode::from_u16(100).unwrap().as_u16(), 100);
    assert_eq!(StatusCode::from_u16(999).unwrap().as_u16(), 999);
}

#[test]
fn named_status_codes_have_their_numbers() {
    assert_eq!(StatusCode::ok().as_u16(), 200);
    assert_eq!(StatusCode::no_content().as_u16(), 204);
    assert_eq!(StatusCode::not_found().as_u16(), 404);
    assert_eq!(StatusCode::internal_server_error().as_u16(), 500);
}

#[test]
fn factories_pair_predicate_and_operand() {
    let (predicate, value) = is(200u16).into_parts();
    assert_eq!((predicate, value), (Predicate::Is, 200));
    let (predicate, value) = is_not(500u16).into_parts();
    assert_eq!((predicate, value), (Predicate::IsNot, 500));
    let (predicate, value) = is_less_than(300u16).into_parts();
    assert_eq!((predicate, value), (Predicate::LessThan, 300));
    let (predicate, value) = is_greater_than(199u16).into_parts();
    assert_eq!((predicate, value), (Predicate::GreaterThan, 199));
    let expression = is_between(299u16, 200u16);
    assert_eq!(expression.predicate(), Predicate::Between);
    assert_eq!(expression.value().left, 299);
    assert_eq!(expression.value().right, 200);
}

#[test]
fn shorthands_are_the_three_ranges() {
    let (predicate, range) = is_success().into_parts();
    assert_eq!(predicate, Predicate::Between);
    assert_eq!((range.left, range.right), (200, 299));
    let (predicate, range) = is_client_error().into_parts();
    assert_eq!(predicate, Predicate::Between);
    assert_eq!((range.left, range.right), (400, 499));
    let (predicate, range) = is_server_error().into_parts();
    assert_eq!(predicate, Predicate::Between);
    assert_eq!((range.left, range.right), (500, 599));
}

#[test]
fn success_range_accepts_200() {
    let (predicate, range) = is_success().into_parts();
    let assertion = range.eval(StatusCode::ok(), predicate);
    assert!(assertion.passed());
    assert!(!assertion.failed());
    assert_eq!(assertion.predicate(), Predicate::Between);
    assert!(matches!(assertion.expected(), Operand::Bounds(200, 299)));
    assert_eq!(*assertion.actual(), Some(200));
    assert!(assertion.diff().is_none());
}

#[test]
fn is_500_fails_on_200() {
    let (predicate, value) = is(500u16).into_parts();
    let assertion = value.eval(StatusCode::ok(), predicate);
    assert!(assertion.failed());
    assert_eq!(assertion.predicate(), Predicate::Is);
    assert!(matches!(assertion.expected(), Operand::Single(500)));
    assert_eq!(*assertion.actual(), Some(200));
}

#[test]
fn is_passes_on_the_same_code_only() {
    for code in [100u16, 200, 204, 404, 999] {
        for observed in [100u16, 200, 204, 404, 999] {
            let assertion = code.eval(status(observed), Predicate::Is);
            assert_eq!(assertion.passed(), code == observed);
        }
    }
}

#[test]
fn is_not_is_the_negation_of_is() {
    for code in [100u16, 200, 201, 500, 999, 7] {
        for observed in [100u16, 200, 201, 500, 999] {
            let equal = code.eval(status(observed), Predicate::Is);
            let unequal = code.eval(status(observed), Predicate::IsNot);
            assert_eq!(unequal.passed(), !equal.passed());
            assert_eq!(unequal.predicate(), Predicate::IsNot);
        }
    }
}

#[test]
fn between_includes_both_bounds() {
    let range = || Range { left: 200u16, right: 204u16 };
    assert!(!range().eval(status(199), Predicate::Between).passed());
    assert!(range().eval(status(200), Predicate::Between).passed());
    assert!(range().eval(status(202), Predicate::Between).passed());
    assert!(range().eval(status(204), Predicate::Between).passed());
    assert!(!range().eval(status(205), Predicate::Between).passed());
}

#[test]
fn reversed_bounds_are_read_in_order() {
    for observed in [199u16, 200, 250, 299, 300] {
        let (predicate, range) = is_between(200u16, 299u16).into_parts();
        let ordered = range.eval(status(observed), predicate);
        let (predicate, range) = is_between(299u16, 200u16).into_parts();
        let reversed = range.eval(status(observed), predicate);
        assert_eq!(ordered.passed(), reversed.passed());
        assert_eq!(ordered.passed(), 200 <= observed && observed <= 299);
        assert!(matches!(reversed.expected(), Operand::Bounds(200, 299)));
        assert!(matches!(ordered.expected(), Operand::Bounds(200, 299)));
        assert_eq!(*reversed.actual(), Some(observed));
    }
}

#[test]
fn a_range_of_one_code_holds_that_code() {
    let only = Range { left: 404u16, right: 404u16 };
    assert!(only.eval(StatusCode::not_found(), Predicate::Between).passed());
    let only = Range { left: 404u16, right: 404u16 };
    assert!(only.eval(StatusCode::ok(), Predicate::Between).failed());
}

#[test]
fn order_predicates_are_strict() {
    assert!(300u16.eval(StatusCode::ok(), Predicate::LessThan).passed());
    assert!(200u16.eval(StatusCode::ok(), Predicate::LessThan).failed());
    assert!(100u16.eval(StatusCode::ok(), Predicate::LessThan).failed());
    assert!(100u16.eval(StatusCode::ok(), Predicate::GreaterThan).passed());
    assert!(200u16.eval(StatusCode::ok(), Predicate::GreaterThan).failed());
    assert!(300u16.eval(StatusCode::ok(), Predicate::GreaterThan).failed());
}

#[test]
fn status_codes_are_expected_values_too() {
    let assertion = StatusCode::ok().eval(StatusCode::ok(), Predicate::Is);
    assert!(assertion.passed());
    assert!(matches!(assertion.expected(), Operand::Single(200)));
    let assertion = StatusCode::internal_server_error().eval(StatusCode::ok(), Predicate::IsNot);
    assert!(assertion.passed());
    let assertion = StatusCode::ok().eval(StatusCode::not_found(), Predicate::Is);
    assert!(assertion.failed());
    assert_eq!(*assertion.actual(), Some(404));
    let assertion = StatusCode::not_found().eval(StatusCode::ok(), Predicate::LessThan);
    assert!(assertion.passed());
    let assertion = StatusCode::not_found().eval(StatusCode::ok(), Predicate::GreaterThan);
    assert!(assertion.failed());
    let (predicate, range) = is_between(StatusCode::no_content(), StatusCode::ok()).into_parts();
    let assertion = range.eval(StatusCode::ok(), predicate);
    assert!(assertion.passed());
    assert!(matches!(assertion.expected(), Operand::Bounds(200, 204)));
}

#[test]
fn the_methods_agree_with_eval() {
    assert!(StatusCodeDslEquality::is(200u16, StatusCode::ok()).passed());
    assert!(StatusCodeDslEquality::is_not(200u16, StatusCode::ok()).failed());
    assert!(StatusCodeDslEquality::is(StatusCode::ok(), StatusCode::ok()).passed());
    assert!(StatusCodeDslEquality::is_not(StatusCode::ok(), StatusCode::not_found()).passed());
    assert!(StatusCodeDslOrder::is_less_than(201u16, StatusCode::ok()).passed());
    assert!(StatusCodeDslOrder::is_greater_than(201u16, StatusCode::ok()).failed());
    assert!(StatusCodeDslOrder::is_less_than(StatusCode::ok(), StatusCode::ok()).failed());
    assert!(StatusCodeDslOrder::is_greater_than(StatusCode::ok(), StatusCode::not_found()).passed());
    let range = Range { left: 500u16, right: 599u16 };
    assert!(StatusCodeDslBetween::is_between(range, StatusCode::internal_server_error()).passed());
    let range = Range { left: StatusCode::ok(), right: StatusCode::no_content() };
    assert!(StatusCodeDslBetween::is_between(range, StatusCode::not_found()).failed());
}

#[test]
fn scalar_assertions_record_what_they_compared() {
    let assertion = Assertion::is_eq(7u64, 7u64);
    assert!(assertion.passed());
    assert_eq!(assertion.predicate(), Predicate::Is);
    let assertion = Assertion::is_ne(7u64, 7u64);
    assert!(assertion.failed());
    let assertion = Assertion::less_than(u64::MAX, u64::MAX);
    assert!(assertion.failed());
    let assertion = Assertion::greater_than(u64::MAX, 0u64);
    assert!(assertion.passed());
    let assertion = Assertion::in_range(0u64, u64::MAX, 0u64);
    assert!(assertion.passed());
    assert!(matches!(assertion.expected(), Operand::Bounds(0, u64::MAX)));
}
