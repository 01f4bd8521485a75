//! Assertions on the status code of a response.
//!
//! The observed value is a [`StatusCode`]. The expected one is an integer or
//! a status code, held against it for equality or order, or a [`Range`] of
//! either, held against it for inclusion.

use vstd::prelude::*;
use vstd::pervasive::unreached;
use crate::assertion::{
    lemma_between_either_order, lemma_between_holds_within, lemma_is_holds_of_equal_only,
    ordered_bounds, scalar_outcome, Assertion, AssertionView, Operand,
};
use crate::dsl::{is_between, Expression, Predicate, Range};
use crate::status_code::StatusCode;

verus! {

/// The status codes from 200 to 299.
pub fn is_success() -> (expression: Expression<Range<u16>>)
    ensures
        expression.predicate_of() == Predicate::Between,
        expression.value_of() == (Range { left: 200u16, right: 299u16 }),
{
    is_between(200, 299)
}

/// The status codes from 400 to 499.
pub fn is_client_error() -> (expression: Expression<Range<u16>>)
    ensures
        expression.predicate_of() == Predicate::Between,
        expression.value_of() == (Range { left: 400u16, right: 499u16 }),
{
    is_between(400, 499)
}

/// The status codes from 500 to 599.
pub fn is_server_error() -> (expression: Expression<Range<u16>>)
    ensures
        expression.predicate_of() == Predicate::Between,
        expression.value_of() == (Range { left: 500u16, right: 599u16 }),
{
    is_between(500, 599)
}

/// An expected value that an observed status, of type `T`, can be held
/// against.
pub trait StatusCodeDsl<T: View>: Sized {
    /// The assertion that an evaluation yields.
    type Assertion: View;

    /// The predicates that this kind of expected value can be evaluated
    /// with.
    spec fn supports(predicate: Predicate) -> bool;

    /// The assertion that evaluating `predicate` yields, over the observed
    /// status as a mathematical value.
    spec fn evaluated(self, actual: T::V, predicate: Predicate) -> <Self::Assertion as View>::V;

    /// Evaluates `predicate` with `self` as the expected value and `actual`
    /// as the observed one. To ask for a predicate that the expected value
    /// does not support is an error of the caller.
    fn eval(self, actual: T, predicate: Predicate) -> (assertion: Self::Assertion)
        requires
            Self::supports(predicate),
        ensures
            assertion@ == self.evaluated(actual@, predicate),
    ;
}

/// An expected status that is held against the observed one for equality.
pub trait StatusCodeDslEquality<T: View>: StatusCodeDsl<T> {
    /// Asserts that the observed status equals the expected one.
    fn is(self, actual: T) -> (assertion: Self::Assertion)
        ensures
            assertion@ == self.evaluated(actual@, Predicate::Is),
    ;

    /// Asserts that the observed status differs from the expected one.
    fn is_not(self, actual: T) -> (assertion: Self::Assertion)
        ensures
            assertion@ == self.evaluated(actual@, Predicate::IsNot),
    ;
}

/// An expected status that is held against the observed one for order.
pub trait StatusCodeDslOrder<T: View>: StatusCodeDsl<T> {
    /// Asserts that the observed status is strictly below the expected one.
    fn is_less_than(self, actual: T) -> (assertion: Self::Assertion)
        ensures
            assertion@ == self.evaluated(actual@, Predicate::LessThan),
    ;

    /// Asserts that the observed status is strictly above the expected one.
    fn is_greater_than(self, actual: T) -> (assertion: Self::Assertion)
        ensures
            assertion@ == self.evaluated(actual@, Predicate::GreaterThan),
    ;
}

/// A pair of bounds that the observed status is held against for inclusion.
pub trait StatusCodeDslBetween<T: View>: StatusCodeDsl<T> {
    /// Asserts that the observed status lies between the bounds, both
    /// included, whichever of them is the smaller.
    fn is_between(self, actual: T) -> (assertion: Self::Assertion)
        ensures
            assertion@ == self.evaluated(actual@, Predicate::Between),
    ;
}

impl StatusCodeDsl<StatusCode> for StatusCode {
    type Assertion = Assertion<u16>;

    open spec fn supports(predicate: Predicate) -> bool {
        predicate.compares_one_value()
    }

    open spec fn evaluated(self, actual: u16, predicate: Predicate) -> AssertionView<u16> {
        scalar_outcome(predicate, Operand::Single(self@), actual)
    }

    fn eval(self, actual: StatusCode, predicate: Predicate) -> (assertion: Assertion<u16>) {
        match predicate {
            Predicate::Is => self.is(actual),
            Predicate::IsNot => self.is_not(actual),
            Predicate::LessThan => self.is_less_than(actual),
            Predicate::GreaterThan => self.is_greater_than(actual),
            _ => unreached(),
        }
    }
}

impl StatusCodeDsl<StatusCode> for u16 {
    type Assertion = Assertion<u16>;

    open spec fn supports(predicate: Predicate) -> bool {
        predicate.compares_one_value()
    }

    open spec fn evaluated(self, actual: u16, predicate: Predicate) -> AssertionView<u16> {
        scalar_outcome(predicate, Operand::Single(self), actual)
    }

    fn eval(self, actual: StatusCode, predicate: Predicate) -> (assertion: Assertion<u16>) {
        match predicate {
            Predicate::Is => self.is(actual),
            Predicate::IsNot => self.is_not(actual),
            Predicate::LessThan => self.is_less_than(actual),
            Predicate::GreaterThan => self.is_greater_than(actual),
            _ => unreached(),
        }
    }
}

impl StatusCodeDsl<StatusCode> for Range<StatusCode> {
    type Assertion = Assertion<u16>;

    open spec fn supports(predicate: Predicate) -> bool {
        predicate == Predicate::Between
    }

    open spec fn evaluated(self, actual: u16, predicate: Predicate) -> AssertionView<u16> {
        scalar_outcome(
            predicate,
            ordered_bounds(self.left@, self.right@),
            actual,
        )
    }

    fn eval(self, actual: StatusCode, predicate: Predicate) -> (assertion: Assertion<u16>) {
        match predicate {
            Predicate::Between => self.is_between(actual),
            _ => unreached(),
        }
    }
}

impl StatusCodeDsl<StatusCode> for Range<u16> {
    type Assertion = Assertion<u16>;

    open spec fn supports(predicate: Predicate) -> bool {
        predicate == Predicate::Between
    }

    open spec fn evaluated(self, actual: u16, predicate: Predicate) -> AssertionView<u16> {
        scalar_outcome(predicate, ordered_bounds(self.left, self.right), actual)
    }

    fn eval(self, actual: StatusCode, predicate: Predicate) -> (assertion: Assertion<u16>) {
        match predicate {
            Predicate::Between => self.is_between(actual),
            _ => unreached(),
        }
    }
}

impl StatusCodeDslEquality<StatusCode> for StatusCode {
    fn is(self, actual: StatusCode) -> (assertion: Assertion<u16>) {
        Assertion::is_eq(actual.as_u16(), self.as_u16())
    }

    fn is_not(self, actual: StatusCode) -> (assertion: Assertion<u16>) {
        Assertion::is_ne(actual.as_u16(), self.as_u16())
    }
}

impl StatusCodeDslEquality<StatusCode> for u16 {
    fn is(self, actual: StatusCode) -> (assertion: Assertion<u16>) {
        Assertion::is_eq(actual.as_u16(), self)
    }

    fn is_not(self, actual: StatusCode) -> (assertion: Assertion<u16>) {
        Assertion::is_ne(actual.as_u16(), self)
    }
}

impl StatusCodeDslOrder<StatusCode> for StatusCode {
    fn is_less_than(self, actual: StatusCode) -> (assertion: Assertion<u16>) {
        Assertion::less_than(actual.as_u16(), self.as_u16())
    }

    fn is_greater_than(self, actual: StatusCode) -> (assertion: Assertion<u16>) {
        Assertion::greater_than(actual.as_u16(), self.as_u16())
    }
}

impl StatusCodeDslOrder<StatusCode> for u16 {
    fn is_less_than(self, actual: StatusCode) -> (assertion: Assertion<u16>) {
        Assertion::less_than(actual.as_u16(), self)
    }

    fn is_greater_than(self, actual: StatusCode) -> (assertion: Assertion<u16>) {
        Assertion::greater_than(actual.as_u16(), self)
    }
}

impl StatusCodeDslBetween<StatusCode> for Range<StatusCode> {
    fn is_between(self, actual: StatusCode) -> (assertion: Assertion<u16>) {
        Assertion::in_range(actual.as_u16(), self.left.as_u16(), self.right.as_u16())
    }
}

impl StatusCodeDslBetween<StatusCode> for Range<u16> {
    fn is_between(self, actual: StatusCode) -> (assertion: Assertion<u16>) {
        Assertion::in_range(actual.as_u16(), self.left, self.right)
    }
}

/// An expected status held for equality passes on the observed status that
/// equals it, and fails on every other.
pub proof fn lemma_is_passes_on_equal_only(expected: u16, observed: u16)
    ensures
        StatusCodeDsl::<StatusCode>::evaluated(expected, observed, Predicate::Is).passed
            <==> observed == expected,
{
    lemma_is_holds_of_equal_only(expected, observed);
}

/// An expected status held for inequality passes exactly where the same
/// status held for equality fails.
pub proof fn lemma_is_not_negates_is(expected: u16, observed: u16)
    ensures
        StatusCodeDsl::<StatusCode>::evaluated(expected, observed, Predicate::IsNot).passed
            == !StatusCodeDsl::<StatusCode>::evaluated(expected, observed, Predicate::Is).passed,
{
}

/// Bounds that come in order pass on the observed statuses from the left
/// bound to the right one, both included, and fail on every other.
pub proof fn lemma_between_passes_within(left: u16, right: u16, observed: u16)
    requires
        left <= right,
    ensures
        StatusCodeDsl::<StatusCode>::evaluated(
            Range { left, right },
            observed,
            Predicate::Between,
        ).passed <==> left <= observed <= right,
{
    lemma_between_holds_within(left, right, observed);
}

/// Bounds that come in the wrong order are read as if they came in the
/// right one: the assertion is the same.
pub proof fn lemma_between_reads_either_order(left: u16, right: u16, observed: u16)
    ensures
        StatusCodeDsl::<StatusCode>::evaluated(Range { left, right }, observed, Predicate::Between)
            == StatusCodeDsl::<StatusCode>::evaluated(
            Range { left: right, right: left },
            observed,
            Predicate::Between,
        ),
{
    lemma_between_either_order(left, right, observed);
}

} // verus!
