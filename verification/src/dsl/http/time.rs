//! Assertions on the time that a response took, in milliseconds.

use vstd::prelude::*;
use vstd::pervasive::unreached;
use crate::assertion::{ordered_bounds, scalar_outcome, Assertion, AssertionView, Operand};
use crate::dsl::{Predicate, Range};

verus! {

/// An expected value that an observed response time, of type `T`, can be
/// held against.
pub trait TimeDsl<T: View>: Sized {
    /// The assertion that an evaluation yields.
    type Assertion: View;

    /// The predicates that this kind of expected value can be evaluated
    /// with.
    spec fn supports(predicate: Predicate) -> bool;

    /// The assertion that evaluating `predicate` yields, over the observed
    /// time as a mathematical value.
    spec fn evaluated(self, actual: T::V, predicate: Predicate) -> <Self::Assertion as View>::V;

    /// Evaluates `predicate` with `self` as the expected value and `actual`
    /// as the observed one. To ask for a predicate that the expected value
    /// does not support is an error of the caller.
    fn eval(self, actual: T, predicate: Predicate) -> (assertion: Self::Assertion)
        requires
            Self::supports(predicate),
        ensures
            assertion@ == self.evaluated(actual@, predicate),
    ;
}

impl TimeDsl<u64> for u64 {
    type Assertion = Assertion<u64>;

    open spec fn supports(predicate: Predicate) -> bool {
        predicate.compares_one_value()
    }

    open spec fn evaluated(self, actual: u64, predicate: Predicate) -> AssertionView<u64> {
        scalar_outcome(predicate, Operand::Single(self), actual)
    }

    fn eval(self, actual: u64, predicate: Predicate) -> (assertion: Assertion<u64>) {
        match predicate {
            Predicate::Is => Assertion::is_eq(actual, self),
            Predicate::IsNot => Assertion::is_ne(actual, self),
            Predicate::LessThan => Assertion::less_than(actual, self),
            Predicate::GreaterThan => Assertion::greater_than(actual, self),
            _ => unreached(),
        }
    }
}

impl TimeDsl<u64> for Range<u64> {
    type Assertion = Assertion<u64>;

    open spec fn supports(predicate: Predicate) -> bool {
        predicate == Predicate::Between
    }

    open spec fn evaluated(self, actual: u64, predicate: Predicate) -> AssertionView<u64> {
        scalar_outcome(predicate, ordered_bounds(self.left, self.right), actual)
    }

    fn eval(self, actual: u64, predicate: Predicate) -> (assertion: Assertion<u64>) {
        match predicate {
            Predicate::Between => Assertion::in_range(actual, self.left, self.right),
            _ => unreached(),
        }
    }
}

} // verus!
