//! Assertions on the headers of a response.

use vstd::prelude::*;
use vstd::pervasive::unreached;
use crate::assertion::{headers_outcome, Assertion, AssertionView};
use crate::dsl::Predicate;
use crate::headers::{lemma_includes_is_subset, Headers};

verus! {

/// Expected headers that observed ones, of type `T`, can be held against.
pub trait HeadersDsl<T: View>: Sized {
    /// The assertion that an evaluation yields.
    type Assertion: View;

    /// The predicates that this kind of expected value can be evaluated
    /// with.
    spec fn supports(predicate: Predicate) -> bool;

    /// The assertion that evaluating `predicate` yields, over the observed
    /// headers as a mathematical value.
    spec fn evaluated(self, actual: T::V, predicate: Predicate) -> <Self::Assertion as View>::V;

    /// Evaluates `predicate` with `self` as the expected headers and
    /// `actual` as the observed ones. To ask for a predicate that the
    /// expected value does not support is an error of the caller.
    fn eval(self, actual: T, predicate: Predicate) -> (assertion: Self::Assertion)
        requires
            Self::supports(predicate),
        ensures
            assertion@ == self.evaluated(actual@, predicate),
    ;
}

impl HeadersDsl<Headers> for Headers {
    type Assertion = Assertion<Headers>;

    open spec fn supports(predicate: Predicate) -> bool {
        predicate == Predicate::Contains
    }

    open spec fn evaluated(
        self,
        actual: Seq<(Seq<char>, Seq<char>)>,
        predicate: Predicate,
    ) -> AssertionView<Seq<(Seq<char>, Seq<char>)>> {
        headers_outcome(self@, actual)
    }

    fn eval(self, actual: Headers, predicate: Predicate) -> (assertion: Assertion<Headers>) {
        match predicate {
            Predicate::Contains => Assertion::contains(actual, self),
            _ => unreached(),
        }
    }
}

/// Expected headers pass exactly when the set of their pairs is a subset
/// of the set of observed pairs: what else was observed does not matter,
/// and a name observed with another value counts for nothing.
pub proof fn lemma_contains_passes_on_subsets(
    expected: Headers,
    observed: Seq<(Seq<char>, Seq<char>)>,
)
    ensures
        HeadersDsl::<Headers>::evaluated(expected, observed, Predicate::Contains).passed
            <==> expected@.to_set().subset_of(observed.to_set()),
{
    lemma_includes_is_subset(observed, expected@);
}

} // verus!
