//! Assertions on the body of a response.

use vstd::prelude::*;
use vstd::pervasive::unreached;
use crate::assertion::{is_body_outcome, Assertion, AssertionView};
use crate::document::{deeply_equal, holds_pattern, Body, Document, DocumentView, MatchMode};
use crate::dsl::Predicate;

verus! {

/// How a predicate holds an observed document against a pattern:
/// [`Predicate::Is`] asks for equality, [`Predicate::Contains`] for
/// inclusion.
pub open spec fn predicate_mode(predicate: Predicate) -> MatchMode {
    if predicate == Predicate::Contains {
        MatchMode::Subset
    } else {
        MatchMode::Exact
    }
}

/// A pattern that an observed body, of type `T`, can be held against.
pub trait JsonBodyDsl<T: View>: Sized {
    /// The assertion that an evaluation yields.
    type Assertion: View;

    /// The predicates that this kind of pattern can be evaluated with.
    spec fn supports(predicate: Predicate) -> bool;

    /// Whether `outcome` is an assertion that evaluating `predicate` may
    /// yield, over the observed body as a mathematical value.
    spec fn yields(
        self,
        actual: T::V,
        predicate: Predicate,
        outcome: <Self::Assertion as View>::V,
    ) -> bool;

    /// Evaluates `predicate` with `self` as the pattern and `actual` as the
    /// observed body. To ask for a predicate that the pattern does not
    /// support is an error of the caller.
    fn eval(self, actual: T, predicate: Predicate) -> (assertion: Self::Assertion)
        requires
            Self::supports(predicate),
        ensures
            self.yields(actual@, predicate, assertion@),
    ;
}

impl JsonBodyDsl<Body> for Document {
    type Assertion = Assertion<Document>;

    open spec fn supports(predicate: Predicate) -> bool {
        predicate == Predicate::Is || predicate == Predicate::Contains
    }

    open spec fn yields(
        self,
        actual: Option<DocumentView>,
        predicate: Predicate,
        outcome: AssertionView<DocumentView>,
    ) -> bool {
        is_body_outcome(outcome, self@, actual, predicate_mode(predicate))
    }

    fn eval(self, actual: Body, predicate: Predicate) -> (assertion: Assertion<Document>) {
        match predicate {
            Predicate::Is => Assertion::matches(actual, self, MatchMode::Exact),
            Predicate::Contains => Assertion::matches(actual, self, MatchMode::Subset),
            _ => unreached(),
        }
    }
}

/// A pattern held for equality passes exactly on the bodies that were read
/// as a document deeply equal to it.
pub proof fn lemma_is_passes_on_equal_documents(
    pattern: Document,
    observed: Option<DocumentView>,
    outcome: AssertionView<DocumentView>,
)
    requires
        JsonBodyDsl::<Body>::yields(pattern, observed, Predicate::Is, outcome),
    ensures
        outcome.passed <==> (observed matches Some(document) && deeply_equal(pattern@, document)),
{
}

/// A pattern held for inclusion passes exactly on the bodies that were read
/// as a document that holds it.
pub proof fn lemma_contains_passes_on_holding_documents(
    pattern: Document,
    observed: Option<DocumentView>,
    outcome: AssertionView<DocumentView>,
)
    requires
        JsonBodyDsl::<Body>::yields(pattern, observed, Predicate::Contains, outcome),
    ensures
        outcome.passed <==> (observed matches Some(document) && holds_pattern(pattern@, document)),
{
}

} // verus!
