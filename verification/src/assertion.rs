//! The outcome of one evaluation, and the comparisons that decide it.

use vstd::prelude::*;
use crate::document::{
    agrees, departs_at, path_text, render_path, Body, Document, DocumentView, MatchMode, StepView,
};
use crate::dsl::Predicate;
use crate::headers::{includes, Headers};

verus! {

/// A value of a domain that is compared as an integer.
pub trait Scalar: Copy + Sized + View {
    /// The integer that the value stands for.
    spec fn rank(self) -> int;

    /// Two values that stand for the same integer are the same value.
    proof fn rank_is_faithful(a: Self, b: Self)
        requires
            a.rank() == b.rank(),
        ensures
            a == b,
    ;

    /// Whether both values stand for the same integer.
    fn equals(self, other: Self) -> (same: bool)
        ensures
            same == (self.rank() == other.rank()),
    ;

    /// Whether the value stands for a smaller integer than `other`.
    fn precedes(self, other: Self) -> (smaller: bool)
        ensures
            smaller == (self.rank() < other.rank()),
    ;
}

impl Scalar for u16 {
    open spec fn rank(self) -> int {
        self as int
    }

    proof fn rank_is_faithful(a: u16, b: u16) {
    }

    fn equals(self, other: u16) -> (same: bool) {
        self == other
    }

    fn precedes(self, other: u16) -> (smaller: bool) {
        self < other
    }
}

impl Scalar for u64 {
    open spec fn rank(self) -> int {
        self as int
    }

    proof fn rank_is_faithful(a: u64, b: u64) {
    }

    fn equals(self, other: u64) -> (same: bool) {
        self == other
    }

    fn precedes(self, other: u64) -> (smaller: bool) {
        self < other
    }
}

/// What an evaluated predicate was held against.
#[derive(Debug)]
pub enum Operand<T> {
    /// One expected value, or one collection of expected entries.
    Single(T),
    /// Two bounds, both included, the smaller one first.
    Bounds(T, T),
}

impl<T: View> View for Operand<T> {
    type V = Operand<T::V>;

    open spec fn view(&self) -> Operand<T::V> {
        match self {
            Operand::Single(value) => Operand::Single(value@),
            Operand::Bounds(low, high) => Operand::Bounds(low@, high@),
        }
    }
}

/// An assertion as a mathematical value, over the mathematical values of
/// its domain.
pub ghost struct AssertionView<V> {
    /// The predicate that was evaluated.
    pub predicate: Predicate,
    /// What the observed value was held against.
    pub expected: Operand<V>,
    /// The observed value; `None` where the response carried none that the
    /// domain could read.
    pub actual: Option<V>,
    /// Whether the observed value satisfies the predicate.
    pub passed: bool,
    /// Where the observed value departs from the expected one, if the
    /// domain can tell.
    pub diff: Option<Seq<char>>,
}

/// The outcome of holding one observed value against one expression. It is
/// made by the comparison that decides `passed`, and never changes after.
#[derive(Debug)]
pub struct Assertion<T> {
    predicate: Predicate,
    expected: Operand<T>,
    actual: Option<T>,
    passed: bool,
    diff: Option<String>,
}

impl<T: View> View for Assertion<T> {
    type V = AssertionView<T::V>;

    closed spec fn view(&self) -> AssertionView<T::V> {
        AssertionView {
            predicate: self.predicate,
            expected: self.expected@,
            actual: match self.actual {
                Some(value) => Some(value@),
                None => None,
            },
            passed: self.passed,
            diff: match self.diff {
                Some(text) => Some(text@),
                None => None,
            },
        }
    }
}

impl<T: View> Assertion<T> {
    /// Returns the predicate that was evaluated.
    pub fn predicate(&self) -> (predicate: Predicate)
        ensures
            predicate == self@.predicate,
    {
        self.predicate
    }

    /// Returns what the observed value was held against.
    pub fn expected(&self) -> (expected: &Operand<T>)
        ensures
            expected@ == self@.expected,
    {
        &self.expected
    }

    /// Returns the observed value, if the response carried one.
    pub fn actual(&self) -> (actual: &Option<T>)
        ensures
            actual.is_some() == self@.actual.is_some(),
            actual matches Some(value) ==> self@.actual == Some(value@),
    {
        &self.actual
    }

    /// Whether the observed value satisfies the predicate.
    pub fn passed(&self) -> (passed: bool)
        ensures
            passed == self@.passed,
    {
        self.passed
    }

    /// Whether the observed value fails the predicate.
    pub fn failed(&self) -> (failed: bool)
        ensures
            failed == !self@.passed,
    {
        !self.passed
    }

    /// Returns where the observed value departs from the expected one, if
    /// the domain told.
    pub fn diff(&self) -> (diff: &Option<String>)
        ensures
            diff.is_some() == self@.diff.is_some(),
            diff matches Some(text) ==> self@.diff == Some(text@),
    {
        &self.diff
    }
}

/// Whether an integer-like observed value satisfies a predicate. A
/// predicate held against an operand of the wrong shape is satisfied by
/// nothing.
pub open spec fn scalar_holds<T: Scalar>(
    predicate: Predicate,
    expected: Operand<T>,
    actual: T,
) -> bool {
    match (predicate, expected) {
        (Predicate::Is, Operand::Single(value)) => actual.rank() == value.rank(),
        (Predicate::IsNot, Operand::Single(value)) => actual.rank() != value.rank(),
        (Predicate::LessThan, Operand::Single(value)) => actual.rank() < value.rank(),
        (Predicate::GreaterThan, Operand::Single(value)) => actual.rank() > value.rank(),
        (Predicate::Between, Operand::Bounds(low, high)) => low.rank() <= actual.rank()
            <= high.rank(),
        _ => false,
    }
}

/// The assertion that holding an integer-like observed value against a
/// predicate yields.
pub open spec fn scalar_outcome<T: Scalar>(
    predicate: Predicate,
    expected: Operand<T>,
    actual: T,
) -> AssertionView<T::V> {
    AssertionView {
        predicate,
        expected: expected@,
        actual: Some(actual@),
        passed: scalar_holds(predicate, expected, actual),
        diff: None,
    }
}

/// The two bounds in order: the one that stands for the smaller integer
/// first.
pub open spec fn ordered_bounds<T: Scalar>(left: T, right: T) -> Operand<T> {
    if right.rank() < left.rank() {
        Operand::Bounds(right, left)
    } else {
        Operand::Bounds(left, right)
    }
}

/// `Is` holds of the observed value that equals the expected one, and of
/// no other.
pub proof fn lemma_is_holds_of_equal_only<T: Scalar>(expected: T, actual: T)
    ensures
        scalar_holds(Predicate::Is, Operand::Single(expected), actual) <==> actual == expected,
{
    if actual.rank() == expected.rank() {
        T::rank_is_faithful(actual, expected);
    }
}

/// `IsNot` holds exactly where `Is` does not.
pub proof fn lemma_is_not_negates_is<T: Scalar>(expected: T, actual: T)
    ensures
        scalar_holds(Predicate::IsNot, Operand::Single(expected), actual) == !scalar_holds(
            Predicate::Is,
            Operand::Single(expected),
            actual,
        ),
{
}

/// Between bounds that come in order, `Between` holds of the values from
/// the left bound to the right one, both included.
pub proof fn lemma_between_holds_within<T: Scalar>(left: T, right: T, actual: T)
    requires
        left.rank() <= right.rank(),
    ensures
        scalar_holds(Predicate::Between, ordered_bounds(left, right), actual) <==> left.rank()
            <= actual.rank() <= right.rank(),
{
}

/// The order in which two bounds are given changes nothing: the assertion
/// is the same, whichever comes first.
pub proof fn lemma_between_either_order<T: Scalar>(left: T, right: T, actual: T)
    ensures
        scalar_outcome(Predicate::Between, ordered_bounds(left, right), actual) == scalar_outcome(
            Predicate::Between,
            ordered_bounds(right, left),
            actual,
        ),
{
    if left.rank() == right.rank() {
        T::rank_is_faithful(left, right);
    }
}

impl<T: Scalar> Assertion<T> {
    /// Holds `actual` against `expected` for equality.
    pub fn is_eq(actual: T, expected: T) -> (assertion: Self)
        ensures
            assertion@ == scalar_outcome(Predicate::Is, Operand::Single(expected), actual),
    {
        Assertion {
            predicate: Predicate::Is,
            expected: Operand::Single(expected),
            actual: Some(actual),
            passed: actual.equals(expected),
            diff: None,
        }
    }

    /// Holds `actual` against `expected` for inequality.
    pub fn is_ne(actual: T, expected: T) -> (assertion: Self)
        ensures
            assertion@ == scalar_outcome(Predicate::IsNot, Operand::Single(expected), actual),
    {
        Assertion {
            predicate: Predicate::IsNot,
            expected: Operand::Single(expected),
            actual: Some(actual),
            passed: !actual.equals(expected),
            diff: None,
        }
    }

    /// Asks whether `actual` is strictly below `bound`.
    pub fn less_than(actual: T, bound: T) -> (assertion: Self)
        ensures
            assertion@ == scalar_outcome(Predicate::LessThan, Operand::Single(bound), actual),
    {
        Assertion {
            predicate: Predicate::LessThan,
            expected: Operand::Single(bound),
            actual: Some(actual),
            passed: actual.precedes(bound),
            diff: None,
        }
    }

    /// Asks whether `actual` is strictly above `bound`.
    pub fn greater_than(actual: T, bound: T) -> (assertion: Self)
        ensures
            assertion@ == scalar_outcome(
                Predicate::GreaterThan,
                Operand::Single(bound),
                actual,
            ),
    {
        Assertion {
            predicate: Predicate::GreaterThan,
            expected: Operand::Single(bound),
            actual: Some(actual),
            passed: bound.precedes(actual),
            diff: None,
        }
    }

    /// Asks whether `actual` lies between `left` and `right`, both included.
    /// The bounds may come in either order: the assertion records the smaller
    /// one first.
    pub fn in_range(actual: T, left: T, right: T) -> (assertion: Self)
        ensures
            assertion@ == scalar_outcome(Predicate::Between, ordered_bounds(left, right), actual),
    {
        let (low, high) = if right.precedes(left) {
            (right, left)
        } else {
            (left, right)
        };
        Assertion {
            predicate: Predicate::Between,
            expected: Operand::Bounds(low, high),
            actual: Some(actual),
            passed: !actual.precedes(low) && !high.precedes(actual),
            diff: None,
        }
    }
}

/// The assertion that looking for expected headers among the observed ones
/// yields.
pub open spec fn headers_outcome(
    expected: Seq<(Seq<char>, Seq<char>)>,
    actual: Seq<(Seq<char>, Seq<char>)>,
) -> AssertionView<Seq<(Seq<char>, Seq<char>)>> {
    AssertionView {
        predicate: Predicate::Contains,
        expected: Operand::Single(expected),
        actual: Some(actual),
        passed: includes(actual, expected),
        diff: None,
    }
}

impl Assertion<Headers> {
    /// Asks whether `actual` holds every header of `expected`.
    pub fn contains(actual: Headers, expected: Headers) -> (assertion: Self)
        ensures
            assertion@ == headers_outcome(expected@, actual@),
    {
        let passed = actual.includes(&expected);
        Assertion {
            predicate: Predicate::Contains,
            expected: Operand::Single(expected),
            actual: Some(actual),
            passed,
            diff: None,
        }
    }
}

/// The predicate that stands for a way of holding a document against a
/// pattern.
pub open spec fn mode_predicate(mode: MatchMode) -> Predicate {
    match mode {
        MatchMode::Exact => Predicate::Is,
        MatchMode::Subset => Predicate::Contains,
    }
}

/// What the diff of an assertion says of a body that could not be read.
pub open spec fn unreadable_text() -> Seq<char> {
    "the body is not a structured document"@
}

/// Whether an observed body satisfies a pattern: it was read as a document,
/// and that document agrees with the pattern.
pub open spec fn body_holds(
    pattern: DocumentView,
    actual: Option<DocumentView>,
    mode: MatchMode,
) -> bool {
    actual matches Some(observed) && agrees(pattern, observed, mode)
}

/// Whether `diff` is what an assertion on a body may carry: nothing where
/// the body satisfies the pattern, a diagnostic where the body could not be
/// read, and otherwise the path to a place where the observed document
/// departs from the pattern.
pub open spec fn diff_fits(
    pattern: DocumentView,
    actual: Option<DocumentView>,
    mode: MatchMode,
    diff: Option<Seq<char>>,
) -> bool {
    match actual {
        None => diff == Some(unreadable_text()),
        Some(observed) => if agrees(pattern, observed, mode) {
            diff is None
        } else {
            exists|path: Seq<StepView>| #[trigger]
                departs_at(pattern, observed, mode, path) && diff == Some(path_text(path))
        },
    }
}

/// Whether `outcome` is an assertion that holding an observed body against
/// a pattern may yield. All of it is determined but the diff of a failure,
/// which names one of the places where the documents differ.
pub open spec fn is_body_outcome(
    outcome: AssertionView<DocumentView>,
    pattern: DocumentView,
    actual: Option<DocumentView>,
    mode: MatchMode,
) -> bool {
    &&& outcome.predicate == mode_predicate(mode)
    &&& outcome.expected == Operand::Single(pattern)
    &&& outcome.actual == actual
    &&& outcome.passed == body_holds(pattern, actual, mode)
    &&& diff_fits(pattern, actual, mode, outcome.diff)
}

impl Assertion<Document> {
    /// Holds an observed body against a pattern.
    pub fn matches(actual: Body, pattern: Document, mode: MatchMode) -> (assertion: Self)
        ensures
            is_body_outcome(assertion@, pattern@, actual@, mode),
    {
        let predicate = match mode {
            MatchMode::Exact => Predicate::Is,
            MatchMode::Subset => Predicate::Contains,
        };
        match actual {
            Body::Unreadable => Assertion {
                predicate,
                expected: Operand::Single(pattern),
                actual: None,
                passed: false,
                diff: Some("the body is not a structured document".to_owned()),
            },
            Body::Document(observed) => {
                let departure = pattern.departure(&observed, mode);
                match departure {
                    None => Assertion {
                        predicate,
                        expected: Operand::Single(pattern),
                        actual: Some(observed),
                        passed: true,
                        diff: None,
                    },
                    Some(steps) => {
                        let diff = render_path(&steps);
                        Assertion {
                            predicate,
                            expected: Operand::Single(pattern),
                            actual: Some(observed),
                            passed: false,
                            diff: Some(diff),
                        }
                    },
                }
            },
        }
    }
}

} // verus!
