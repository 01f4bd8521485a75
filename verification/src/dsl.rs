//! The expression language: predicates, operands and the factory functions
//! that pair them.

use vstd::prelude::*;

pub mod http;

verus! {

/// The kind of comparison that an expression asks for.
#[derive(Clone, Copy, Debug, PartialEq, Eq, Structural)]
pub enum Predicate {
    /// The observed value equals the operand.
    Is,
    /// The observed value differs from the operand.
    IsNot,
    /// The observed value lies between the two bounds, both included.
    Between,
    /// The observed collection holds every entry of the operand.
    Contains,
    /// The observed value is strictly below the operand.
    LessThan,
    /// The observed value is strictly above the operand.
    GreaterThan,
}

impl Predicate {
    /// The words by which a report names the predicate.
    pub open spec fn label_text(self) -> Seq<char> {
        match self {
            Predicate::Is => "is"@,
            Predicate::IsNot => "is not"@,
            Predicate::Between => "is between"@,
            Predicate::Contains => "contains"@,
            Predicate::LessThan => "is less than"@,
            Predicate::GreaterThan => "is greater than"@,
        }
    }

    /// Whether the predicate holds an observed value against one expected
    /// value, for equality or for order.
    pub open spec fn compares_one_value(self) -> bool {
        self == Predicate::Is || self == Predicate::IsNot || self == Predicate::LessThan || self
            == Predicate::GreaterThan
    }

    /// Returns the words by which a report names the predicate.
    pub fn label(&self) -> (text: &'static str)
        ensures
            text@ == self.label_text(),
    {
        match self {
            Predicate::Is => "is",
            Predicate::IsNot => "is not",
            Predicate::Between => "is between",
            Predicate::Contains => "contains",
            Predicate::LessThan => "is less than",
            Predicate::GreaterThan => "is greater than",
        }
    }
}

/// Two bounds, both included. Nothing orders them: `left` may exceed
/// `right`, and an evaluator reads the pair as the interval from the smaller
/// to the larger.
#[derive(Debug)]
pub struct Range<T> {
    pub left: T,
    pub right: T,
}

/// A comparison that has not been evaluated yet: a predicate and the operand
/// it is to be held against. Only the factory functions of this module build
/// one.
#[derive(Debug)]
pub struct Expression<T> {
    predicate: Predicate,
    value: T,
}

impl<T> Expression<T> {
    /// The predicate of the expression.
    pub closed spec fn predicate_of(&self) -> Predicate {
        self.predicate
    }

    /// The operand of the expression.
    pub closed spec fn value_of(&self) -> T {
        self.value
    }

    /// Returns the predicate.
    pub fn predicate(&self) -> (predicate: Predicate)
        ensures
            predicate == self.predicate_of(),
    {
        self.predicate
    }

    /// Returns the operand.
    pub fn value(&self) -> (value: &T)
        ensures
            *value == self.value_of(),
    {
        &self.value
    }

    /// Takes the expression apart.
    pub fn into_parts(self) -> (parts: (Predicate, T))
        ensures
            parts.0 == self.predicate_of(),
            parts.1 == self.value_of(),
    {
        (self.predicate, self.value)
    }
}

/// Asks that the observed value equal `value`.
pub fn is<T>(value: T) -> (expression: Expression<T>)
    ensures
        expression.predicate_of() == Predicate::Is,
        expression.value_of() == value,
{
    Expression { predicate: Predicate::Is, value }
}

/// Asks that the observed value differ from `value`.
pub fn is_not<T>(value: T) -> (expression: Expression<T>)
    ensures
        expression.predicate_of() == Predicate::IsNot,
        expression.value_of() == value,
{
    Expression { predicate: Predicate::IsNot, value }
}

/// Asks that the observed value be strictly below `value`.
pub fn is_less_than<T>(value: T) -> (expression: Expression<T>)
    ensures
        expression.predicate_of() == Predicate::LessThan,
        expression.value_of() == value,
{
    Expression { predicate: Predicate::LessThan, value }
}

/// Asks that the observed value be strictly above `value`.
pub fn is_greater_than<T>(value: T) -> (expression: Expression<T>)
    ensures
        expression.predicate_of() == Predicate::GreaterThan,
        expression.value_of() == value,
{
    Expression { predicate: Predicate::GreaterThan, value }
}

/// Asks that the observed collection hold every entry of `entries`.
pub fn contains<T>(entries: T) -> (expression: Expression<T>)
    ensures
        expression.predicate_of() == Predicate::Contains,
        expression.value_of() == entries,
{
    Expression { predicate: Predicate::Contains, value: entries }
}

/// Asks that the observed value lie between `left` and `right`, both
/// included. The bounds are kept as given; the evaluator orders them.
pub fn is_between<T>(left: T, right: T) -> (expression: Expression<Range<T>>)
    ensures
        expression.predicate_of() == Predicate::Between,
        expression.value_of() == (Range { left, right }),
{
    Expression { predicate: Predicate::Between, value: Range { left, right } }
}

} // verus!
