//! Traits that user types implement to take part in planning.
use crate::compare::Compare;
use crate::datum::Datum;
use crate::mutator::Mutator;
use vstd::prelude::*;

verus! {

/// A user enum that can stand in a state as a datum.
pub trait EnumDatum: Send + Sync {
    /// The datum for this value.
    fn datum(self) -> Datum;
}

/// A user type that names a key of the state and builds requirements on it.
pub trait Precondition<T> {
    /// The key and a comparison for `==`.
    fn is(val: T) -> (String, Compare);

    /// The key and a comparison for `!=`.
    fn is_not(val: T) -> (String, Compare);

    /// The key and a comparison for `>=`.
    fn is_more(val: T) -> (String, Compare);

    /// The key and a comparison for `<=`.
    fn is_less(val: T) -> (String, Compare);
}

/// A user type that names a key of the state and builds mutators on it.
pub trait MutatorTrait<T> {
    /// A mutator that sets the key to the given value.
    fn set(val: T) -> Mutator;

    /// A mutator that increases the key by the given value.
    fn increase(val: T) -> Mutator;

    /// A mutator that decreases the key by the given value.
    fn decrease(val: T) -> Mutator;
}

} // verus!
