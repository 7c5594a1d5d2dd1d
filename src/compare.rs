//! Comparisons of a datum against a target, used by preconditions and goals.
use crate::action::Action;
use crate::assoc::entries_model;
use crate::datum::{datum_ge, Datum};
use crate::localstate::LocalState;
use vstd::prelude::*;

verus! {

/// A predicate on a single datum.
#[derive(Clone, Copy, Debug, PartialEq, Eq, Hash, Structural)]
pub enum Compare {
    Equals(Datum),
    NotEquals(Datum),
    GreaterThanEquals(Datum),
    LessThanEquals(Datum),
}

/// The datum that a comparison measures against.
pub open spec fn compare_target(c: Compare) -> Datum {
    match c {
        Compare::Equals(d) => d,
        Compare::NotEquals(d) => d,
        Compare::GreaterThanEquals(d) => d,
        Compare::LessThanEquals(d) => d,
    }
}

/// Whether `value` passes the comparison. Values of a tag other than the
/// target's are not equal to it and neither above nor below it.
pub open spec fn compare_holds(c: Compare, value: Datum) -> bool {
    match c {
        Compare::Equals(d) => value == d,
        Compare::NotEquals(d) => value != d,
        Compare::GreaterThanEquals(d) => datum_ge(value, d),
        Compare::LessThanEquals(d) => datum_ge(d, value),
    }
}

/// A requirement on one key of a state. A key that the state lacks fails
/// every requirement.
pub open spec fn requirement_holds(state: Map<Seq<char>, Datum>, key: Seq<char>, c: Compare) -> bool {
    state.contains_key(key) && compare_holds(c, state[key])
}

/// Every requirement of the list holds of the state.
pub open spec fn requirements_hold(
    state: Map<Seq<char>, Datum>,
    reqs: Seq<(Seq<char>, Compare)>,
) -> bool {
    forall|i: int| 0 <= i < reqs.len() ==> requirement_holds(state, #[trigger] reqs[i].0, reqs[i].1)
}

impl Compare {
    pub fn equals(value: Datum) -> (r: Compare)
        ensures
            r == Compare::Equals(value),
    {
        Compare::Equals(value)
    }

    pub fn not_equals(value: Datum) -> (r: Compare)
        ensures
            r == Compare::NotEquals(value),
    {
        Compare::NotEquals(value)
    }

    pub fn greater_than_equals(value: Datum) -> (r: Compare)
        ensures
            r == Compare::GreaterThanEquals(value),
    {
        Compare::GreaterThanEquals(value)
    }

    pub fn less_than_equals(value: Datum) -> (r: Compare)
        ensures
            r == Compare::LessThanEquals(value),
    {
        Compare::LessThanEquals(value)
    }

    /// The target datum of the comparison.
    pub fn value(&self) -> (r: Datum)
        ensures
            r == compare_target(*self),
    {
        match self {
            Compare::Equals(f) | Compare::NotEquals(f) | Compare::GreaterThanEquals(f)
            | Compare::LessThanEquals(f) => *f,
        }
    }
}

/// Whether `value` passes `comparison`.
pub fn compare_values(comparison: &Compare, value: &Datum) -> (r: bool)
    ensures
        r == compare_holds(*comparison, *value),
{
    match comparison {
        Compare::Equals(v) => *value == *v,
        Compare::NotEquals(v) => *value != *v,
        Compare::GreaterThanEquals(v) => value.ge(v),
        Compare::LessThanEquals(v) => v.ge(value),
    }
}

/// Checks a list of requirements against a state: true when all of them
/// hold (so also when there are none); a missing key fails its requirement.
pub fn check_requirements(state: &LocalState, reqs: &Vec<(String, Compare)>) -> (r: bool)
    ensures
        r == requirements_hold(state@, entries_model(reqs@)),
{
    let ghost rs = entries_model(reqs@);
    let mut i: usize = 0;
    while i < reqs.len()
        invariant
            rs == entries_model(reqs@),
            i <= reqs.len(),
            forall|j: int| 0 <= j < i ==> requirement_holds(state@, #[trigger] rs[j].0, rs[j].1),
        decreases reqs.len() - i,
    {
        let ok = match state.get(reqs[i].0.as_str()) {
            Some(v) => compare_values(&reqs[i].1, &v),
            None => false,
        };
        if !ok {
            assert(!requirement_holds(state@, rs[i as int].0, rs[i as int].1));
            return false;
        }
        i = i + 1;
    }
    true
}

/// Checks the preconditions of `action` against `state`: true when all of
/// them hold, or when there are none.
pub fn check_preconditions(state: &LocalState, action: &Action) -> (r: bool)
    ensures
        r == requirements_hold(state@, entries_model(action.preconditions@)),
{
    check_requirements(state, &action.preconditions)
}

} // verus!
