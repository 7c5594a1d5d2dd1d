//! Single-key changes to a state.
use crate::datum::{datum_add, datum_sub, Datum};
use crate::localstate::LocalState;
use vstd::prelude::*;

verus! {

/// A change to one key of a state.
#[derive(Clone, Debug, PartialEq, Eq, Hash)]
pub enum Mutator {
    /// Sets the key to the datum, adding the key where it is missing.
    Assign(String, Datum),
    /// Adds the datum to the key's value; nothing happens where the key is missing.
    Increment(String, Datum),
    /// Subtracts the datum from the key's value; nothing happens where the key is missing.
    Decrement(String, Datum),
}

/// The state after one mutator.
pub open spec fn mutate(state: Map<Seq<char>, Datum>, m: Mutator) -> Map<Seq<char>, Datum> {
    match m {
        Mutator::Assign(k, v) => state.insert(k@, v),
        Mutator::Increment(k, v) => if state.contains_key(k@) {
            state.insert(k@, datum_add(state[k@], v))
        } else {
            state
        },
        Mutator::Decrement(k, v) => if state.contains_key(k@) {
            state.insert(k@, datum_sub(state[k@], v))
        } else {
            state
        },
    }
}

/// The state after a list of mutators, applied in order.
pub open spec fn mutate_all(state: Map<Seq<char>, Datum>, ms: Seq<Mutator>) -> Map<
    Seq<char>,
    Datum,
>
    decreases ms.len(),
{
    if ms.len() == 0 {
        state
    } else {
        mutate(mutate_all(state, ms.drop_last()), ms.last())
    }
}

/// Setting a key gives it the datum, whatever the state held before.
pub proof fn lemma_set_assigns(state: Map<Seq<char>, Datum>, key: String, value: Datum)
    ensures
        mutate(state, Mutator::Assign(key, value)).contains_key(key@),
        mutate(state, Mutator::Assign(key, value))[key@] == value,
{
}

impl Mutator {
    pub fn set(key: &str, value: Datum) -> (r: Mutator)
        ensures
            r matches Mutator::Assign(k, v) && k@ == key@ && v == value,
    {
        Mutator::Assign(key.to_owned(), value)
    }

    pub fn increment(key: &str, value: Datum) -> (r: Mutator)
        ensures
            r matches Mutator::Increment(k, v) && k@ == key@ && v == value,
    {
        Mutator::Increment(key.to_owned(), value)
    }

    pub fn decrement(key: &str, value: Datum) -> (r: Mutator)
        ensures
            r matches Mutator::Decrement(k, v) && k@ == key@ && v == value,
    {
        Mutator::Decrement(key.to_owned(), value)
    }

    /// An equal copy of this mutator.
    pub fn duplicate(&self) -> (r: Mutator)
        ensures
            r == *self,
    {
        match self {
            Mutator::Assign(k, v) => Mutator::Assign(k.clone(), *v),
            Mutator::Increment(k, v) => Mutator::Increment(k.clone(), *v),
            Mutator::Decrement(k, v) => Mutator::Decrement(k.clone(), *v),
        }
    }
}

/// An equal copy of a list of mutators.
pub fn duplicate_mutators(ms: &Vec<Mutator>) -> (r: Vec<Mutator>)
    ensures
        r@ == ms@,
{
    let mut r: Vec<Mutator> = Vec::new();
    let mut i: usize = 0;
    while i < ms.len()
        invariant
            i <= ms.len(),
            r@ == ms@.subrange(0, i as int),
        decreases ms.len() - i,
    {
        r.push(ms[i].duplicate());
        assert(r@ =~= ms@.subrange(0, i + 1));
        i = i + 1;
    }
    assert(r@ =~= ms@);
    r
}

/// Applies one mutator to a state.
pub fn apply_mutator(state: &mut LocalState, mutator: &Mutator)
    ensures
        final(state)@ == mutate(old(state)@, *mutator),
{
    match mutator {
        Mutator::Assign(key, value) => {
            state.insert(key.as_str(), *value);
        },
        Mutator::Increment(key, value) => {
            if let Some(current) = state.get(key.as_str()) {
                state.insert(key.as_str(), current.add(value));
            }
        },
        Mutator::Decrement(key, value) => {
            if let Some(current) = state.get(key.as_str()) {
                state.insert(key.as_str(), current.sub(value));
            }
        },
    }
}

/// Applies a list of mutators to a state, in order.
pub fn apply_mutators(state: &mut LocalState, mutators: &Vec<Mutator>)
    ensures
        final(state)@ == mutate_all(old(state)@, mutators@),
{
    let ghost start = state@;
    let mut i: usize = 0;
    while i < mutators.len()
        invariant
            i <= mutators.len(),
            state@ == mutate_all(start, mutators@.subrange(0, i as int)),
        decreases mutators.len() - i,
    {
        apply_mutator(state, &mutators[i]);
        assert(mutators@.subrange(0, i + 1).drop_last() =~= mutators@.subrange(0, i as int));
        i = i + 1;
    }
    assert(mutators@.subrange(0, i as int) =~= mutators@);
}

} // verus!
