//! Shorthands for building common actions.
use crate::action::Action;
use crate::datum::Datum;
use crate::effect::Effect;
use crate::localstate::LocalState;
use crate::mutator::Mutator;
use vstd::prelude::*;

verus! {

/// An action with no preconditions and a single effect of cost 1, named
/// after the action, whose only mutator is `m`.
pub open spec fn single_mutator_action(r: Action, name: Seq<char>, m: Mutator) -> bool {
    &&& r.key@ == name
    &&& r.preconditions@.len() == 0
    &&& r.effects@.len() == 1
    &&& r.effects@[0].action@ == name
    &&& r.effects@[0].mutators@ == seq![m]
    &&& r.effects@[0].state@ == Map::<Seq<char>, Datum>::empty()
    &&& r.effects@[0].cost == 1
}

/// An action that sets `key_to_mutate` to `from_value`.
pub fn simple_action(name: &str, key_to_mutate: &str, from_value: Datum) -> (r: Action)
    ensures
        exists|m: Mutator|
            single_mutator_action(r, name@, m) && (m matches Mutator::Assign(k, v) && k@ == key_to_mutate@ && v == from_value),
{
    let m = Mutator::set(key_to_mutate, from_value);
    let r = Action::new(name).with_mutator(m);
    assert(single_mutator_action(r, name@, m));
    r
}

/// An action that sets several keys, each to its value, in the given order.
pub fn simple_multi_mutate_action(name: &str, muts: Vec<(&str, Datum)>) -> (r: Action)
    ensures
        r.key@ == name@,
        r.preconditions@.len() == 0,
        r.effects@.len() == 1,
        r.effects@[0].action@ == name@,
        r.effects@[0].state@ == Map::<Seq<char>, Datum>::empty(),
        r.effects@[0].cost == 1,
        r.effects@[0].mutators@.len() == muts@.len(),
        forall|i: int|
            0 <= i < muts@.len() ==> (#[trigger] r.effects@[0].mutators@[i] matches Mutator::Assign(
                k,
                v,
            ) && k@ == muts@[i].0@ && v == muts@[i].1),
{
    let mut mutators: Vec<Mutator> = Vec::new();
    let mut i: usize = 0;
    while i < muts.len()
        invariant
            i <= muts@.len(),
            mutators@.len() == i,
            forall|j: int|
                0 <= j < i ==> (#[trigger] mutators@[j] matches Mutator::Assign(k, v) && k@
                    == muts@[j].0@ && v == muts@[j].1),
        decreases muts@.len() - i,
    {
        mutators.push(Mutator::set(muts[i].0, muts[i].1));
        i = i + 1;
    }
    Action {
        key: name.to_owned(),
        preconditions: Vec::new(),
        effects: vec![
            Effect { action: name.to_owned(), mutators, state: LocalState::new(), cost: 1 },
        ],
    }
}

/// An action that adds `from_value` to `key_to_mutate`.
pub fn simple_increment_action(name: &str, key_to_mutate: &str, from_value: Datum) -> (r: Action)
    ensures
        exists|m: Mutator|
            single_mutator_action(r, name@, m) && (m matches Mutator::Increment(k, v) && k@ == key_to_mutate@ && v == from_value),
{
    let m = Mutator::increment(key_to_mutate, from_value);
    let r = Action::new(name).with_mutator(m);
    assert(single_mutator_action(r, name@, m));
    r
}

/// An action that subtracts `from_value` from `key_to_mutate`.
pub fn simple_decrement_action(name: &str, key_to_mutate: &str, from_value: Datum) -> (r: Action)
    ensures
        exists|m: Mutator|
            single_mutator_action(r, name@, m) && (m matches Mutator::Decrement(k, v) && k@ == key_to_mutate@ && v == from_value),
{
    let m = Mutator::decrement(key_to_mutate, from_value);
    let r = Action::new(name).with_mutator(m);
    assert(single_mutator_action(r, name@, m));
    r
}

} // verus!
