//! Effects: what an action does to a state, and at what cost.
use crate::localstate::LocalState;
use crate::mutator::{duplicate_mutators, Mutator};
use vstd::prelude::*;

verus! {

/// The outcome of an action. Inside a plan, `state` holds the state after
/// the mutators were applied; in an action's definition it is empty.
#[derive(Clone, Debug, PartialEq, Eq, Hash)]
pub struct Effect {
    /// The name of the action that has this effect.
    pub action: String,
    /// The changes, applied in order.
    pub mutators: Vec<Mutator>,
    /// The resulting state, inside a plan.
    pub state: LocalState,
    /// The cost of taking the action.
    pub cost: usize,
}

/// Two effects agree on every field, states compared by their mappings.
pub open spec fn same_effect(a: Effect, b: Effect) -> bool {
    &&& a.action@ == b.action@
    &&& a.mutators@ == b.mutators@
    &&& a.state@ == b.state@
    &&& a.cost == b.cost
}

impl Effect {
    /// A copy of this effect.
    pub fn duplicate(&self) -> (r: Effect)
        ensures
            same_effect(r, *self),
    {
        Effect {
            action: self.action.clone(),
            mutators: duplicate_mutators(&self.mutators),
            state: self.state.clone(),
            cost: self.cost,
        }
    }

    /// An effect of the named action with no mutators, an empty state and cost 1.
    pub fn new(action_name: &str) -> (r: Effect)
        ensures
            r.action@ == action_name@,
            r.mutators@ == Seq::<Mutator>::empty(),
            r.state@ == Map::<Seq<char>, crate::datum::Datum>::empty(),
            r.cost == 1,
    {
        Effect {
            action: action_name.to_owned(),
            mutators: Vec::new(),
            state: LocalState::new(),
            cost: 1,
        }
    }

    /// This effect with one more mutator at the end.
    pub fn with_mutator(self, mutator: Mutator) -> (r: Effect)
        ensures
            r.action == self.action,
            r.mutators@ == self.mutators@.push(mutator),
            r.state == self.state,
            r.cost == self.cost,
    {
        let Effect { action, mutators, state, cost } = self;
        let mut mutators = mutators;
        mutators.push(mutator);
        Effect { action, mutators, state, cost }
    }
}

} // verus!
