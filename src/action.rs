//! Actions: what an agent can do, when, and with what outcome.
use crate::assoc::entries_model;
use crate::compare::Compare;
use crate::effect::{same_effect, Effect};
use crate::mutator::Mutator;
use vstd::prelude::*;

verus! {

/// Something an agent can do when its `preconditions` hold. Planning uses
/// the first of its `effects` only; any further effect is ignored.
#[derive(Clone, Debug, PartialEq, Hash)]
pub struct Action {
    /// The action's name, such as `eat_action`.
    pub key: String,
    /// Requirements that the state must meet before the action can be taken.
    pub preconditions: Vec<(String, Compare)>,
    /// The outcome of taking the action.
    pub effects: Vec<Effect>,
}

/// Two actions agree on their name, their preconditions and their effects.
pub open spec fn same_action(a: Action, b: Action) -> bool {
    &&& a.key@ == b.key@
    &&& entries_model(a.preconditions@) == entries_model(b.preconditions@)
    &&& a.effects@.len() == b.effects@.len()
    &&& forall|i: int| 0 <= i < a.effects@.len() ==> same_effect(#[trigger] a.effects@[i], b.effects@[i])
}

impl Action {
    /// A copy of this action.
    pub fn duplicate(&self) -> (r: Action)
        ensures
            same_action(r, *self),
    {
        let mut preconditions: Vec<(String, Compare)> = Vec::new();
        let mut i: usize = 0;
        while i < self.preconditions.len()
            invariant
                i <= self.preconditions@.len(),
                entries_model(preconditions@) == entries_model(self.preconditions@).subrange(0, i as int),
            decreases self.preconditions@.len() - i,
        {
            let ghost before = preconditions@;
            let entry = (self.preconditions[i].0.clone(), self.preconditions[i].1);
            preconditions.push(entry);
            proof {
                crate::assoc::lemma_entries_model_push(before, entry);
            }
            assert(entries_model(preconditions@) =~= entries_model(self.preconditions@).subrange(0, i + 1));
            i = i + 1;
        }
        assert(entries_model(preconditions@) =~= entries_model(self.preconditions@));
        let mut effects: Vec<Effect> = Vec::new();
        let mut j: usize = 0;
        while j < self.effects.len()
            invariant
                j <= self.effects@.len(),
                effects@.len() == j,
                forall|k: int| 0 <= k < j ==> same_effect(#[trigger] effects@[k], self.effects@[k]),
            decreases self.effects@.len() - j,
        {
            effects.push(self.effects[j].duplicate());
            j = j + 1;
        }
        Action { key: self.key.clone(), preconditions, effects }
    }

    /// An action with the given name, no preconditions and no effects.
    pub fn new(key: &str) -> (r: Action)
        ensures
            r.key@ == key@,
            r.preconditions@.len() == 0,
            r.effects@.len() == 0,
    {
        Action { key: key.to_owned(), preconditions: Vec::new(), effects: Vec::new() }
    }

    /// This action with one more effect at the end.
    pub fn with_effect(self, effect: Effect) -> (r: Action)
        ensures
            r.key == self.key,
            r.preconditions == self.preconditions,
            r.effects@ == self.effects@.push(effect),
    {
        let Action { key, preconditions, effects } = self;
        let mut effects = effects;
        effects.push(effect);
        Action { key, preconditions, effects }
    }

    /// This action with one more precondition at the end.
    pub fn with_precondition(self, precondition: (&str, Compare)) -> (r: Action)
        ensures
            r.key == self.key,
            entries_model(r.preconditions@) == entries_model(self.preconditions@).push(
                (precondition.0@, precondition.1),
            ),
            r.effects == self.effects,
    {
        let Action { key, preconditions, effects } = self;
        let mut preconditions = preconditions;
        let ghost before = preconditions@;
        let entry = (precondition.0.to_owned(), precondition.1);
        preconditions.push(entry);
        proof {
            crate::assoc::lemma_entries_model_push(before, entry);
        }
        Action { key, preconditions, effects }
    }

    /// This action with one more mutator at the end of its first effect. An
    /// action without effects gets one, named after the action, with cost 1.
    pub fn with_mutator(self, mutator: Mutator) -> (r: Action)
        ensures
            r.key == self.key,
            r.preconditions == self.preconditions,
            r.effects@.len() == if self.effects@.len() == 0 {
                1
            } else {
                self.effects@.len()
            },
            forall|i: int| 1 <= i < r.effects@.len() ==> r.effects@[i] == self.effects@[i],
            self.effects@.len() == 0 ==> {
                &&& r.effects@[0].action@ == self.key@
                &&& r.effects@[0].mutators@ == seq![mutator]
                &&& r.effects@[0].state@ == Map::<Seq<char>, crate::datum::Datum>::empty()
                &&& r.effects@[0].cost == 1
            },
            self.effects@.len() > 0 ==> {
                &&& r.effects@[0].action == self.effects@[0].action
                &&& r.effects@[0].mutators@ == self.effects@[0].mutators@.push(mutator)
                &&& r.effects@[0].state == self.effects@[0].state
                &&& r.effects@[0].cost == self.effects@[0].cost
            },
    {
        let Action { key, preconditions, effects } = self;
        let mut effects = effects;
        if effects.len() == 0 {
            let effect = Effect::new(key.as_str()).with_mutator(mutator);
            assert(effect.mutators@ =~= seq![mutator]);
            effects.push(effect);
        } else {
            let first = effects.remove(0);
            effects.insert(0, first.with_mutator(mutator));
        }
        Action { key, preconditions, effects }
    }

    /// This action with the cost of its first effect set to `new_cost`.
    pub fn set_cost(self, new_cost: usize) -> (r: Action)
        requires
            self.effects@.len() > 0,
        ensures
            r.key == self.key,
            r.preconditions == self.preconditions,
            r.effects@.len() == self.effects@.len(),
            forall|i: int| 1 <= i < r.effects@.len() ==> r.effects@[i] == self.effects@[i],
            r.effects@[0].action == self.effects@[0].action,
            r.effects@[0].mutators == self.effects@[0].mutators,
            r.effects@[0].state == self.effects@[0].state,
            r.effects@[0].cost == new_cost,
    {
        let Action { key, preconditions, effects } = self;
        let mut effects = effects;
        let first = effects.remove(0);
        let Effect { action, mutators, state, cost: _ } = first;
        effects.insert(0, Effect { action, mutators, state, cost: new_cost });
        Action { key, preconditions, effects }
    }
}

impl Default for Action {
    fn default() -> (r: Action)
        ensures
            r.key@.len() == 0,
            r.preconditions@.len() == 0,
            r.effects@.len() == 0,
    {
        Action { key: String::new(), preconditions: Vec::new(), effects: Vec::new() }
    }
}

} // verus!
