//! Goals: conjunctions of requirements on the keys of a state.
use crate::assoc::{lemma_entries_model_push, assoc_insert, assoc_map, entries_model, sorted_keys};
use crate::compare::Compare;
use vstd::prelude::*;

verus! {

/// What a final state must satisfy: at most one requirement per key, kept in
/// key order so that goals compare and hash independently of how they were
/// built.
#[derive(Debug, PartialEq, Eq, Hash)]
pub struct Goal {
    requirements: Vec<(String, Compare)>,
}

impl View for Goal {
    type V = Seq<(Seq<char>, Compare)>;

    /// The requirements in key order.
    closed spec fn view(&self) -> Seq<(Seq<char>, Compare)> {
        entries_model(self.requirements@)
    }
}

impl Goal {
    #[verifier::type_invariant]
    spec fn keys_sorted(self) -> bool {
        sorted_keys(entries_model(self.requirements@))
    }

    /// A goal without requirements.
    pub fn new() -> (r: Goal)
        ensures
            r@ == Seq::<(Seq<char>, Compare)>::empty(),
    {
        let r = Goal { requirements: Vec::new() };
        assert(r@ =~= Seq::<(Seq<char>, Compare)>::empty());
        r
    }

    /// This goal with the requirement on `key` set to `compare`.
    pub fn with_req(self, key: &str, compare: Compare) -> (r: Goal)
        ensures
            sorted_keys(r@),
            assoc_map(r@) == assoc_map(self@).insert(key@, compare),
    {
        proof {
            use_type_invariant(&self);
        }
        let Goal { requirements } = self;
        let mut requirements = requirements;
        assoc_insert(&mut requirements, key, compare);
        Goal { requirements }
    }

    /// A goal with the given requirements; of two on one key, the later wins.
    pub fn from_reqs(preconditions: &[(String, Compare)]) -> (r: Goal)
        ensures
            sorted_keys(r@),
            assoc_map(r@) == keyed_map(entries_model(preconditions@)),
    {
        let mut goal = Goal::new();
        let ghost src = entries_model(preconditions@);
        assert(assoc_map(goal@) =~= keyed_map(src.subrange(0, 0)));
        let mut i: usize = 0;
        while i < preconditions.len()
            invariant
                src == entries_model(preconditions@),
                i <= preconditions.len(),
                sorted_keys(goal@),
                assoc_map(goal@) == keyed_map(src.subrange(0, i as int)),
            decreases preconditions.len() - i,
        {
            goal = goal.with_req(preconditions[i].0.as_str(), preconditions[i].1);
            assert(src.subrange(0, i + 1).drop_last() =~= src.subrange(0, i as int));
            i = i + 1;
        }
        assert(src.subrange(0, i as int) =~= src);
        goal
    }

    /// The number of requirements.
    pub fn len(&self) -> (r: usize)
        ensures
            r == self@.len(),
    {
        self.requirements.len()
    }

    /// The `i`-th requirement in key order.
    pub fn requirement_at(&self, i: usize) -> (r: (&str, Compare))
        requires
            i < self@.len(),
        ensures
            r.0@ == self@[i as int].0,
            r.1 == self@[i as int].1,
    {
        (self.requirements[i].0.as_str(), self.requirements[i].1)
    }
}

/// The mapping that a list of pairs builds when each pair is inserted in
/// turn, so that a later pair on a key replaces an earlier one.
pub open spec fn keyed_map<V>(s: Seq<(Seq<char>, V)>) -> Map<Seq<char>, V>
    decreases s.len(),
{
    if s.len() == 0 {
        Map::empty()
    } else {
        keyed_map(s.drop_last()).insert(s.last().0, s.last().1)
    }
}

impl Clone for Goal {
    fn clone(&self) -> (r: Goal)
        ensures
            r@ == self@,
    {
        proof {
            use_type_invariant(self);
        }
        let mut requirements: Vec<(String, Compare)> = Vec::new();
        let mut i: usize = 0;
        while i < self.requirements.len()
            invariant
                i <= self.requirements.len(),
                entries_model(requirements@) == entries_model(self.requirements@).subrange(0, i as int),
            decreases self.requirements.len() - i,
        {
            let ghost before = requirements@;
            let key = self.requirements[i].0.clone();
            requirements.push((key, self.requirements[i].1));
            assert(requirements@ == before.push((key, self.requirements@[i as int].1)));
            proof {
                lemma_entries_model_push(before, (key, self.requirements@[i as int].1));
            }
            assert(entries_model(requirements@) =~= entries_model(self.requirements@).subrange(0, i + 1));
            i = i + 1;
        }
        assert(entries_model(requirements@) =~= entries_model(self.requirements@));
        Goal { requirements }
    }
}

impl Default for Goal {
    fn default() -> (r: Goal)
        ensures
            r@ == Seq::<(Seq<char>, Compare)>::empty(),
    {
        Goal::new()
    }
}

} // verus!
