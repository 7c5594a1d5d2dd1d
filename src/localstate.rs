//! World states: finite mappings from string keys to datums.
use crate::assoc::{lemma_entries_model_push, 
    assoc_get, assoc_insert, assoc_map, entries_model, lemma_assoc_canonical, sorted_keys,
};
use crate::compare::{compare_target, Compare};
use crate::datum::{datum_distance, Datum};
use crate::goal::Goal;
use vstd::prelude::*;

verus! {

/// A world state. Its entries are kept in key order, so two states with the
/// same mapping are equal and hash alike whatever order they were built in.
#[derive(Debug, Eq, Hash)]
pub struct LocalState {
    data: Vec<(String, Datum)>,
}

impl View for LocalState {
    type V = Map<Seq<char>, Datum>;

    /// The mapping from each key to its datum.
    closed spec fn view(&self) -> Map<Seq<char>, Datum> {
        assoc_map(entries_model(self.data@))
    }
}

/// How far a state is from meeting one requirement: the distance between the
/// datum and the requirement's target, or 1 where the key is missing.
pub open spec fn requirement_distance(state: Map<Seq<char>, Datum>, key: Seq<char>, c: Compare) -> nat {
    if state.contains_key(key) {
        datum_distance(state[key], compare_target(c))
    } else {
        1
    }
}

/// The sum of the distances of a state to each requirement of a list.
pub open spec fn requirements_distance(
    state: Map<Seq<char>, Datum>,
    reqs: Seq<(Seq<char>, Compare)>,
) -> nat
    decreases reqs.len(),
{
    if reqs.len() == 0 {
        0
    } else {
        requirements_distance(state, reqs.drop_last()) + requirement_distance(
            state,
            reqs.last().0,
            reqs.last().1,
        )
    }
}

/// `n`, capped at the largest `u64`.
pub open spec fn cap_u64(n: nat) -> nat {
    if n > u64::MAX {
        u64::MAX as nat
    } else {
        n
    }
}

impl LocalState {
    /// Every state keeps its entries sorted by key; `use_type_invariant`
    /// gives this of any state that exec code holds.
    #[verifier::type_invariant]
    pub closed spec fn keys_sorted(self) -> bool {
        sorted_keys(entries_model(self.data@))
    }

    /// The entries in key order, each key seen as characters.
    pub closed spec fn entries(self) -> Seq<(Seq<char>, Datum)> {
        entries_model(self.data@)
    }

    /// An empty state.
    pub fn new() -> (r: LocalState)
        ensures
            r@ == Map::<Seq<char>, Datum>::empty(),
    {
        let r = LocalState { data: Vec::new() };
        assert(r@ =~= Map::<Seq<char>, Datum>::empty());
        r
    }

    /// This state with `key` set to `value`.
    pub fn with_datum(self, key: &str, value: Datum) -> (r: LocalState)
        ensures
            r@ == self@.insert(key@, value),
    {
        let mut state = self;
        state.insert(key, value);
        state
    }

    /// Sets `key` to `value`, adding the key where it is missing.
    pub fn insert(&mut self, key: &str, value: Datum)
        ensures
            final(self)@ == old(self)@.insert(key@, value),
    {
        let mut taken = LocalState::new();
        core::mem::swap(self, &mut taken);
        proof {
            use_type_invariant(&taken);
        }
        let LocalState { data } = taken;
        let mut data = data;
        assoc_insert(&mut data, key, value);
        *self = LocalState { data };
    }

    /// The datum under `key`, if any.
    pub fn get(&self, key: &str) -> (r: Option<Datum>)
        ensures
            r == (if self@.contains_key(key@) {
                Some(self@[key@])
            } else {
                None
            }),
    {
        proof {
            use_type_invariant(self);
        }
        assoc_get(&self.data, key)
    }

    /// The number of keys.
    pub fn len(&self) -> (r: usize)
        ensures
            r == self.entries().len(),
    {
        self.data.len()
    }

    /// The `i`-th entry in key order.
    pub fn entry_at(&self, i: usize) -> (r: (&str, Datum))
        requires
            i < self.entries().len(),
        ensures
            r.0@ == self.entries()[i as int].0,
            r.1 == self.entries()[i as int].1,
    {
        (self.data[i].0.as_str(), self.data[i].1)
    }

    /// A copy of this state.
    pub fn duplicate(&self) -> (r: LocalState)
        ensures
            r@ == self@,
            r.entries() == self.entries(),
    {
        proof {
            use_type_invariant(self);
        }
        let mut data: Vec<(String, Datum)> = Vec::new();
        let mut i: usize = 0;
        while i < self.data.len()
            invariant
                i <= self.data.len(),
                entries_model(data@) == entries_model(self.data@).subrange(0, i as int),
            decreases self.data.len() - i,
        {
            let ghost before = data@;
            let key = self.data[i].0.clone();
            data.push((key, self.data[i].1));
            assert(data@ == before.push((key, self.data@[i as int].1)));
            proof {
                lemma_entries_model_push(before, (key, self.data@[i as int].1));
            }
            assert(entries_model(data@) =~= entries_model(self.data@).subrange(0, i + 1));
            i = i + 1;
        }
        assert(entries_model(data@) =~= entries_model(self.data@));
        LocalState { data }
    }

    /// The heuristic distance of this state to `goal`: the sum over the
    /// goal's requirements of `requirement_distance`, capped at `u64::MAX`.
    pub fn distance_to_goal(&self, goal: &Goal) -> (r: u64)
        ensures
            r as nat == cap_u64(requirements_distance(self@, goal@)),
    {
        let n = goal.len();
        let mut sum: u64 = 0;
        let mut i: usize = 0;
        while i < n
            invariant
                n == goal@.len(),
                i <= n,
                sum as nat == cap_u64(requirements_distance(self@, goal@.subrange(0, i as int))),
            decreases n - i,
        {
            let (key, compare) = goal.requirement_at(i);
            let d: u64 = match self.get(key) {
                Some(v) => v.distance(&compare.value()),
                None => 1,
            };
            let ghost pre = goal@.subrange(0, i as int);
            let ghost next = goal@.subrange(0, i + 1);
            assert(next.drop_last() =~= pre);
            sum = sum.saturating_add(d);
            i = i + 1;
        }
        assert(goal@.subrange(0, n as int) =~= goal@);
        sum
    }
}

/// Two states with the same mapping hold the same entries, in the same
/// order; equality and hashing read nothing else.
pub proof fn lemma_state_canonical(a: LocalState, b: LocalState)
    requires
        a.keys_sorted(),
        b.keys_sorted(),
        a@ == b@,
    ensures
        a.entries() == b.entries(),
{
    lemma_assoc_canonical(a.entries(), b.entries());
}

impl PartialEq for LocalState {
    fn eq(&self, other: &LocalState) -> (r: bool) {
        proof {
            use_type_invariant(self);
            use_type_invariant(other);
            lemma_state_canonical_iff(*self, *other);
        }
        if self.data.len() != other.data.len() {
            return false;
        }
        let mut i: usize = 0;
        while i < self.data.len()
            invariant
                self.data.len() == other.data.len(),
                i <= self.data.len(),
                forall|j: int|
                    0 <= j < i ==> #[trigger] self.entries()[j] == other.entries()[j],
            decreases self.data.len() - i,
        {
            if !(self.data[i].0 == other.data[i].0) || self.data[i].1 != other.data[i].1 {
                assert(self.entries()[i as int] != other.entries()[i as int]);
                proof {
                    use_type_invariant(self);
                    use_type_invariant(other);
                    lemma_state_canonical_iff(*self, *other);
                }
                return false;
            }
            i = i + 1;
        }
        assert(self.entries() =~= other.entries());
        true
    }
}

impl vstd::std_specs::cmp::PartialEqSpecImpl for LocalState {
    open spec fn obeys_eq_spec() -> bool {
        true
    }

    open spec fn eq_spec(&self, other: &LocalState) -> bool {
        self@ == other@
    }
}

proof fn lemma_state_canonical_iff(a: LocalState, b: LocalState)
    requires
        a.keys_sorted(),
        b.keys_sorted(),
    ensures
        (a@ == b@) == (a.entries() == b.entries()),
{
    if a@ == b@ {
        lemma_state_canonical(a, b);
    }
}

impl Clone for LocalState {
    fn clone(&self) -> (r: LocalState)
        ensures
            r@ == self@,
    {
        self.duplicate()
    }
}

impl Default for LocalState {
    fn default() -> (r: LocalState)
        ensures
            r@ == Map::<Seq<char>, Datum>::empty(),
    {
        LocalState::new()
    }
}

} // verus!
