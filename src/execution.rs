//! The per-entity side of planning: mirroring live values into the
//! planner's state, computing a plan for the first goal that has one,
//! adopting finished plans, and dispatching the plan one action at a time.
//! The host runs these steps each tick and carries out what they decide.
use std::collections::VecDeque;

use crate::action::{same_action, Action};
use crate::assoc::entries_model;
use crate::datum::Datum;
use crate::effect::Effect;
use crate::goal::Goal;
use crate::localstate::LocalState;
use crate::planner::{
    actions_view, astar_path, get_effects_from_plan, is_plan, make_plan, nodes_view, plan_effects,
    Node,
};
use vstd::prelude::*;

verus! {

/// Marks an entity whose plan is being computed.
#[derive(Clone, Copy, Debug, PartialEq, Eq, Structural)]
pub struct IsPlanning;

/// The planning context of one entity.
#[derive(Debug)]
pub struct Planner {
    /// The symbolic state that plans start from.
    pub state: LocalState,
    /// The goals, in order of priority.
    pub goals: Vec<Goal>,
    /// The action most recently dispatched.
    pub current_action: Option<Action>,
    /// The names of the actions still to dispatch, first one next.
    pub current_plan: VecDeque<String>,
    /// The catalogue of actions that plans are made of.
    pub actions: Vec<Action>,
}

/// A mapping after inserting each pair of a list in turn.
pub open spec fn insert_all(m: Map<Seq<char>, Datum>, s: Seq<(Seq<char>, Datum)>) -> Map<
    Seq<char>,
    Datum,
>
    decreases s.len(),
{
    if s.len() == 0 {
        m
    } else {
        insert_all(m, s.drop_last()).insert(s.last().0, s.last().1)
    }
}

/// The names in a queue of action names.
pub open spec fn queue_names(q: Seq<String>) -> Seq<Seq<char>> {
    q.map_values(|s: String| s@)
}

/// The names of the actions of a list of effects.
pub open spec fn effect_names(e: Seq<Effect>) -> Seq<Seq<char>> {
    e.map_values(|x: Effect| x.action@)
}

/// No plan leads from `start` to a state that meets `goal`.
pub open spec fn no_plan(
    start: Map<Seq<char>, Datum>,
    actions: Seq<Action>,
    goal: Seq<(Seq<char>, crate::compare::Compare)>,
) -> bool {
    forall|p: Seq<Node>| !is_plan(p, start, actions, goal)
}

/// `i` is the first position of the catalogue with an action named `key`.
pub open spec fn first_with_key(actions: Seq<Action>, key: Seq<char>, i: int) -> bool {
    &&& 0 <= i < actions.len()
    &&& actions[i].key@ == key
    &&& forall|j: int| 0 <= j < i ==> (#[trigger] actions[j]).key@ != key
}

/// Some action of the catalogue is named `key`.
pub open spec fn has_key(actions: Seq<Action>, key: Seq<char>) -> bool {
    exists|i: int| 0 <= i < actions.len() && (#[trigger] actions[i]).key@ == key
}

/// What adopting a finished job did to the pending plan.
#[derive(Clone, Copy, Debug, PartialEq, Eq, Structural)]
pub enum Adoption {
    /// The new plan differed and replaced the pending one.
    Replaced,
    /// The new plan equals the pending one, which was left as it was.
    Kept,
    /// The job found no plan: the pending plan and current action were cleared.
    Cleared,
}

/// What one step of plan execution asks the host to do.
#[derive(Clone, Debug, PartialEq, Eq)]
pub enum Step {
    /// An action is still executing: nothing to do.
    Busy,
    /// The plan is empty: nothing to do.
    Idle,
    /// Attach the marker of `action_key`, after removing the markers of every
    /// action of the catalogue when `remove_all_markers` is set.
    Dispatch { action_key: String, remove_all_markers: bool },
}

/// A plan named an action that the catalogue lacks.
#[derive(Clone, Debug, PartialEq, Eq)]
pub enum StepError {
    UnknownAction(String),
}

fn write_datums(state: &mut LocalState, datums: &Vec<(String, Datum)>)
    ensures
        final(state)@ == insert_all(old(state)@, entries_model(datums@)),
{
    let ghost start = state@;
    let ghost src = entries_model(datums@);
    let mut i: usize = 0;
    while i < datums.len()
        invariant
            src == entries_model(datums@),
            i <= datums@.len(),
            state@ == insert_all(start, src.subrange(0, i as int)),
        decreases datums@.len() - i,
    {
        state.insert(datums[i].0.as_str(), datums[i].1);
        assert(src.subrange(0, i + 1).drop_last() =~= src.subrange(0, i as int));
        i = i + 1;
    }
    assert(src.subrange(0, i as int) =~= src);
}

impl Planner {
    /// A planner whose state holds the given key/value pairs (a later pair
    /// on a key wins), with no plan and no current action.
    pub fn new(datums: Vec<(String, Datum)>, goals: Vec<Goal>, actions: Vec<Action>) -> (r: Planner)
        ensures
            r.state@ == insert_all(Map::empty(), entries_model(datums@)),
            r.goals == goals,
            r.actions == actions,
            r.current_action is None,
            r.current_plan@.len() == 0,
    {
        let mut state = LocalState::new();
        write_datums(&mut state, &datums);
        Planner { state, goals, current_action: None, current_plan: VecDeque::new(), actions }
    }

    /// Mirrors live values into the state, overwriting what it held for
    /// their keys.
    pub fn sync_state(&mut self, datums: &Vec<(String, Datum)>)
        ensures
            final(self).state@ == insert_all(old(self).state@, entries_model(datums@)),
            final(self).goals == old(self).goals,
            final(self).actions == old(self).actions,
            final(self).current_action == old(self).current_action,
            final(self).current_plan == old(self).current_plan,
    {
        write_datums(&mut self.state, datums);
    }

    /// Takes in the result of a finished planning job. A plan replaces the
    /// pending one only when its action names differ from it, in length or
    /// at some position; no plan clears the pending plan and the current
    /// action.
    pub fn adopt_plan(&mut self, result: Option<Vec<Effect>>) -> (r: Adoption)
        ensures
            final(self).state == old(self).state,
            final(self).goals == old(self).goals,
            final(self).actions == old(self).actions,
            result is Some ==> {
                &&& queue_names(final(self).current_plan@) == effect_names(result->Some_0@)
                &&& final(self).current_action == old(self).current_action
                &&& (r is Kept <==> queue_names(old(self).current_plan@) == effect_names(
                    result->Some_0@,
                ))
                &&& (r is Kept ==> final(self).current_plan == old(self).current_plan)
                &&& (r is Kept || r is Replaced)
            },
            result is None ==> {
                &&& r is Cleared
                &&& final(self).current_plan@.len() == 0
                &&& final(self).current_action is None
            },
    {
        match result {
            Some(effects) => {
                if same_names(&self.current_plan, &effects) {
                    Adoption::Kept
                } else {
                    self.current_plan.clear();
                    let mut i: usize = 0;
                    while i < effects.len()
                        invariant
                            i <= effects@.len(),
                            queue_names(self.current_plan@) == effect_names(
                                effects@.subrange(0, i as int),
                            ),
                            self.state == old(self).state,
                            self.goals == old(self).goals,
                            self.actions == old(self).actions,
                            self.current_action == old(self).current_action,
                        decreases effects@.len() - i,
                    {
                        let ghost before = self.current_plan@;
                        let name = effects[i].action.clone();
                        self.current_plan.push_back(name);
                        assert(self.current_plan@ == before.push(name));
                        assert(queue_names(self.current_plan@) =~= queue_names(before).push(name@));
                        assert(queue_names(self.current_plan@) =~= effect_names(
                            effects@.subrange(0, i + 1),
                        ));
                        i = i + 1;
                    }
                    assert(effects@.subrange(0, i as int) =~= effects@);
                    Adoption::Replaced
                }
            },
            None => {
                self.current_plan.clear();
                self.current_action = None;
                Adoption::Cleared
            },
        }
    }

    /// Advances the plan by one action. Nothing happens while an action
    /// marker is attached, or when the plan is empty. Otherwise the next name
    /// leaves the queue and its action, looked up in the catalogue, becomes
    /// the current action; every marker is to be removed first when another
    /// action was current. A name missing from the catalogue is an error.
    pub fn step(&mut self, has_action_marker: bool) -> (r: Result<Step, StepError>)
        ensures
            final(self).state == old(self).state,
            final(self).goals == old(self).goals,
            final(self).actions == old(self).actions,
            has_action_marker ==> {
                &&& r == Ok::<Step, StepError>(Step::Busy)
                &&& final(self).current_plan == old(self).current_plan
                &&& final(self).current_action == old(self).current_action
            },
            !has_action_marker && old(self).current_plan@.len() == 0 ==> {
                &&& r == Ok::<Step, StepError>(Step::Idle)
                &&& final(self).current_plan@ == old(self).current_plan@
                &&& final(self).current_action == old(self).current_action
            },
            !has_action_marker && old(self).current_plan@.len() > 0 ==> {
                let head = old(self).current_plan@[0]@;
                &&& final(self).current_plan@ == old(self).current_plan@.drop_first()
                &&& has_key(old(self).actions@, head) ==> {
                    &&& (r matches Ok(Step::Dispatch { action_key, remove_all_markers }) && action_key@
                        == head && remove_all_markers == (old(self).current_action is Some
                        && old(self).current_action->Some_0.key@ != head))
                    &&& final(self).current_action is Some
                    &&& exists|i: int|
                        first_with_key(old(self).actions@, head, i) && same_action(
                            final(self).current_action->Some_0,
                            #[trigger] old(self).actions@[i],
                        )
                }
                &&& !has_key(old(self).actions@, head) ==> {
                    &&& (r matches Err(StepError::UnknownAction(name)) && name@ == head)
                    &&& final(self).current_action == old(self).current_action
                }
            },
    {
        if has_action_marker {
            return Ok(Step::Busy);
        }
        let next = self.current_plan.pop_front();
        match next {
            None => Ok(Step::Idle),
            Some(action_name) => {
                let mut i: usize = 0;
                while i < self.actions.len()
                    invariant
                        i <= self.actions@.len(),
                        forall|j: int| 0 <= j < i ==> (#[trigger] self.actions@[j]).key@ != action_name@,
                        self.state == old(self).state,
                        self.goals == old(self).goals,
                        self.actions == old(self).actions,
                        self.current_action == old(self).current_action,
                        self.current_plan@ == old(self).current_plan@.drop_first(),
                        old(self).current_plan@.len() > 0,
                        !has_action_marker,
                        action_name@ == old(self).current_plan@[0]@,
                    decreases self.actions@.len() - i,
                {
                    if self.actions[i].key == action_name {
                        let found = self.actions[i].duplicate();
                        let remove_all_markers = match &self.current_action {
                            Some(current) => !(current.key == action_name),
                            None => false,
                        };
                        self.current_action = Some(found);
                        assert(first_with_key(self.actions@, action_name@, i as int));
                        return Ok(Step::Dispatch { action_key: action_name, remove_all_markers });
                    }
                    i = i + 1;
                }
                Err(StepError::UnknownAction(action_name))
            },
        }
    }
}

/// Whether a queue of names lists the actions of `effects`, in order.
fn same_names(q: &VecDeque<String>, effects: &Vec<Effect>) -> (r: bool)
    ensures
        r == (queue_names(q@) == effect_names(effects@)),
{
    if q.len() != effects.len() {
        assert(queue_names(q@).len() != effect_names(effects@).len());
        return false;
    }
    let mut i: usize = 0;
    while i < q.len()
        invariant
            q@.len() == effects@.len(),
            i <= q@.len(),
            forall|j: int| 0 <= j < i ==> #[trigger] q@[j]@ == effects@[j].action@,
        decreases q@.len() - i,
    {
        if !(q[i] == effects[i].action) {
            assert(queue_names(q@)[i as int] != effect_names(effects@)[i as int]);
            return false;
        }
        i = i + 1;
    }
    assert(queue_names(q@) =~= effect_names(effects@));
    true
}

/// The planning job: tries the goals in order and returns the effects of
/// the first plan found, or `None` when no goal has a plan.
pub fn plan_for_goals(state: &LocalState, actions: &[Action], goals: &[Goal]) -> (r: Option<
    Vec<Effect>,
>)
    ensures
        r is None ==> forall|g: int|
            0 <= g < goals@.len() ==> no_plan(state@, actions@, (#[trigger] goals@[g])@)
                && astar_path((None, state@), actions_view(actions@), goals@[g]@) is None,
        r is Some ==> exists|g: int, p: Seq<Node>|
            0 <= g < goals@.len() && (forall|k: int|
                0 <= k < g ==> no_plan(state@, actions@, (#[trigger] goals@[k])@) && astar_path(
                    (None, state@),
                    actions_view(actions@),
                    goals@[k]@,
                ) is None) && #[trigger] is_plan(
                p,
                state@,
                actions@,
                goals@[g]@,
            ) && r->Some_0@ == plan_effects(p) && astar_path(
                (None, state@),
                actions_view(actions@),
                goals@[g]@,
            ) == Some(nodes_view(p)),
{
    let mut g: usize = 0;
    while g < goals.len()
        invariant
            g <= goals@.len(),
            forall|k: int|
                0 <= k < g ==> no_plan(state@, actions@, (#[trigger] goals@[k])@) && astar_path(
                    (None, state@),
                    actions_view(actions@),
                    goals@[k]@,
                ) is None,
        decreases goals@.len() - g,
    {
        match make_plan(state, actions, &goals[g]) {
            Some((path, _cost)) => {
                let ghost p = path@;
                let effects = get_effects_from_plan(path);
                assert(is_plan(p, state@, actions@, goals@[g as int]@));
                return Some(effects);
            },
            None => {},
        }
        g = g + 1;
    }
    None
}

/// The outcome of a request to plan for an entity: whether a job starts,
/// and the entity's planning marker after it.
pub open spec fn request_outcome(marker: Option<IsPlanning>, has_planner: bool) -> (
    Option<IsPlanning>,
    bool,
) {
    if has_planner && marker is None {
        (Some(IsPlanning), true)
    } else {
        (marker, false)
    }
}

/// Decides on a request to plan for an entity: a job starts only for an
/// entity that has a planner and is not planning already, and it is then
/// marked as planning.
pub fn request_planning(marker: &mut Option<IsPlanning>, has_planner: bool) -> (r: bool)
    ensures
        (*final(marker), r) == request_outcome(*old(marker), has_planner),
{
    if has_planner && marker.is_none() {
        *marker = Some(IsPlanning);
        true
    } else {
        false
    }
}

/// Two requests for one entity, with no job collected between them, start
/// at most one job.
pub proof fn lemma_one_job_per_entity(marker: Option<IsPlanning>, has_planner: bool)
    ensures
        !(request_outcome(marker, has_planner).1 && request_outcome(
            request_outcome(marker, has_planner).0,
            has_planner,
        ).1),
{
}

} // verus!
