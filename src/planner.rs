//! The search for a cheapest plan from a start state to a goal.
use crate::action::Action;
use crate::assoc::entries_model;
use crate::compare::{check_preconditions, compare_values, requirement_holds, requirements_hold, Compare};
use crate::effect::Effect;
use crate::goal::Goal;
use crate::localstate::{cap_u64, requirements_distance, LocalState};
use crate::mutator::{apply_mutators, duplicate_mutators, mutate_all, Mutator};
use crate::datum::Datum;
use vstd::prelude::*;

verus! {

/// A node of the search: the start state, or the effect of taking an action,
/// which holds the state that results.
#[derive(Clone, PartialEq, Eq, Hash, Debug)]
pub enum Node {
    /// The start state.
    State(LocalState),
    /// The effect of an action, with the state after it.
    Effect(Effect),
}

/// The state that a node holds.
pub open spec fn node_state(n: Node) -> LocalState {
    match n {
        Node::State(s) => s,
        Node::Effect(e) => e.state,
    }
}

/// The cost of a node: that of its effect, or 0 for a start state.
pub open spec fn node_cost(n: Node) -> nat {
    match n {
        Node::State(_) => 0,
        Node::Effect(e) => e.cost as nat,
    }
}

/// The sum of the costs of the nodes of a sequence.
pub open spec fn applied_cost(p: Seq<Node>) -> nat
    decreases p.len(),
{
    if p.len() == 0 {
        0
    } else {
        applied_cost(p.drop_last()) + node_cost(p.last())
    }
}

/// Whether a state meets every requirement of a goal.
pub open spec fn goal_met(state: Map<Seq<char>, Datum>, goal: Seq<(Seq<char>, Compare)>) -> bool {
    requirements_hold(state, goal)
}

/// The action can be taken in the state: it has an effect, and its
/// preconditions hold.
pub open spec fn enabled(a: Action, state: Map<Seq<char>, Datum>) -> bool {
    a.effects@.len() > 0 && requirements_hold(state, entries_model(a.preconditions@))
}

/// `e` is what taking `a` in `state` gives: a copy of the action's first
/// effect, holding the state after its mutators.
pub open spec fn is_outcome(a: Action, state: Map<Seq<char>, Datum>, e: Effect) -> bool {
    let t = a.effects@[0];
    &&& e.action@ == t.action@
    &&& e.mutators@ == t.mutators@
    &&& e.cost == t.cost
    &&& e.state@ == mutate_all(state, t.mutators@)
}

/// `n` is an effect node that taking `a` in `state` gives.
pub open spec fn is_outcome_node(a: Action, state: Map<Seq<char>, Datum>, n: Node) -> bool {
    match n {
        Node::Effect(e) => is_outcome(a, state, e),
        Node::State(_) => false,
    }
}

/// `to` follows `from` by taking one of the actions.
pub open spec fn is_step(from: Node, to: Node, actions: Seq<Action>) -> bool {
    match to {
        Node::Effect(e) => exists|j: int|
            0 <= j < actions.len() && enabled(actions[j], node_state(from)@) && #[trigger] is_outcome(
                actions[j],
                node_state(from)@,
                e,
            ),
        Node::State(_) => false,
    }
}

/// The node after position `i` follows the node at `i`.
pub open spec fn step_at(p: Seq<Node>, i: int, actions: Seq<Action>) -> bool {
    is_step(p[i], p[i + 1], actions)
}

/// A non-empty sequence of nodes, each following the one before.
pub open spec fn is_walk(p: Seq<Node>, actions: Seq<Action>) -> bool {
    &&& p.len() >= 1
    &&& forall|i: int| 0 <= i < p.len() - 1 ==> #[trigger] step_at(p, i, actions)
}

/// A plan: a walk from the start state to a state that meets the goal.
pub open spec fn is_plan(
    p: Seq<Node>,
    start: Map<Seq<char>, Datum>,
    actions: Seq<Action>,
    goal: Seq<(Seq<char>, Compare)>,
) -> bool {
    &&& is_walk(p, actions)
    &&& p[0] is State
    &&& node_state(p[0])@ == start
    &&& goal_met(node_state(p.last())@, goal)
}

/// The heuristic estimate for a node: its state's distance to the goal.
pub open spec fn estimate(n: Node, goal: Seq<(Seq<char>, Compare)>) -> nat {
    cap_u64(requirements_distance(node_state(n)@, goal))
}

/// The estimate never exceeds what is left to pay: on every walk from a
/// node like `start` to a state that meets the goal, the estimate at each
/// node is at most the cost of the rest of that walk. Nodes that cannot be
/// reached from `start`, or from which the goal cannot be reached, are not
/// constrained.
pub open spec fn admissible_from(
    start: Node,
    actions: Seq<Action>,
    goal: Seq<(Seq<char>, Compare)>,
) -> bool {
    forall|q: Seq<Node>, i: int|
        is_walk(q, actions) && starts_like(q[0], start) && goal_met(node_state(q.last())@, goal)
            && 0 <= i < q.len() ==> estimate(q[i], goal) <= applied_cost(
            #[trigger] q.subrange(i + 1, q.len() as int),
        )
}

/// The estimate never exceeds what is left to pay along any plan from
/// `start`: at each node of the plan, the estimate is at most the cost of
/// the rest of the plan.
pub open spec fn admissible(
    start: Map<Seq<char>, Datum>,
    actions: Seq<Action>,
    goal: Seq<(Seq<char>, Compare)>,
) -> bool {
    forall|q: Seq<Node>, i: int|
        is_plan(q, start, actions, goal) && 0 <= i < q.len() ==> estimate(q[i], goal)
            <= applied_cost(#[trigger] q.subrange(i + 1, q.len() as int))
}

impl Node {
    /// The state that the node holds.
    pub fn state(&self) -> (r: &LocalState)
        ensures
            *r == node_state(*self),
    {
        match self {
            Node::Effect(effect) => &effect.state,
            Node::State(state) => state,
        }
    }
}

/// The estimate for a node (see `estimate`).
fn heuristic(node: &Node, goal: &Goal) -> (r: u128)
    ensures
        r as nat == estimate(*node, goal@),
{
    node.state().distance_to_goal(goal) as u128
}

/// The positions of the actions that can be taken in `state`, in order.
pub open spec fn enabled_indices(actions: Seq<Action>, state: Map<Seq<char>, Datum>) -> Seq<int>
    decreases actions.len(),
{
    if actions.len() == 0 {
        Seq::empty()
    } else if enabled(actions.last(), state) {
        enabled_indices(actions.drop_last(), state).push(actions.len() - 1)
    } else {
        enabled_indices(actions.drop_last(), state)
    }
}

/// The nodes that follow `node`, one for each action that can be taken in
/// its state, in the order of `actions`, each with its cost.
fn successors(node: &Node, actions: &[Action]) -> (r: Vec<(Node, u128)>)
    ensures
        r@.len() == enabled_indices(actions@, node_state(*node)@).len(),
        forall|i: int|
            0 <= i < r@.len() ==> is_outcome_node(
                actions@[enabled_indices(actions@, node_state(*node)@)[i]],
                node_state(*node)@,
                #[trigger] r@[i].0,
            ) && r@[i].1 == node_cost(r@[i].0),
{
    let state = node.state();
    let ghost s = node_state(*node)@;
    let mut r: Vec<(Node, u128)> = Vec::new();
    let mut j: usize = 0;
    while j < actions.len()
        invariant
            j <= actions@.len(),
            *state == node_state(*node),
            s == node_state(*node)@,
            r@.len() == enabled_indices(actions@.subrange(0, j as int), s).len(),
            forall|i: int|
                0 <= i < r@.len() ==> is_outcome_node(
                    actions@[enabled_indices(actions@.subrange(0, j as int), s)[i]],
                    s,
                    #[trigger] r@[i].0,
                ) && r@[i].1 == node_cost(r@[i].0),
        decreases actions@.len() - j,
    {
        let ghost prev = enabled_indices(actions@.subrange(0, j as int), s);
        let ghost next = actions@.subrange(0, j + 1);
        assert(next.drop_last() =~= actions@.subrange(0, j as int));
        assert(next.last() == actions@[j as int]);
        let action = &actions[j];
        if action.effects.len() > 0 && check_preconditions(state, action) {
            let first = &action.effects[0];
            let mut new_state = state.clone();
            apply_mutators(&mut new_state, &first.mutators);
            let effect = Effect {
                action: first.action.clone(),
                mutators: duplicate_mutators(&first.mutators),
                state: new_state,
                cost: first.cost,
            };
            let ghost before = r@;
            let item = (Node::Effect(effect), first.cost as u128);
            assert(is_outcome_node(actions@[j as int], s, item.0));
            r.push(item);
            proof {
                assert(enabled_indices(next, s) == prev.push(j as int));
                assert forall|i: int| 0 <= i < r@.len() implies is_outcome_node(
                    actions@[enabled_indices(next, s)[i]],
                    s,
                    #[trigger] r@[i].0,
                ) && r@[i].1 == node_cost(r@[i].0) by {
                    if i < before.len() {
                        assert(r@[i] == before[i]);
                    }
                }
            }
        } else {
            assert(enabled_indices(next, s) == prev);
        }
        j = j + 1;
    }
    assert(actions@.subrange(0, j as int) =~= actions@);
    r
}

/// Whether the node's state meets the goal.
fn is_goal(node: &Node, goal: &Goal) -> (r: bool)
    ensures
        r == goal_met(node_state(*node)@, goal@),
{
    let state = node.state();
    let n = goal.len();
    let mut i: usize = 0;
    while i < n
        invariant
            n == goal@.len(),
            i <= n,
            *state == node_state(*node),
            forall|k: int| 0 <= k < i ==> requirement_holds(state@, #[trigger] goal@[k].0, goal@[k].1),
        decreases n - i,
    {
        let (key, compare) = goal.requirement_at(i);
        let ok = match state.get(key) {
            Some(v) => compare_values(&compare, &v),
            None => false,
        };
        if !ok {
            assert(!requirement_holds(state@, goal@[i as int].0, goal@[i as int].1));
            return false;
        }
        i = i + 1;
    }
    true
}

/// A mutator as a plain value: its kind (0 sets, 1 increments, 2
/// decrements), its key and its datum.
pub open spec fn mutator_view(m: Mutator) -> (int, Seq<char>, Datum) {
    match m {
        Mutator::Assign(k, v) => (0, k@, v),
        Mutator::Increment(k, v) => (1, k@, v),
        Mutator::Decrement(k, v) => (2, k@, v),
    }
}

pub open spec fn mutators_view(ms: Seq<Mutator>) -> Seq<(int, Seq<char>, Datum)> {
    ms.map_values(|m: Mutator| mutator_view(m))
}

/// An effect as a plain value: action name, mutators, resulting state, cost.
pub open spec fn effect_view(e: Effect) -> (
    Seq<char>,
    Seq<(int, Seq<char>, Datum)>,
    Map<Seq<char>, Datum>,
    nat,
) {
    (e.action@, mutators_view(e.mutators@), e.state@, e.cost as nat)
}

/// An action as a plain value: name, preconditions, effects.
pub open spec fn action_view(a: Action) -> (
    Seq<char>,
    Seq<(Seq<char>, Compare)>,
    Seq<(Seq<char>, Seq<(int, Seq<char>, Datum)>, Map<Seq<char>, Datum>, nat)>,
) {
    (a.key@, entries_model(a.preconditions@), a.effects@.map_values(|e: Effect| effect_view(e)))
}

pub open spec fn actions_view(actions: Seq<Action>) -> Seq<
    (
        Seq<char>,
        Seq<(Seq<char>, Compare)>,
        Seq<(Seq<char>, Seq<(int, Seq<char>, Datum)>, Map<Seq<char>, Datum>, nat)>,
    ),
> {
    actions.map_values(|a: Action| action_view(a))
}

/// A node as a plain value: the action name, mutators and cost of its
/// effect (none for a start state), and its state.
pub open spec fn node_view(n: Node) -> (
    Option<(Seq<char>, Seq<(int, Seq<char>, Datum)>, nat)>,
    Map<Seq<char>, Datum>,
) {
    match n {
        Node::State(s) => (None, s@),
        Node::Effect(e) => (Some((e.action@, mutators_view(e.mutators@), e.cost as nat)), e.state@),
    }
}

pub open spec fn nodes_view(p: Seq<Node>) -> Seq<
    (Option<(Seq<char>, Seq<(int, Seq<char>, Datum)>, nat)>, Map<Seq<char>, Datum>),
> {
    p.map_values(|n: Node| node_view(n))
}

/// The path that the A* search returns for a start node, a catalogue and a
/// goal, all as plain values; `None` when it finds none.
pub uninterp spec fn astar_path(
    start: (Option<(Seq<char>, Seq<(int, Seq<char>, Datum)>, nat)>, Map<Seq<char>, Datum>),
    actions: Seq<
        (
            Seq<char>,
            Seq<(Seq<char>, Compare)>,
            Seq<(Seq<char>, Seq<(int, Seq<char>, Datum)>, Map<Seq<char>, Datum>, nat)>,
        ),
    >,
    goal: Seq<(Seq<char>, Compare)>,
) -> Option<Seq<(Option<(Seq<char>, Seq<(int, Seq<char>, Datum)>, nat)>, Map<Seq<char>, Datum>)>>;

/// The cost of a node given as a plain value.
pub open spec fn view_cost(
    n: (Option<(Seq<char>, Seq<(int, Seq<char>, Datum)>, nat)>, Map<Seq<char>, Datum>),
) -> nat {
    match n.0 {
        Some(e) => e.2,
        None => 0,
    }
}

/// What `make_plan` returns, as plain values: the path that the search
/// finds from the start state, with the sum of its costs capped at
/// `usize::MAX`.
pub open spec fn plan_outcome(
    start: Map<Seq<char>, Datum>,
    actions: Seq<
        (
            Seq<char>,
            Seq<(Seq<char>, Compare)>,
            Seq<(Seq<char>, Seq<(int, Seq<char>, Datum)>, Map<Seq<char>, Datum>, nat)>,
        ),
    >,
    goal: Seq<(Seq<char>, Compare)>,
) -> Option<(Seq<(Option<(Seq<char>, Seq<(int, Seq<char>, Datum)>, nat)>, Map<Seq<char>, Datum>)>, nat)> {
    match astar_path((None, start), actions, goal) {
        Some(p) => Some((p, cap_usize(p.fold_left(0nat, |acc: nat, n| acc + view_cost(n))))),
        None => None,
    }
}

/// A plan returned by `make_plan`, as plain values.
pub open spec fn plan_view(r: Option<(Vec<Node>, usize)>) -> Option<(Seq<(Option<(Seq<char>, Seq<(int, Seq<char>, Datum)>, nat)>, Map<Seq<char>, Datum>)>, nat)> {
    match r {
        Some((p, c)) => Some((nodes_view(p@), c as nat)),
        None => None,
    }
}

proof fn lemma_view_cost(p: Seq<Node>)
    ensures
        applied_cost(p) == nodes_view(p).fold_left(0nat, |acc: nat, n| acc + view_cost(n)),
    decreases p.len(),
{
    if p.len() > 0 {
        lemma_view_cost(p.drop_last());
        assert(nodes_view(p).drop_last() =~= nodes_view(p.drop_last()));
        assert(view_cost(nodes_view(p).last()) == node_cost(p.last()));
    }
}

/// `n` is taken from `start`: same kind of node, same state.
pub open spec fn starts_like(n: Node, start: Node) -> bool {
    &&& node_state(n)@ == node_state(start)@
    &&& (n is State <==> start is State)
}

/// Relies on `pathfinding::directed::astar::astar`, given the start node and
/// `successors`, `heuristic` and `is_goal` above. Its source shows that:
/// the path it returns begins with a clone of the start node, follows parent
/// links that were recorded only from the successors of a node, and ends at
/// a node that passed the goal test; it returns `None` only once every node
/// that can be reached was taken from its queue and failed the goal test; the
/// start node is taken first, and returned alone when it passes the test; and
/// a goal node is returned only when no queued node has a lower cost plus
/// estimate, so that when the estimate at each node of a walk from the start
/// to the goal is at most the rest of that walk's cost, and with nodes
/// re-queued whenever a cheaper way to them is found, no cheaper path exists.
/// Costs are summed in `u128`: the edge costs are `usize`, so an overflow
/// would take a path of more than 2^64 steps.
#[verifier::external_body]
fn astar_search(start: &Node, actions: &[Action], goal: &Goal) -> (r: Option<Vec<Node>>)
    ensures
        r is Some ==> is_walk(r->Some_0@, actions@) && starts_like(r->Some_0@[0], *start)
            && goal_met(node_state(r->Some_0@.last())@, goal@),
        r is None ==> forall|p: Seq<Node>|
            is_walk(p, actions@) && starts_like(p[0], *start) ==> !goal_met(
                node_state(#[trigger] p.last())@,
                goal@,
            ),
        goal_met(node_state(*start)@, goal@) ==> r is Some && r->Some_0@.len() == 1,
        match r {
            Some(p) => astar_path(node_view(*start), actions_view(actions@), goal@) == Some(
                nodes_view(p@),
            ),
            None => astar_path(node_view(*start), actions_view(actions@), goal@) is None,
        },
        admissible_from(*start, actions@, goal@) && r is Some ==> forall|q: Seq<Node>|
            is_walk(q, actions@) && starts_like(q[0], *start) && goal_met(
                node_state(q.last())@,
                goal@,
            ) ==> applied_cost(r->Some_0@.drop_first()) <= applied_cost(#[trigger] q.drop_first()),
{
    pathfinding::directed::astar::astar(
        start,
        |n| successors(n, actions),
        |n| heuristic(n, goal),
        |n| is_goal(n, goal),
    ).map(|(path, _)| path)
}

/// `n`, capped at the largest `usize`.
pub open spec fn cap_usize(n: nat) -> nat {
    if n > usize::MAX {
        usize::MAX as nat
    } else {
        n
    }
}

proof fn lemma_applied_cost_first(p: Seq<Node>)
    requires
        p.len() >= 1,
    ensures
        applied_cost(p) == node_cost(p[0]) + applied_cost(p.drop_first()),
    decreases p.len(),
{
    if p.len() > 1 {
        lemma_applied_cost_first(p.drop_last());
        assert(p.drop_last().drop_first() =~= p.drop_first().drop_last());
        assert(p.drop_first().last() == p.last());
        assert(p.drop_last()[0] == p[0]);
    } else {
        assert(p.drop_last().len() == 0);
        assert(p.drop_first().len() == 0);
        assert(applied_cost(p.drop_last()) == 0);
        assert(applied_cost(p.drop_first()) == 0);
    }
}

/// The sum of the costs of the nodes of a path, capped at `usize::MAX`.
fn total_cost(path: &Vec<Node>) -> (r: usize)
    ensures
        r as nat == cap_usize(applied_cost(path@)),
{
    let mut sum: usize = 0;
    let mut i: usize = 0;
    while i < path.len()
        invariant
            i <= path.len(),
            sum as nat == cap_usize(applied_cost(path@.subrange(0, i as int))),
        decreases path.len() - i,
    {
        let c: usize = match &path[i] {
            Node::State(_) => 0,
            Node::Effect(e) => e.cost,
        };
        assert(path@.subrange(0, i + 1).drop_last() =~= path@.subrange(0, i as int));
        sum = sum.saturating_add(c);
        i = i + 1;
    }
    assert(path@.subrange(0, i as int) =~= path@);
    sum
}

/// How to search for a plan. Only a search from the start state towards the
/// goal is offered.
#[derive(Default, Copy, Clone, Debug)]
pub enum PlanningStrategy {
    /// Searches from the start state for the cheapest way to the goal.
    #[default]
    StartToGoal,
}

/// Searches for a plan with the given strategy (see `make_plan`).
pub fn make_plan_with_strategy(
    strategy: PlanningStrategy,
    start: &LocalState,
    actions: &[Action],
    goal: &Goal,
) -> (r: Option<(Vec<Node>, usize)>)
    ensures
        r matches Some((p, c)) ==> is_plan(p@, start@, actions@, goal@) && c as nat == cap_usize(
            applied_cost(p@),
        ),
        r is None ==> forall|p: Seq<Node>| !is_plan(p, start@, actions@, goal@),
        goal_met(start@, goal@) ==> (r matches Some((p, c)) && p@.len() == 1 && c == 0),
        actions@.len() == 0 && !goal_met(start@, goal@) ==> r is None,
        admissible(start@, actions@, goal@) ==> (r matches Some((p, c)) ==> forall|q: Seq<Node>|
            is_plan(q, start@, actions@, goal@) ==> applied_cost(p@) <= #[trigger] applied_cost(q)),
        plan_view(r) == plan_outcome(start@, actions_view(actions@), goal@),
{
    match strategy {
        PlanningStrategy::StartToGoal => {
            let start_node = Node::State(start.clone());
            match astar_search(&start_node, actions, goal) {
                Some(path) => {
                    let cost = total_cost(&path);
                    proof {
                        lemma_view_cost(path@);
                        lemma_applied_cost_first(path@);
                        if path@.len() == 1 {
                            assert(path@.drop_first().len() == 0);
                        }
                        if path@.len() > 1 {
                            assert(step_at(path@, 0, actions@));
                        }
                        if admissible(start@, actions@, goal@) {
                            assert forall|q: Seq<Node>, i: int|
                                is_walk(q, actions@) && starts_like(q[0], start_node) && goal_met(
                                    node_state(q.last())@,
                                    goal@,
                                ) && 0 <= i < q.len() implies estimate(q[i], goal@) <= applied_cost(
                                #[trigger] q.subrange(i + 1, q.len() as int),
                            ) by {
                                assert(is_plan(q, start@, actions@, goal@));
                            }
                            assert(admissible_from(start_node, actions@, goal@));
                            assert forall|q: Seq<Node>|
                                is_plan(q, start@, actions@, goal@) implies applied_cost(path@)
                                <= #[trigger] applied_cost(q) by {
                                lemma_applied_cost_first(q);
                                assert(starts_like(q[0], start_node));
                            }
                        }
                    }
                    Some((path, cost))
                },
                None => {
                    proof {
                        assert forall|p: Seq<Node>| !is_plan(p, start@, actions@, goal@) by {
                            if is_plan(p, start@, actions@, goal@) {
                                assert(starts_like(p[0], start_node));
                            }
                        }
                    }
                    None
                },
            }
        },
    }
}

/// Returns a cheapest plan that leads from `start` to a state meeting
/// `goal`, with its cost, or `None` when no plan exists.
///
/// A plan begins with the start state; each further node is the effect of an
/// action whose preconditions hold in the state before it, with the state
/// after the effect's mutators. Only the first effect of an action is used.
/// A precondition or a goal requirement on a missing key fails. The cost is
/// the sum of the effects' costs, capped at `usize::MAX`. The plan is the
/// cheapest one when the heuristic never overestimates along plans from
/// the start (`admissible`), as with costs of at least 1 per unit of
/// numeric distance to the goal.
pub fn make_plan(start: &LocalState, actions: &[Action], goal: &Goal) -> (r: Option<(Vec<Node>, usize)>)
    ensures
        r matches Some((p, c)) ==> is_plan(p@, start@, actions@, goal@) && c as nat == cap_usize(
            applied_cost(p@),
        ),
        r is None ==> forall|p: Seq<Node>| !is_plan(p, start@, actions@, goal@),
        goal_met(start@, goal@) ==> (r matches Some((p, c)) && p@.len() == 1 && c == 0),
        actions@.len() == 0 && !goal_met(start@, goal@) ==> r is None,
        admissible(start@, actions@, goal@) ==> (r matches Some((p, c)) ==> forall|q: Seq<Node>|
            is_plan(q, start@, actions@, goal@) ==> applied_cost(p@) <= #[trigger] applied_cost(q)),
        plan_view(r) == plan_outcome(start@, actions_view(actions@), goal@),
{
    make_plan_with_strategy(PlanningStrategy::StartToGoal, start, actions, goal)
}

/// Planning is deterministic: two calls of `make_plan` on inputs with the
/// same views return plans with the same view, node by node, and the same
/// cost.
pub proof fn lemma_plan_deterministic(
    start1: &LocalState,
    actions1: &[Action],
    goal1: &Goal,
    r1: Option<(Vec<Node>, usize)>,
    start2: &LocalState,
    actions2: &[Action],
    goal2: &Goal,
    r2: Option<(Vec<Node>, usize)>,
)
    requires
        call_ensures(make_plan, (start1, actions1, goal1), r1),
        call_ensures(make_plan, (start2, actions2, goal2), r2),
        start1@ == start2@,
        actions_view(actions1@) == actions_view(actions2@),
        goal1@ == goal2@,
    ensures
        plan_view(r1) == plan_view(r2),
{
}

/// The effects of a plan's nodes, in order.
pub open spec fn plan_effects(p: Seq<Node>) -> Seq<Effect>
    decreases p.len(),
{
    if p.len() == 0 {
        Seq::empty()
    } else {
        match p[0] {
            Node::Effect(e) => seq![e] + plan_effects(p.drop_first()),
            Node::State(_) => plan_effects(p.drop_first()),
        }
    }
}

/// The effects of a plan, in order, without its start state.
pub fn get_effects_from_plan(plan: Vec<Node>) -> (r: Vec<Effect>)
    ensures
        r@ == plan_effects(plan@),
{
    let ghost whole = plan@;
    let mut rest = plan;
    let mut out: Vec<Effect> = Vec::new();
    assert(out@ + plan_effects(rest@) =~= plan_effects(whole));
    while rest.len() > 0
        invariant
            out@ + plan_effects(rest@) == plan_effects(whole),
        decreases rest@.len(),
    {
        let ghost before = rest@;
        let node = rest.remove(0);
        assert(rest@ =~= before.drop_first());
        match node {
            Node::Effect(e) => {
                let ghost out_before = out@;
                out.push(e);
                assert(out@ + plan_effects(rest@) =~= out_before + plan_effects(before));
            },
            Node::State(_) => {},
        }
    }
    assert(out@ =~= out@ + plan_effects(rest@));
    out
}

} // verus!
