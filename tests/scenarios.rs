use dogoap::{
    get_effects_from_plan, make_plan, make_plan_with_strategy, simple_action,
    simple_decrement_action, simple_increment_action, simple_multi_mutate_action, Action, Compare,
    Datum, Effect, Goal, LocalState, Mutator, Node, PlanningStrategy,
};

fn eat_action() -> Action {
    Action::new("eat").with_mutator(Mutator::set("is_hungry", Datum::Bool(false)))
}

fn hungry_goal() -> Goal {
    Goal::new().with_req("is_hungry", Compare::equals(Datum::Bool(false)))
}

fn names(effects: &[Effect]) -> Vec<String> {
    effects.iter().map(|e| e.action.clone()).collect()
}

#[test]
fn boolean_single_action_plan() {
    let start = LocalState::new().with_datum("is_hungry", Datum::Bool(true));
    let (path, cost) = make_plan(&start, &[eat_action()], &hungry_goal()).unwrap();
    assert_eq!(path.len(), 2);
    assert!(matches!(&path[0], Node::State(s) if *s == start));
    assert!(matches!(&path[1], Node::Effect(e) if e.action == "eat"));
    assert_eq!(cost, 1);
    assert_eq!(
        path[1].state().clone(),
        LocalState::new().with_datum("is_hungry", Datum::Bool(false))
    );
}

#[test]
fn already_satisfied_start_gives_single_node() {
    let start = LocalState::new().with_datum("is_hungry", Datum::Bool(false));
    let (path, cost) = make_plan(&start, &[eat_action()], &hungry_goal()).unwrap();
    assert_eq!(path.len(), 1);
    assert!(matches!(&path[0], Node::State(s) if *s == start));
    assert_eq!(cost, 0);
}

#[test]
fn no_actions_plans_only_when_satisfied() {
    let satisfied = LocalState::new().with_datum("is_hungry", Datum::Bool(false));
    let (path, cost) = make_plan(&satisfied, &[], &hungry_goal()).unwrap();
    assert_eq!(path.len(), 1);
    assert_eq!(cost, 0);
    let hungry = LocalState::new().with_datum("is_hungry", Datum::Bool(true));
    assert!(make_plan(&hungry, &[], &hungry_goal()).is_none());
}

#[test]
fn unreachable_goal_gives_none() {
    let start = LocalState::new().with_datum("is_hungry", Datum::Bool(true));
    let sleep = simple_action("sleep", "is_tired", Datum::Bool(false));
    assert!(make_plan(&start, &[sleep], &hungry_goal()).is_none());
}

#[test]
fn goal_on_missing_key_is_never_met() {
    let start = LocalState::new().with_datum("energy", Datum::I64(1));
    assert!(make_plan(&start, &[], &hungry_goal()).is_none());
}

#[test]
fn integer_increment_plan() {
    let start = LocalState::new().with_datum("energy", Datum::I64(50));
    let goal = Goal::new().with_req("energy", Compare::equals(Datum::I64(100)));
    let eat = Action::new("eat").with_mutator(Mutator::increment("energy", Datum::I64(10)));
    let (path, cost) = make_plan(&start, &[eat], &goal).unwrap();
    let effects = get_effects_from_plan(path);
    assert_eq!(effects.len(), 5);
    assert_eq!(cost, 5);
    assert_eq!(
        effects.last().unwrap().state,
        LocalState::new().with_datum("energy", Datum::I64(100))
    );
}

#[test]
fn enum_pathing_plan() {
    let (house, outside, market, ramen) = (0u64, 1u64, 2u64, 3u64);
    let start = LocalState::new().with_datum("at_location", Datum::Enum(house));
    let goal = Goal::new().with_req("at_location", Compare::equals(Datum::Enum(ramen)));
    let actions = vec![
        simple_action("go_to_ramen", "at_location", Datum::Enum(ramen))
            .with_precondition(("at_location", Compare::equals(Datum::Enum(market)))),
        simple_action("go_outside", "at_location", Datum::Enum(outside))
            .with_precondition(("at_location", Compare::equals(Datum::Enum(house)))),
        simple_action("go_to_market", "at_location", Datum::Enum(market))
            .with_precondition(("at_location", Compare::equals(Datum::Enum(outside)))),
    ];
    let (path, cost) = make_plan(&start, &actions, &goal).unwrap();
    assert_eq!(cost, 3);
    assert_eq!(
        names(&get_effects_from_plan(path)),
        vec!["go_outside", "go_to_market", "go_to_ramen"]
    );
}

#[test]
fn cheaper_actions_are_preferred() {
    let start = LocalState::new().with_datum("gold", Datum::I64(0));
    let goal = Goal::new().with_req("gold", Compare::equals(Datum::I64(10)));
    let cheap = Action::new("cheap")
        .with_mutator(Mutator::increment("gold", Datum::I64(1)))
        .set_cost(1);
    let expensive = Action::new("expensive")
        .with_mutator(Mutator::increment("gold", Datum::I64(3)))
        .set_cost(4);
    let (path, cost) = make_plan(&start, &[cheap, expensive], &goal).unwrap();
    let effects = get_effects_from_plan(path);
    assert_eq!(effects.len(), 10);
    assert!(effects.iter().all(|e| e.action == "cheap"));
    assert_eq!(cost, 10);
}

fn long_plan_actions() -> Vec<Action> {
    let sleep = Action::new("sleep").with_mutator(Mutator::increment("energy", Datum::I64(10)));
    let eat = simple_decrement_action("eat", "hunger", Datum::I64(10))
        .with_precondition(("energy", Compare::greater_than_equals(Datum::I64(25))));
    let rob = simple_increment_action("rob", "gold", Datum::I64(1))
        .with_effect(Effect {
            action: "rob".to_string(),
            mutators: vec![
                Mutator::decrement("energy", Datum::I64(5)),
                Mutator::increment("hunger", Datum::I64(5)),
            ],
            state: LocalState::default(),
            cost: 1,
        })
        .with_precondition(("hunger", Compare::less_than_equals(Datum::I64(50))))
        .with_precondition(("energy", Compare::greater_than_equals(Datum::I64(50))));
    vec![sleep, eat, rob]
}

#[test]
fn long_plan_with_several_resources() {
    let start = LocalState::new()
        .with_datum("energy", Datum::I64(30))
        .with_datum("hunger", Datum::I64(70))
        .with_datum("gold", Datum::I64(0));
    let goal = Goal::new().with_req("gold", Compare::equals(Datum::I64(7)));
    let (path, cost) = make_plan(&start, &long_plan_actions(), &goal).unwrap();
    let effects = get_effects_from_plan(path);
    assert_eq!(effects.len(), 11);
    assert_eq!(cost, 11);
    assert_eq!(
        effects.last().unwrap().state,
        LocalState::new()
            .with_datum("energy", Datum::I64(50))
            .with_datum("hunger", Datum::I64(50))
            .with_datum("gold", Datum::I64(7))
    );
}

#[test]
fn planning_twice_gives_the_same_plan() {
    let start = LocalState::new()
        .with_datum("energy", Datum::I64(30))
        .with_datum("hunger", Datum::I64(70))
        .with_datum("gold", Datum::I64(0));
    let goal = Goal::new().with_req("gold", Compare::equals(Datum::I64(3)));
    let first = make_plan(&start, &long_plan_actions(), &goal);
    let second = make_plan_with_strategy(
        PlanningStrategy::default(),
        &start,
        &long_plan_actions(),
        &goal,
    );
    assert_eq!(first, second);
    assert!(first.is_some());
}

#[test]
fn plan_cost_is_the_sum_of_effect_costs() {
    let start = LocalState::new().with_datum("gold", Datum::I64(0));
    let goal = Goal::new().with_req("gold", Compare::greater_than_equals(Datum::I64(5)));
    let big = Action::new("big")
        .with_mutator(Mutator::increment("gold", Datum::I64(5)))
        .set_cost(7);
    let (path, cost) = make_plan(&start, &[big], &goal).unwrap();
    let total: usize = get_effects_from_plan(path).iter().map(|e| e.cost).sum();
    assert_eq!(cost, 7);
    assert_eq!(total, 7);
}

#[test]
fn builders_fill_the_first_effect() {
    let action = Action::new("act")
        .with_mutator(Mutator::set("a", Datum::Bool(true)))
        .with_mutator(Mutator::increment("n", Datum::I64(2)))
        .set_cost(3);
    assert_eq!(action.effects.len(), 1);
    assert_eq!(action.effects[0].action, "act");
    assert_eq!(action.effects[0].cost, 3);
    assert_eq!(
        action.effects[0].mutators,
        vec![Mutator::set("a", Datum::Bool(true)), Mutator::increment("n", Datum::I64(2))]
    );
    let multi = simple_multi_mutate_action("multi", vec![("x", Datum::I64(1)), ("y", Datum::Enum(2))]);
    assert_eq!(
        multi.effects[0].mutators,
        vec![Mutator::set("x", Datum::I64(1)), Mutator::set("y", Datum::Enum(2))]
    );
    let effect = Effect::new("e").with_mutator(Mutator::decrement("n", Datum::I64(1)));
    assert_eq!(effect.cost, 1);
    assert_eq!(effect.mutators, vec![Mutator::decrement("n", Datum::I64(1))]);
}
