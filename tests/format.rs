use dogoap::{format_mutators, format_plan, make_plan, Action, Compare, Datum, Goal, LocalState, Mutator};

#[test]
fn mutators_are_listed_one_per_line() {
    let text = format_mutators(vec![
        Mutator::set("a", Datum::I64(-12)),
        Mutator::increment("b", Datum::Enum(3)),
        Mutator::decrement("c", Datum::I64(0)),
        Mutator::set("d", Datum::Bool(true)),
        Mutator::set("e", Datum::I64(i64::MIN)),
    ]);
    assert_eq!(
        text,
        "\t\ta = -12\n\t\tb + 3\n\t\tc - 0\n\t\td = true\n\t\te = -9223372036854775808\n"
    );
    assert_eq!(format_mutators(vec![]), "");
}

#[test]
fn plan_text_shows_each_step_and_the_final_state() {
    let start = LocalState::new().with_datum("is_hungry", Datum::Bool(true));
    let goal = Goal::new().with_req("is_hungry", Compare::equals(Datum::Bool(false)));
    let eat = Action::new("eat").with_mutator(Mutator::set("is_hungry", Datum::Bool(false)));
    let plan = make_plan(&start, &[eat], &goal).unwrap();
    assert_eq!(
        format_plan(plan),
        "\t\t= INITIAL STATE\n\t\tis_hungry = true\n\n\t\t---\n\
         \t\t= DO ACTION \"eat\"\n\t\tMUTATES:\n\t\tis_hungry = false\n\n\t\t---\n\
         \t\t= FINAL STATE (COST: 1)\n\t\tis_hungry = false\n"
    );
}
