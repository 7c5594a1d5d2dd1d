//! A goal-oriented action planner: symbolic world states, actions with
//! preconditions and effects, an A* search for the cheapest plan, and the
//! per-entity decisions that turn plans into dispatched actions.

pub mod action;
pub mod assoc;
pub mod compare;
pub mod datum;
pub mod effect;
pub mod execution;
pub mod format;
pub mod goal;
pub mod keys;
pub mod localstate;
pub mod mutator;
pub mod planner;
pub mod simple;
pub mod traits;

pub use action::Action;
pub use compare::{check_preconditions, compare_values, Compare};
pub use datum::Datum;
pub use effect::Effect;
pub use execution::{
    plan_for_goals, request_planning, Adoption, IsPlanning, Planner, Step, StepError,
};
pub use format::{format_mutators, format_plan};
pub use goal::Goal;
pub use localstate::LocalState;
pub use mutator::{apply_mutator, Mutator};
pub use planner::{
    get_effects_from_plan, make_plan, make_plan_with_strategy, Node, PlanningStrategy,
};
pub use simple::{
    simple_action, simple_decrement_action, simple_increment_action, simple_multi_mutate_action,
};
pub use traits::{EnumDatum, MutatorTrait, Precondition};
