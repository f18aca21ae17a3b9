use bae::condition::Condition;
use bae::decompose::{decompose, DecomposeInput, DecomposeResult};
use bae::execution::{check_head_conditions, complete_step, head_operator, needs_replan};
use bae::mtr::Mtr;
use bae::plan::Plan;
use bae::props::Props;
use bae::task::{CompoundKind, OperatorId, TaskKind, TaskStatus, Tree};
use bae::update::{update_plan, UpdateOutcome};
use bae::value::Value;

/// Runs a re-plan for `root` and installs the outcome, as a host would.
fn replan(tree: &Tree, root: usize, props: &Props, current: &mut Plan) {
    match update_plan(tree, root, props, current) {
        UpdateOutcome::Keep => {}
        UpdateOutcome::Replace(fresh) => *current = fresh,
        UpdateOutcome::NoTasks => *current = Plan::new(),
    }
}

/// The flat operator handles of a plan, for assertions.
fn plan_ops(plan: &Plan) -> Vec<u64> {
    plan.operators.iter().map(|op| op.system.0).collect()
}

#[test]
fn single_operator() {
    let tree = Tree::new(TaskKind::Operator(OperatorId(1)));
    let props = Props::new();
    let mut plan = Plan::new();
    replan(&tree, 0, &props, &mut plan);
    assert_eq!(plan_ops(&plan), vec![1]);
    assert_eq!(plan.full_entities, vec![0]);
    assert!(plan.mtr.0.is_empty());
}

#[test]
fn sequence_of_three_operators_in_order() {
    let mut tree = Tree::new(TaskKind::Compound(CompoundKind::Sequence));
    tree.attach_task(0, TaskKind::Operator(OperatorId(10)));
    tree.attach_task(0, TaskKind::Operator(OperatorId(11)));
    tree.attach_task(0, TaskKind::Operator(OperatorId(12)));
    let props = Props::new();
    let mut plan = Plan::new();
    replan(&tree, 0, &props, &mut plan);
    assert_eq!(plan_ops(&plan), vec![10, 11, 12]);
    assert_eq!(plan.full_entities, vec![1, 2, 3]);
    assert!(plan.mtr.0.is_empty());
}

#[test]
fn select_falls_through_false_guard() {
    let mut tree = Tree::new(TaskKind::Compound(CompoundKind::Select));
    let guarded = tree.attach_task(0, TaskKind::Operator(OperatorId(20)));
    tree.attach_condition(guarded, Condition::always_false());
    tree.attach_task(0, TaskKind::Operator(OperatorId(21)));
    let props = Props::new();
    let mut plan = Plan::new();
    replan(&tree, 0, &props, &mut plan);
    assert_eq!(plan_ops(&plan), vec![21]);
    assert_eq!(plan.mtr.0, vec![1]);
}

#[test]
fn select_commits_to_first_viable_child() {
    let mut tree = Tree::new(TaskKind::Compound(CompoundKind::Select));
    tree.attach_task(0, TaskKind::Operator(OperatorId(30)));
    tree.attach_task(0, TaskKind::Operator(OperatorId(31)));
    let props = Props::new();
    let mut plan = Plan::new();
    replan(&tree, 0, &props, &mut plan);
    assert_eq!(plan_ops(&plan), vec![30]);
    assert_eq!(plan.mtr.0, vec![0]);
}

#[test]
fn nested_select_records_each_decision() {
    let mut tree = Tree::new(TaskKind::Compound(CompoundKind::Select));
    let blocked = tree.attach_task(0, TaskKind::Operator(OperatorId(40)));
    tree.attach_condition(blocked, Condition::always_false());
    let inner = tree.attach_task(0, TaskKind::Compound(CompoundKind::Select));
    let inner_blocked = tree.attach_task(inner, TaskKind::Operator(OperatorId(41)));
    tree.attach_condition(inner_blocked, Condition::always_false());
    tree.attach_task(inner, TaskKind::Operator(OperatorId(42)));
    let props = Props::new();
    let mut plan = Plan::new();
    replan(&tree, 0, &props, &mut plan);
    assert_eq!(plan_ops(&plan), vec![42]);
    assert_eq!(plan.mtr.0, vec![1, 1]);
}

#[test]
fn replan_twice_without_mutation_keeps_the_plan() {
    let mut tree = Tree::new(TaskKind::Compound(CompoundKind::Sequence));
    tree.attach_task(0, TaskKind::Operator(OperatorId(50)));
    tree.attach_task(0, TaskKind::Operator(OperatorId(51)));
    let props = Props::new();
    let mut plan = Plan::new();
    replan(&tree, 0, &props, &mut plan);
    let first = plan_ops(&plan);
    let first_mtr = plan.mtr.0.clone();
    match update_plan(&tree, 0, &props, &plan) {
        UpdateOutcome::Keep => {}
        _ => panic!("a re-plan with unchanged properties must be discarded"),
    }
    assert_eq!(plan_ops(&plan), first);
    assert_eq!(plan.mtr.0, first_mtr);
}

#[test]
fn replan_after_mutation_replaces_the_plan() {
    let mut tree = Tree::new(TaskKind::Compound(CompoundKind::Select));
    let fight = tree.attach_task(0, TaskKind::Operator(OperatorId(60)));
    tree.attach_condition(fight, Condition::eq("enemy", Value::Bool(true)));
    tree.attach_task(0, TaskKind::Operator(OperatorId(61)));
    let mut props = Props::new();
    let mut plan = Plan::new();
    replan(&tree, 0, &props, &mut plan);
    assert_eq!(plan_ops(&plan), vec![61]);
    props.set("enemy", Value::Bool(true));
    match update_plan(&tree, 0, &props, &plan) {
        UpdateOutcome::Replace(fresh) => {
            assert_eq!(plan_ops(&fresh), vec![60]);
            assert_eq!(fresh.mtr.0, vec![0]);
        }
        _ => panic!("a meaningful change must replace the plan"),
    }
}

#[test]
fn single_operator_runs_to_success_and_requests_replan() {
    let tree = Tree::new(TaskKind::Operator(OperatorId(70)));
    let mut props = Props::new();
    let mut plan = Plan::new();
    replan(&tree, 0, &props, &mut plan);
    assert_eq!(plan_ops(&plan), vec![70]);
    let (op, _entity) = head_operator(&plan).expect("the plan has a head step");
    assert_eq!(op.0, 70);
    assert!(check_head_conditions(&plan, &mut props));
    complete_step(&mut plan, &mut props, TaskStatus::Success);
    assert!(plan.operators.is_empty());
    assert!(needs_replan(&plan));
}

#[test]
fn sequence_failure_clears_whole_plan() {
    let mut tree = Tree::new(TaskKind::Compound(CompoundKind::Sequence));
    tree.attach_task(0, TaskKind::Operator(OperatorId(80)));
    tree.attach_task(0, TaskKind::Operator(OperatorId(81)));
    tree.attach_task(0, TaskKind::Operator(OperatorId(82)));
    let mut props = Props::new();
    let mut plan = Plan::new();
    replan(&tree, 0, &props, &mut plan);
    assert_eq!(plan_ops(&plan), vec![80, 81, 82]);
    assert!(check_head_conditions(&plan, &mut props));
    complete_step(&mut plan, &mut props, TaskStatus::Success);
    assert_eq!(plan_ops(&plan), vec![81, 82]);
    assert!(check_head_conditions(&plan, &mut props));
    complete_step(&mut plan, &mut props, TaskStatus::Failure);
    assert_eq!(plan.operators.len(), 0);
    assert!(needs_replan(&plan));
}

#[test]
fn continue_leaves_the_head_in_place() {
    let tree = Tree::new(TaskKind::Operator(OperatorId(90)));
    let mut props = Props::new();
    let mut plan = Plan::new();
    replan(&tree, 0, &props, &mut plan);
    complete_step(&mut plan, &mut props, TaskStatus::Continue);
    assert_eq!(plan_ops(&plan), vec![90]);
}

#[test]
fn failed_head_condition_aborts_without_invoking() {
    let mut tree = Tree::new(TaskKind::Compound(CompoundKind::Sequence));
    let step = tree.attach_task(0, TaskKind::Operator(OperatorId(100)));
    tree.attach_condition(step, Condition::eq("armed", Value::Bool(true)));
    let mut props = Props::new();
    props.set("armed", Value::Bool(true));
    let mut plan = Plan::new();
    replan(&tree, 0, &props, &mut plan);
    assert_eq!(plan_ops(&plan), vec![100]);
    props.set("armed", Value::Bool(false));
    assert!(!check_head_conditions(&plan, &mut props));
    complete_step(&mut plan, &mut props, TaskStatus::Failure);
    assert!(needs_replan(&plan));
}

#[test]
fn empty_select_installs_empty_plan() {
    let tree = Tree::new(TaskKind::Compound(CompoundKind::Select));
    let props = Props::new();
    let mut plan = Plan::new();
    replan(&tree, 0, &props, &mut plan);
    assert_eq!(plan.operators.len(), 0);
}

#[test]
fn root_index_without_node_is_a_configuration_fault() {
    let tree = Tree::new(TaskKind::Operator(OperatorId(1)));
    let props = Props::new();
    let plan = Plan::new();
    match update_plan(&tree, 5, &props, &plan) {
        UpdateOutcome::NoTasks => {}
        _ => panic!("a root index naming no node must be reported"),
    }
}

#[test]
fn unfulfilled_root_condition_empties_plan() {
    let mut tree = Tree::new(TaskKind::Operator(OperatorId(1)));
    tree.attach_condition(0, Condition::always_false());
    let props = Props::new();
    let mut plan = Plan::new();
    replan(&tree, 0, &props, &mut plan);
    assert_eq!(plan.operators.len(), 0);
}

#[test]
fn planning_effects_feed_later_conditions() {
    // The first child's effect is visible to the second child's guard during
    // decomposition, though nothing was applied to the live store yet.
    let mut tree = Tree::new(TaskKind::Compound(CompoundKind::Sequence));
    let scout = tree.attach_task(0, TaskKind::Operator(OperatorId(110)));
    tree.attach_effect(scout, Effect::set("spotted", Value::Bool(true)).plan_only());
    let strike = tree.attach_task(0, TaskKind::Operator(OperatorId(111)));
    tree.attach_condition(strike, Condition::eq("spotted", Value::Bool(true)));
    let props = Props::new();
    let mut plan = Plan::new();
    replan(&tree, 0, &props, &mut plan);
    assert_eq!(plan_ops(&plan), vec![110, 111]);
    assert!(props.get("spotted").is_none());
}

use bae::effect::Effect;

#[test]
fn plan_only_effects_are_not_applied_on_success() {
    let mut tree = Tree::new(TaskKind::Compound(CompoundKind::Sequence));
    let step = tree.attach_task(0, TaskKind::Operator(OperatorId(120)));
    tree.attach_effect(step, Effect::set("spotted", Value::Bool(true)).plan_only());
    tree.attach_effect(step, Effect::set("moved", Value::Bool(true)));
    let mut props = Props::new();
    let mut plan = Plan::new();
    replan(&tree, 0, &props, &mut plan);
    assert!(check_head_conditions(&plan, &mut props));
    complete_step(&mut plan, &mut props, TaskStatus::Success);
    assert!(props.get("spotted").is_none());
    assert!(matches!(props.get("moved"), Some(Value::Bool(true))));
}

#[test]
fn decompose_failure_when_no_child_is_viable() {
    let mut tree = Tree::new(TaskKind::Compound(CompoundKind::Select));
    let only = tree.attach_task(0, TaskKind::Operator(OperatorId(130)));
    tree.attach_condition(only, Condition::always_false());
    let props = Props::new();
    let input = DecomposeInput {
        root: 0,
        compound_task: 0,
        world_state: props,
        plan: Plan::new(),
        previous_mtr: Mtr::none(),
        conditions: Vec::new(),
    };
    match decompose(&tree, input) {
        DecomposeResult::Failure => {}
        _ => panic!("a select with no viable child must fail"),
    }
}

#[test]
fn sequence_aborts_wholesale_on_a_failing_guard() {
    let mut tree = Tree::new(TaskKind::Compound(CompoundKind::Sequence));
    tree.attach_task(0, TaskKind::Operator(OperatorId(140)));
    let blocked = tree.attach_task(0, TaskKind::Operator(OperatorId(141)));
    tree.attach_condition(blocked, Condition::always_false());
    let props = Props::new();
    let mut plan = Plan::new();
    replan(&tree, 0, &props, &mut plan);
    assert_eq!(plan.operators.len(), 0);
}

#[test]
fn nested_sequences_yield_leaves_depth_first() {
    let mut tree = Tree::new(TaskKind::Compound(CompoundKind::Sequence));
    tree.attach_task(0, TaskKind::Operator(OperatorId(150)));
    let inner = tree.attach_task(0, TaskKind::Compound(CompoundKind::Sequence));
    tree.attach_task(inner, TaskKind::Operator(OperatorId(151)));
    tree.attach_task(inner, TaskKind::Operator(OperatorId(152)));
    tree.attach_task(0, TaskKind::Operator(OperatorId(153)));
    let props = Props::new();
    let mut plan = Plan::new();
    replan(&tree, 0, &props, &mut plan);
    assert_eq!(plan_ops(&plan), vec![150, 151, 152, 153]);
    assert!(plan.mtr.0.is_empty());
}
