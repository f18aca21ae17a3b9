//! The decomposition engine: recursively expands a compound task against a
//! property-store snapshot, producing a linear plan. `Select` commits to the
//! first viable child; `Sequence` requires every child, in order.

use vstd::prelude::*;

use crate::condition::Condition;
use crate::condition::ConditionModel;
use crate::condition::condition_eval;
use crate::effect::Effect;
use crate::effect::EffectModel;
use crate::effect::effect_apply;
use crate::mtr::Mtr;
use crate::plan::Plan;
use crate::plan::PlanModel;
use crate::plan::PlannedOperator;
use crate::plan::PlannedOperatorModel;
use crate::plan::clone_conditions;
use crate::plan::conds_view;
use crate::plan::effects_view;
use crate::props::Props;
use crate::task::CompoundKind;
use crate::task::TaskKind;
use crate::task::Tree;
use crate::task::TreeModel;
use crate::value::ValueModel;

verus! {

/// What the decomposition engine is asked to expand: a compound task of a
/// behavior tree, against a snapshot of the owning agent's world state, a
/// plan built so far, the traversal record of the previous plan, and the
/// conditions inherited from the path above.
pub struct DecomposeInput {
    /// The behavior root this decomposition was requested for.
    pub root: usize,
    /// The compound task to expand.
    pub compound_task: usize,
    /// The snapshot the expansion reads and speculatively mutates.
    pub world_state: Props,
    /// The plan built so far; the expansion appends to it.
    pub plan: Plan,
    /// The traversal record of the plan currently running, if any.
    pub previous_mtr: Mtr,
    /// Conditions hoisted from the path above, to guard the first step added.
    pub conditions: Vec<Condition>,
}

/// The outcome of a decomposition.
pub enum DecomposeResult {
    /// A non-empty extension of the incoming plan was produced; `world_state`
    /// is the snapshot after all traversed effects were applied.
    Success { plan: Plan, world_state: Props },
    /// Decomposition was deliberately abandoned; propagates immediately to
    /// the top of the recursion without trying sibling branches.
    Rejection,
    /// No viable decomposition exists under the current snapshot.
    Failure,
}

/// The mathematical model of a [`DecomposeResult`].
pub enum DecomposeResultModel {
    Success { plan: PlanModel, world_state: Map<Seq<char>, ValueModel> },
    Rejection,
    Failure,
}

impl View for DecomposeResult {
    type V = DecomposeResultModel;

    open spec fn view(&self) -> DecomposeResultModel {
        match self {
            DecomposeResult::Success { plan, world_state } => DecomposeResultModel::Success {
                plan: plan@,
                world_state: world_state@,
            },
            DecomposeResult::Rejection => DecomposeResultModel::Rejection,
            DecomposeResult::Failure => DecomposeResultModel::Failure,
        }
    }
}

/// The models of the conditions attached to node `c`, in attachment order.
pub open spec fn conds_of(t: TreeModel, c: int) -> Seq<ConditionModel> {
    Seq::new(
        t.nodes[c].conditions.len(),
        |j: int|
            if t.nodes[c].conditions[j] < t.conditions.len() {
                t.conditions[t.nodes[c].conditions[j] as int]
            } else {
                ConditionModel::AlwaysTrue
            },
    )
}

/// The models of the effects attached to node `c`, in attachment order.
pub open spec fn effects_of(t: TreeModel, c: int) -> Seq<EffectModel> {
    Seq::new(
        t.nodes[c].effects.len(),
        |j: int|
            if t.nodes[c].effects[j] < t.effects.len() {
                t.effects[t.nodes[c].effects[j] as int]
            } else {
                EffectModel { kind: crate::effect::EffectKindModel::Noop, plan_only: false }
            },
    )
}

/// Evaluating conditions in order against a running snapshot, stopping at the
/// first that fails: the verdict, and the snapshot including every default
/// the evaluated conditions materialized.
pub open spec fn eval_conds_from(
    cs: Seq<ConditionModel>,
    j: int,
    m: Map<Seq<char>, ValueModel>,
) -> (bool, Map<Seq<char>, ValueModel>)
    decreases cs.len() - j,
{
    if j < 0 || j >= cs.len() {
        (true, m)
    } else {
        let step = condition_eval(cs[j], m);
        if !step.0 {
            (false, step.1)
        } else {
            eval_conds_from(cs, j + 1, step.1)
        }
    }
}

/// Applying effects in order to a running snapshot.
pub open spec fn apply_effects_from(
    es: Seq<EffectModel>,
    j: int,
    m: Map<Seq<char>, ValueModel>,
) -> Map<Seq<char>, ValueModel>
    decreases es.len() - j,
{
    if j < 0 || j >= es.len() {
        m
    } else {
        apply_effects_from(es, j + 1, effect_apply(es[j].kind, m))
    }
}

/// The plan with `effs` appended to the effects of its last step; a plan
/// without steps is left unchanged.
pub open spec fn extend_last_effects(p: PlanModel, effs: Seq<EffectModel>) -> PlanModel {
    if p.operators.len() == 0 {
        p
    } else {
        let last = p.operators.len() - 1;
        PlanModel {
            operators: p.operators.update(
                last,
                PlannedOperatorModel {
                    effects: p.operators[last].effects + effs,
                    ..p.operators[last]
                },
            ),
            mtr: p.mtr,
            full_entities: p.full_entities,
        }
    }
}

/// Decomposing compound task `node`: dispatches on the node's policy. A node
/// out of range, or one that is no compound task, yields `Failure`.
pub open spec fn spec_decompose(
    t: TreeModel,
    node: int,
    m: Map<Seq<char>, ValueModel>,
    plan: PlanModel,
    inherited: Seq<ConditionModel>,
) -> DecomposeResultModel
    decreases t.nodes.len() - node, 2int, 0int,
{
    if 0 <= node < t.nodes.len() {
        match t.nodes[node].kind {
            TaskKind::Compound(CompoundKind::Select) => spec_select_from(
                t,
                node,
                0,
                m,
                plan,
                inherited,
            ),
            TaskKind::Compound(CompoundKind::Sequence) => spec_sequence_from(
                t,
                node,
                0,
                m,
                plan,
                inherited,
                false,
            ),
            TaskKind::Operator(_) => DecomposeResultModel::Failure,
        }
    } else {
        DecomposeResultModel::Failure
    }
}

/// `Select` semantics from child `i` on: try children in declared order and
/// commit to the first whose conditions hold and whose subtree decomposes
/// successfully, appending the index of the chosen branch to the traversal
/// record. Defaults materialized while evaluating a skipped child's
/// conditions stay in the snapshot; a failed subtree's speculative state is
/// discarded.
pub open spec fn spec_select_from(
    t: TreeModel,
    node: int,
    i: int,
    m: Map<Seq<char>, ValueModel>,
    plan: PlanModel,
    inherited: Seq<ConditionModel>,
) -> DecomposeResultModel
    decreases t.nodes.len() - node, 1int, t.nodes[node].tasks.len() - i,
{
    if !(0 <= node < t.nodes.len()) || !(0 <= i) || i >= t.nodes[node].tasks.len() {
        DecomposeResultModel::Failure
    } else {
        let c = t.nodes[node].tasks[i] as int;
        if !(node < c < t.nodes.len()) {
            DecomposeResultModel::Failure
        } else {
            let guard = eval_conds_from(conds_of(t, c), 0, m);
            if !guard.0 {
                spec_select_from(t, node, i + 1, guard.1, plan, inherited)
            } else {
                let step_conds = inherited + conds_of(t, c);
                match t.nodes[c].kind {
                    TaskKind::Operator(op) => {
                        let step = PlannedOperatorModel {
                            system: op,
                            entity: t.nodes[node].tasks[i],
                            effects: effects_of(t, c),
                            conditions: step_conds,
                        };
                        DecomposeResultModel::Success {
                            plan: PlanModel {
                                operators: plan.operators.push(step),
                                mtr: plan.mtr.push(i as u16),
                                full_entities: plan.full_entities,
                            },
                            world_state: apply_effects_from(effects_of(t, c), 0, guard.1),
                        }
                    },
                    TaskKind::Compound(_) => {
                        let plan_in = PlanModel {
                            operators: plan.operators,
                            mtr: plan.mtr.push(i as u16),
                            full_entities: plan.full_entities,
                        };
                        match spec_decompose(t, c, guard.1, plan_in, step_conds) {
                            DecomposeResultModel::Success { plan: sub_plan, world_state: sub_m } => {
                                DecomposeResultModel::Success {
                                    plan: extend_last_effects(sub_plan, effects_of(t, c)),
                                    world_state: apply_effects_from(effects_of(t, c), 0, sub_m),
                                }
                            },
                            DecomposeResultModel::Failure => spec_select_from(
                                t,
                                node,
                                i + 1,
                                guard.1,
                                plan,
                                inherited,
                            ),
                            DecomposeResultModel::Rejection => DecomposeResultModel::Rejection,
                        }
                    },
                }
            }
        }
    }
}

/// `Sequence` semantics from child `i` on: every child's conditions are
/// checked against the running snapshot; any failure, or a child subtree
/// yielding nothing, aborts the whole sequence. Conditions inherited from the
/// path above guard only the first step added, so they apply as a
/// precondition of entering the whole sequence. Each completed child's
/// effects are applied to the running snapshot before the next child, and
/// recorded on the last step added so far.
pub open spec fn spec_sequence_from(
    t: TreeModel,
    node: int,
    i: int,
    m: Map<Seq<char>, ValueModel>,
    plan: PlanModel,
    inherited: Seq<ConditionModel>,
    found: bool,
) -> DecomposeResultModel
    decreases t.nodes.len() - node, 1int, t.nodes[node].tasks.len() - i,
{
    if !(0 <= node < t.nodes.len()) || !(0 <= i) {
        DecomposeResultModel::Failure
    } else if i >= t.nodes[node].tasks.len() {
        if found {
            DecomposeResultModel::Success { plan, world_state: m }
        } else {
            DecomposeResultModel::Failure
        }
    } else {
        let c = t.nodes[node].tasks[i] as int;
        if !(node < c < t.nodes.len()) {
            DecomposeResultModel::Failure
        } else {
            let guard = eval_conds_from(conds_of(t, c), 0, m);
            if !guard.0 {
                DecomposeResultModel::Failure
            } else {
                let step_conds = if !found {
                    inherited + conds_of(t, c)
                } else {
                    conds_of(t, c)
                };
                match t.nodes[c].kind {
                    TaskKind::Operator(op) => {
                        let step = PlannedOperatorModel {
                            system: op,
                            entity: t.nodes[node].tasks[i],
                            effects: Seq::empty(),
                            conditions: step_conds,
                        };
                        let plan_mid = PlanModel {
                            operators: plan.operators.push(step),
                            mtr: plan.mtr,
                            full_entities: plan.full_entities,
                        };
                        spec_sequence_from(
                            t,
                            node,
                            i + 1,
                            apply_effects_from(effects_of(t, c), 0, guard.1),
                            extend_last_effects(plan_mid, effects_of(t, c)),
                            inherited,
                            true,
                        )
                    },
                    TaskKind::Compound(_) => {
                        match spec_decompose(t, c, guard.1, plan, step_conds) {
                            DecomposeResultModel::Success { plan: sub_plan, world_state: sub_m } => {
                                if sub_plan.operators.len() == 0 {
                                    DecomposeResultModel::Failure
                                } else {
                                    spec_sequence_from(
                                        t,
                                        node,
                                        i + 1,
                                        apply_effects_from(effects_of(t, c), 0, sub_m),
                                        extend_last_effects(sub_plan, effects_of(t, c)),
                                        inherited,
                                        true,
                                    )
                                }
                            },
                            DecomposeResultModel::Rejection => DecomposeResultModel::Rejection,
                            DecomposeResultModel::Failure => DecomposeResultModel::Failure,
                        }
                    },
                }
            }
        }
    }
}

/// Decomposes compound task `input.compound_task` against the given snapshot,
/// per the node's policy: `Select` commits to the first viable child,
/// `Sequence` requires every child. The outcome, the produced plan and the
/// speculative world state are exactly those of [`spec_decompose`].
pub fn decompose(tree: &Tree, input: DecomposeInput) -> (r: DecomposeResult)
    requires
        tree.wf(),
        input.world_state.wf(),
    ensures
        r@ == spec_decompose(
            tree@,
            input.compound_task as int,
            input.world_state@,
            input.plan@,
            conds_view(input.conditions@),
        ),
        r matches DecomposeResult::Success { world_state, .. } ==> world_state.wf(),
    decreases tree@.nodes.len() - input.compound_task, 2int, 0int,
{
    let node = input.compound_task;
    if node >= tree.nodes.len() {
        return DecomposeResult::Failure;
    }
    match tree.nodes[node].kind {
        TaskKind::Compound(CompoundKind::Select) => select_from(
            tree,
            input.root,
            node,
            0,
            input.world_state,
            input.plan,
            &input.conditions,
            &input.previous_mtr,
        ),
        TaskKind::Compound(CompoundKind::Sequence) => sequence_from(
            tree,
            input.root,
            node,
            0,
            input.world_state,
            input.plan,
            &input.conditions,
            &input.previous_mtr,
            false,
        ),
        TaskKind::Operator(_) => DecomposeResult::Failure,
    }
}

/// The `Select` walk from child `i` on. See [`spec_select_from`].
fn select_from(
    tree: &Tree,
    root: usize,
    node: usize,
    i: usize,
    world_state: Props,
    plan: Plan,
    inherited: &Vec<Condition>,
    previous_mtr: &Mtr,
) -> (r: DecomposeResult)
    requires
        tree.wf(),
        node < tree@.nodes.len(),
        world_state.wf(),
    ensures
        r@ == spec_select_from(
            tree@,
            node as int,
            i as int,
            world_state@,
            plan@,
            conds_view(inherited@),
        ),
        r matches DecomposeResult::Success { world_state, .. } ==> world_state.wf(),
    decreases tree@.nodes.len() - node, 1int, tree@.nodes[node as int].tasks.len() - i,
{
    let ghost t = tree@;
    proof {
        assert(t.wf_node(node as int));
    }
    if i >= tree.nodes[node].tasks.0.len() {
        return DecomposeResult::Failure;
    }
    let c = tree.nodes[node].tasks.0[i];
    let mut ws = world_state;
    let fulfilled = eval_node_conditions(tree, c, &mut ws);
    if !fulfilled {
        return select_from(tree, root, node, i + 1, ws, plan, inherited, previous_mtr);
    }
    let step_conds = collect_step_conditions(tree, c, inherited);
    match tree.nodes[c].kind {
        TaskKind::Operator(op) => {
            let mut p = plan;
            let step = PlannedOperator {
                system: op,
                entity: c,
                effects: collect_node_effects(tree, c),
                conditions: step_conds,
            };
            let ghost step_model = step@;
            p.operators.push(step);
            p.mtr.0.push(i as u16);
            apply_node_effects(tree, c, &mut ws);
            proof {
                assert(p@.operators =~= plan@.operators.push(step_model));
            }
            DecomposeResult::Success { plan: p, world_state: ws }
        },
        TaskKind::Compound(_) => {
            let sub_ws = ws.clone();
            let mut sub_plan = plan.clone();
            sub_plan.mtr.0.push(i as u16);
            let sub_input = DecomposeInput {
                root,
                compound_task: c,
                world_state: sub_ws,
                plan: sub_plan,
                previous_mtr: previous_mtr.clone(),
                conditions: step_conds,
            };
            match decompose(tree, sub_input) {
                DecomposeResult::Success { plan: sub_p, world_state: sub_w } => {
                    let mut sub_p = sub_p;
                    let mut sub_w = sub_w;
                    apply_node_effects(tree, c, &mut sub_w);
                    let effs = collect_node_effects(tree, c);
                    plan_extend_last(&mut sub_p, &effs);
                    DecomposeResult::Success { plan: sub_p, world_state: sub_w }
                },
                DecomposeResult::Failure => select_from(
                    tree,
                    root,
                    node,
                    i + 1,
                    ws,
                    plan,
                    inherited,
                    previous_mtr,
                ),
                DecomposeResult::Rejection => DecomposeResult::Rejection,
            }
        },
    }
}

/// The `Sequence` walk from child `i` on. See [`spec_sequence_from`].
fn sequence_from(
    tree: &Tree,
    root: usize,
    node: usize,
    i: usize,
    world_state: Props,
    plan: Plan,
    inherited: &Vec<Condition>,
    previous_mtr: &Mtr,
    found: bool,
) -> (r: DecomposeResult)
    requires
        tree.wf(),
        node < tree@.nodes.len(),
        world_state.wf(),
    ensures
        r@ == spec_sequence_from(
            tree@,
            node as int,
            i as int,
            world_state@,
            plan@,
            conds_view(inherited@),
            found,
        ),
        r matches DecomposeResult::Success { world_state, .. } ==> world_state.wf(),
    decreases tree@.nodes.len() - node, 1int, tree@.nodes[node as int].tasks.len() - i,
{
    let ghost t = tree@;
    proof {
        assert(t.wf_node(node as int));
    }
    if i >= tree.nodes[node].tasks.0.len() {
        if found {
            return DecomposeResult::Success { plan, world_state };
        } else {
            return DecomposeResult::Failure;
        }
    }
    let c = tree.nodes[node].tasks.0[i];
    let mut ws = world_state;
    let fulfilled = eval_node_conditions(tree, c, &mut ws);
    if !fulfilled {
        return DecomposeResult::Failure;
    }
    let step_conds = if !found {
        collect_step_conditions(tree, c, inherited)
    } else {
        let no_inherited: Vec<Condition> = Vec::new();
        let r = collect_step_conditions(tree, c, &no_inherited);
        proof {
            assert(conds_view(no_inherited@) =~= Seq::<ConditionModel>::empty());
            assert(conds_view(no_inherited@) + conds_of(t, c as int) =~= conds_of(t, c as int));
        }
        r
    };
    match tree.nodes[c].kind {
        TaskKind::Operator(op) => {
            let mut p = plan;
            let step = PlannedOperator {
                system: op,
                entity: c,
                effects: Vec::new(),
                conditions: step_conds,
            };
            let ghost step_model = step@;
            let ghost plan_before = p@;
            p.operators.push(step);
            proof {
                assert(step_model.effects =~= Seq::<EffectModel>::empty());
                assert(p@.operators =~= plan_before.operators.push(step_model));
            }
            apply_node_effects(tree, c, &mut ws);
            let effs = collect_node_effects(tree, c);
            plan_extend_last(&mut p, &effs);
            sequence_from(tree, root, node, i + 1, ws, p, inherited, previous_mtr, true)
        },
        TaskKind::Compound(_) => {
            let sub_input = DecomposeInput {
                root,
                compound_task: c,
                world_state: ws,
                plan,
                previous_mtr: previous_mtr.clone(),
                conditions: step_conds,
            };
            match decompose(tree, sub_input) {
                DecomposeResult::Success { plan: sub_p, world_state: sub_w } => {
                    let mut sub_p = sub_p;
                    let mut sub_w = sub_w;
                    if sub_p.operators.len() == 0 {
                        return DecomposeResult::Failure;
                    }
                    apply_node_effects(tree, c, &mut sub_w);
                    let effs = collect_node_effects(tree, c);
                    plan_extend_last(&mut sub_p, &effs);
                    sequence_from(
                        tree,
                        root,
                        node,
                        i + 1,
                        sub_w,
                        sub_p,
                        inherited,
                        previous_mtr,
                        true,
                    )
                },
                DecomposeResult::Rejection => DecomposeResult::Rejection,
                DecomposeResult::Failure => DecomposeResult::Failure,
            }
        },
    }
}

/// Evaluates the conditions attached to node `c` against the running
/// snapshot, in attachment order, stopping at the first that fails.
pub(crate) fn eval_node_conditions(tree: &Tree, c: usize, props: &mut Props) -> (r: bool)
    requires
        tree.wf(),
        c < tree@.nodes.len(),
        old(props).wf(),
    ensures
        final(props).wf(),
        r == eval_conds_from(conds_of(tree@, c as int), 0, old(props)@).0,
        final(props)@ == eval_conds_from(conds_of(tree@, c as int), 0, old(props)@).1,
{
    let ghost t = tree@;
    let ghost cs = conds_of(t, c as int);
    proof {
        assert(t.wf_node(c as int));
    }
    let mut j: usize = 0;
    while j < tree.nodes[c].conditions.0.len()
        invariant
            tree.wf(),
            c < tree@.nodes.len(),
            t == tree@,
            cs == conds_of(t, c as int),
            j <= cs.len(),
            cs.len() == t.nodes[c as int].conditions.len(),
            props.wf(),
            eval_conds_from(cs, j as int, props@) == eval_conds_from(cs, 0, old(props)@),
        decreases cs.len() - j,
    {
        let idx = tree.nodes[c].conditions.0[j];
        proof {
            assert(t.wf_node(c as int));
            assert(t.nodes[c as int].conditions[j as int] < t.conditions.len());
            assert(tree.conditions@[idx as int]@ == t.conditions[idx as int]);
            assert(cs[j as int] == t.conditions[idx as int]);
        }
        let condition = &tree.conditions[idx];
        let fulfilled = condition.is_fullfilled(props);
        if !fulfilled {
            return false;
        }
        j = j + 1;
    }
    true
}

/// Applies the effects attached to node `c` to the running snapshot, in
/// attachment order.
fn apply_node_effects(tree: &Tree, c: usize, props: &mut Props)
    requires
        tree.wf(),
        c < tree@.nodes.len(),
        old(props).wf(),
    ensures
        final(props).wf(),
        final(props)@ == apply_effects_from(effects_of(tree@, c as int), 0, old(props)@),
{
    let ghost t = tree@;
    let ghost es = effects_of(t, c as int);
    proof {
        assert(t.wf_node(c as int));
    }
    let mut j: usize = 0;
    while j < tree.nodes[c].effects.0.len()
        invariant
            tree.wf(),
            c < tree@.nodes.len(),
            t == tree@,
            es == effects_of(t, c as int),
            j <= es.len(),
            es.len() == t.nodes[c as int].effects.len(),
            props.wf(),
            apply_effects_from(es, j as int, props@) == apply_effects_from(es, 0, old(props)@),
        decreases es.len() - j,
    {
        let idx = tree.nodes[c].effects.0[j];
        proof {
            assert(t.wf_node(c as int));
            assert(t.nodes[c as int].effects[j as int] < t.effects.len());
            assert(tree.effects@[idx as int]@ == t.effects[idx as int]);
            assert(es[j as int] == t.effects[idx as int]);
        }
        let effect = &tree.effects[idx];
        effect.apply(props);
        j = j + 1;
    }
}

/// The conditions guarding a step at node `c`: the conditions inherited from
/// the path above, followed by the node's own attached conditions.
fn collect_step_conditions(tree: &Tree, c: usize, inherited: &Vec<Condition>) -> (r: Vec<
    Condition,
>)
    requires
        tree.wf(),
        c < tree@.nodes.len(),
    ensures
        conds_view(r@) == conds_view(inherited@) + conds_of(tree@, c as int),
{
    let ghost t = tree@;
    let ghost cs = conds_of(t, c as int);
    proof {
        assert(t.wf_node(c as int));
    }
    let mut r = clone_conditions(inherited);
    proof {
        assert(conds_view(r@).len() == r@.len());
        assert(conds_view(inherited@).len() == inherited@.len());
        assert forall|k: int| 0 <= k < inherited@.len() implies r@[k]@ == inherited@[k]@ by {
            assert(conds_view(r@)[k] == r@[k]@);
            assert(conds_view(inherited@)[k] == inherited@[k]@);
        }
    }
    let mut j: usize = 0;
    while j < tree.nodes[c].conditions.0.len()
        invariant
            tree.wf(),
            c < tree@.nodes.len(),
            t == tree@,
            cs == conds_of(t, c as int),
            j <= cs.len(),
            cs.len() == t.nodes[c as int].conditions.len(),
            r@.len() == inherited@.len() + j,
            forall|k: int| 0 <= k < inherited@.len() ==> r@[k]@ == inherited@[k]@,
            forall|k: int| 0 <= k < j ==> r@[inherited@.len() + k]@ == cs[k],
        decreases cs.len() - j,
    {
        let idx = tree.nodes[c].conditions.0[j];
        proof {
            assert(t.wf_node(c as int));
            assert(t.nodes[c as int].conditions[j as int] < t.conditions.len());
            assert(tree.conditions@[idx as int]@ == t.conditions[idx as int]);
            assert(cs[j as int] == t.conditions[idx as int]);
        }
        r.push(tree.conditions[idx].clone());
        j = j + 1;
    }
    proof {
        assert(conds_view(r@) =~= conds_view(inherited@) + cs);
    }
    r
}

/// Copies of the effects attached to node `c`, in attachment order.
pub(crate) fn collect_node_effects(tree: &Tree, c: usize) -> (r: Vec<Effect>)
    requires
        tree.wf(),
        c < tree@.nodes.len(),
    ensures
        effects_view(r@) == effects_of(tree@, c as int),
{
    let ghost t = tree@;
    let ghost es = effects_of(t, c as int);
    proof {
        assert(t.wf_node(c as int));
    }
    let mut r: Vec<Effect> = Vec::new();
    let mut j: usize = 0;
    while j < tree.nodes[c].effects.0.len()
        invariant
            tree.wf(),
            c < tree@.nodes.len(),
            t == tree@,
            es == effects_of(t, c as int),
            j <= es.len(),
            es.len() == t.nodes[c as int].effects.len(),
            r@.len() == j,
            forall|k: int| 0 <= k < j ==> r@[k]@ == es[k],
        decreases es.len() - j,
    {
        let idx = tree.nodes[c].effects.0[j];
        proof {
            assert(t.wf_node(c as int));
            assert(t.nodes[c as int].effects[j as int] < t.effects.len());
            assert(tree.effects@[idx as int]@ == t.effects[idx as int]);
            assert(es[j as int] == t.effects[idx as int]);
        }
        r.push(tree.effects[idx].clone());
        j = j + 1;
    }
    proof {
        assert(effects_view(r@) =~= es);
    }
    r
}

/// Appends copies of `effs` to the effects of the plan's last step; a plan
/// without steps is left unchanged.
pub(crate) fn plan_extend_last(plan: &mut Plan, effs: &Vec<Effect>)
    ensures
        final(plan)@ == extend_last_effects(old(plan)@, effects_view(effs@)),
{
    if plan.operators.len() == 0 {
        return ;
    }
    let last = plan.operators.len() - 1;
    let mut step = plan.operators.remove(last);
    let ghost old_step = step@;
    let mut j: usize = 0;
    while j < effs.len()
        invariant
            j <= effs@.len(),
            step@.system == old_step.system,
            step@.entity == old_step.entity,
            step@.conditions == old_step.conditions,
            step@.effects.len() == old_step.effects.len() + j,
            forall|k: int| 0 <= k < old_step.effects.len() ==> step@.effects[k] == old_step.effects[k],
            forall|k: int|
                0 <= k < j ==> step@.effects[old_step.effects.len() + k] == effs@[k]@,
        decreases effs@.len() - j,
    {
        step.effects.push(effs[j].clone());
        proof {
            assert(effects_view(step.effects@) =~= effects_view(step.effects@.drop_last()).push(
                step.effects@.last()@,
            ));
        }
        j = j + 1;
    }
    proof {
        assert(step@.effects =~= old_step.effects + effects_view(effs@));
        assert(step@ == (PlannedOperatorModel {
            effects: old_step.effects + effects_view(effs@),
            ..old_step
        }));
    }
    plan.operators.push(step);
    proof {
        assert(final(plan)@.operators =~= extend_last_effects(
            old(plan)@,
            effects_view(effs@),
        ).operators);
    }
}

} // verus!
