//! The library's stated laws: what a successful decomposition does to the
//! incoming plan, how `Sequence` and `Select` commit to their children, and
//! that re-planning without an intervening property-store mutation changes
//! nothing.

use vstd::prelude::*;

use crate::condition::ConditionModel;
use crate::decompose::DecomposeResultModel;
use crate::decompose::apply_effects_from;
use crate::decompose::conds_of;
use crate::decompose::effects_of;
use crate::decompose::eval_conds_from;
use crate::decompose::extend_last_effects;
use crate::decompose::spec_decompose;
use crate::decompose::spec_select_from;
use crate::decompose::spec_sequence_from;
use crate::mtr::mtr_eq;
use crate::plan::PlanModel;
use crate::plan::PlannedOperatorModel;
use crate::update::UpdateOutcomeModel;
use crate::update::finalize_plan;
use crate::update::plan_matches;
use crate::update::spec_update;
use crate::task::CompoundKind;
use crate::task::TaskKind;
use crate::task::TreeModel;
use crate::value::ValueModel;

verus! {

/// `after` is `before` with at least `min_growth` steps appended: the
/// existing steps stand unchanged, the traversal record is only ever
/// extended, and the recorded node list is untouched.
pub open spec fn plan_extends(before: PlanModel, after: PlanModel, min_growth: int) -> bool {
    &&& after.operators.len() >= before.operators.len() + min_growth
    &&& forall|k: int|
        0 <= k < before.operators.len() ==> #[trigger] after.operators[k] == before.operators[k]
    &&& after.mtr.len() >= before.mtr.len()
    &&& after.mtr.subrange(0, before.mtr.len() as int) == before.mtr
    &&& after.full_entities == before.full_entities
}

proof fn lemma_plan_extends_trans(a: PlanModel, b: PlanModel, c: PlanModel, x: int, y: int)
    requires
        0 <= x,
        0 <= y,
        plan_extends(a, b, x),
        plan_extends(b, c, y),
    ensures
        plan_extends(a, c, x + y),
{
    assert forall|k: int| 0 <= k < a.operators.len() implies #[trigger] c.operators[k]
        == a.operators[k] by {
        assert(b.operators[k] == a.operators[k]);
        assert(c.operators[k] == b.operators[k]);
    }
    assert(c.mtr.subrange(0, a.mtr.len() as int) =~= a.mtr) by {
        assert(c.mtr.subrange(0, b.mtr.len() as int) == b.mtr);
        assert(c.mtr.subrange(0, b.mtr.len() as int).subrange(0, a.mtr.len() as int)
            =~= c.mtr.subrange(0, a.mtr.len() as int));
    }
}

proof fn lemma_extend_last_extends(before: PlanModel, p: PlanModel, g: int, effs: Seq<
    crate::effect::EffectModel,
>)
    requires
        plan_extends(before, p, g),
        g >= 1,
    ensures
        plan_extends(before, extend_last_effects(p, effs), g),
        extend_last_effects(p, effs).operators.len() == p.operators.len(),
        extend_last_effects(p, effs).mtr == p.mtr,
{
}

/// A successful decomposition extends the incoming plan by at least one step,
/// leaves the steps and the traversal record it came in with unchanged
/// underneath what it appends, and never touches the recorded node list.
pub proof fn lemma_decompose_extends(
    t: TreeModel,
    node: int,
    m: Map<Seq<char>, ValueModel>,
    plan: PlanModel,
    inherited: Seq<ConditionModel>,
)
    ensures
        spec_decompose(t, node, m, plan, inherited) matches DecomposeResultModel::Success {
            plan: p,
            ..
        } ==> plan_extends(plan, p, 1) && p.mtr.len() >= plan.mtr.len(),
    decreases t.nodes.len() - node, 2int, 0int,
{
    if 0 <= node < t.nodes.len() {
        match t.nodes[node].kind {
            TaskKind::Compound(CompoundKind::Select) => {
                lemma_select_extends(t, node, 0, m, plan, inherited);
            },
            TaskKind::Compound(CompoundKind::Sequence) => {
                lemma_sequence_extends(t, node, 0, m, plan, inherited, false);
            },
            TaskKind::Operator(_) => {},
        }
    }
}

/// A successful `Select` walk extends the incoming plan by at least one step
/// and appends at least one entry (its own decision) to the traversal record.
pub proof fn lemma_select_extends(
    t: TreeModel,
    node: int,
    i: int,
    m: Map<Seq<char>, ValueModel>,
    plan: PlanModel,
    inherited: Seq<ConditionModel>,
)
    ensures
        spec_select_from(t, node, i, m, plan, inherited) matches DecomposeResultModel::Success {
            plan: p,
            ..
        } ==> plan_extends(plan, p, 1) && p.mtr.len() > plan.mtr.len(),
    decreases t.nodes.len() - node, 1int, t.nodes[node].tasks.len() - i,
{
    if !(0 <= node < t.nodes.len()) || !(0 <= i) || i >= t.nodes[node].tasks.len() {
    } else {
        let c = t.nodes[node].tasks[i] as int;
        if !(node < c < t.nodes.len()) {
        } else {
            let guard = eval_conds_from(conds_of(t, c), 0, m);
            if !guard.0 {
                lemma_select_extends(t, node, i + 1, guard.1, plan, inherited);
            } else {
                let step_conds = inherited + conds_of(t, c);
                match t.nodes[c].kind {
                    TaskKind::Operator(_) => {
                        let r = spec_select_from(t, node, i, m, plan, inherited);
                        if let DecomposeResultModel::Success { plan: p, .. } = r {
                            assert(p.mtr.subrange(0, plan.mtr.len() as int) =~= plan.mtr);
                        }
                    },
                    TaskKind::Compound(_) => {
                        let plan_in = PlanModel {
                            operators: plan.operators,
                            mtr: plan.mtr.push(i as u16),
                            full_entities: plan.full_entities,
                        };
                        assert(plan_extends(plan, plan_in, 0)) by {
                            assert(plan_in.mtr.subrange(0, plan.mtr.len() as int) =~= plan.mtr);
                        }
                        lemma_decompose_extends(t, c, guard.1, plan_in, step_conds);
                        match spec_decompose(t, c, guard.1, plan_in, step_conds) {
                            DecomposeResultModel::Success { plan: sub_plan, .. } => {
                                lemma_plan_extends_trans(plan, plan_in, sub_plan, 0, 1);
                                lemma_extend_last_extends(
                                    plan,
                                    sub_plan,
                                    1,
                                    effects_of(t, c),
                                );
                            },
                            DecomposeResultModel::Failure => {
                                lemma_select_extends(t, node, i + 1, guard.1, plan, inherited);
                            },
                            DecomposeResultModel::Rejection => {},
                        }
                    },
                }
            }
        }
    }
}

/// A successful `Sequence` walk extends the incoming plan by at least one
/// step (unless it had already placed one) and leaves the traversal record's
/// prefix unchanged: a `Sequence` records no decision of its own.
pub proof fn lemma_sequence_extends(
    t: TreeModel,
    node: int,
    i: int,
    m: Map<Seq<char>, ValueModel>,
    plan: PlanModel,
    inherited: Seq<ConditionModel>,
    found: bool,
)
    ensures
        spec_sequence_from(t, node, i, m, plan, inherited, found)
            matches DecomposeResultModel::Success { plan: p, .. } ==> plan_extends(
            plan,
            p,
            if found {
                0int
            } else {
                1int
            },
        ),
    decreases t.nodes.len() - node, 1int, t.nodes[node].tasks.len() - i,
{
    if !(0 <= node < t.nodes.len()) || !(0 <= i) {
    } else if i >= t.nodes[node].tasks.len() {
        if found {
            assert(plan.mtr.subrange(0, plan.mtr.len() as int) =~= plan.mtr);
        }
    } else {
        let c = t.nodes[node].tasks[i] as int;
        if !(node < c < t.nodes.len()) {
        } else {
            let guard = eval_conds_from(conds_of(t, c), 0, m);
            if guard.0 {
                let step_conds = if !found {
                    inherited + conds_of(t, c)
                } else {
                    conds_of(t, c)
                };
                match t.nodes[c].kind {
                    TaskKind::Operator(op) => {
                        let step = PlannedOperatorModel {
                            system: op,
                            entity: t.nodes[node].tasks[i],
                            effects: Seq::empty(),
                            conditions: step_conds,
                        };
                        let plan_mid = PlanModel {
                            operators: plan.operators.push(step),
                            mtr: plan.mtr,
                            full_entities: plan.full_entities,
                        };
                        assert(plan_extends(plan, plan_mid, 1)) by {
                            assert(plan_mid.mtr.subrange(0, plan.mtr.len() as int) =~= plan.mtr);
                        }
                        let plan_next = extend_last_effects(plan_mid, effects_of(t, c));
                        lemma_extend_last_extends(plan, plan_mid, 1, effects_of(t, c));
                        lemma_sequence_extends(
                            t,
                            node,
                            i + 1,
                            apply_effects_from(effects_of(t, c), 0, guard.1),
                            plan_next,
                            inherited,
                            true,
                        );
                        match spec_sequence_from(
                            t,
                            node,
                            i + 1,
                            apply_effects_from(effects_of(t, c), 0, guard.1),
                            plan_next,
                            inherited,
                            true,
                        ) {
                            DecomposeResultModel::Success { plan: p, .. } => {
                                lemma_plan_extends_trans(plan, plan_next, p, 1, 0);
                            },
                            _ => {},
                        }
                    },
                    TaskKind::Compound(_) => {
                        lemma_decompose_extends(t, c, guard.1, plan, step_conds);
                        match spec_decompose(t, c, guard.1, plan, step_conds) {
                            DecomposeResultModel::Success { plan: sub_plan, world_state: sub_m } => {
                                if sub_plan.operators.len() > 0 {
                                    let plan_next = extend_last_effects(
                                        sub_plan,
                                        effects_of(t, c),
                                    );
                                    lemma_extend_last_extends(
                                        plan,
                                        sub_plan,
                                        1,
                                        effects_of(t, c),
                                    );
                                    lemma_sequence_extends(
                                        t,
                                        node,
                                        i + 1,
                                        apply_effects_from(effects_of(t, c), 0, sub_m),
                                        plan_next,
                                        inherited,
                                        true,
                                    );
                                    match spec_sequence_from(
                                        t,
                                        node,
                                        i + 1,
                                        apply_effects_from(effects_of(t, c), 0, sub_m),
                                        plan_next,
                                        inherited,
                                        true,
                                    ) {
                                        DecomposeResultModel::Success { plan: p, .. } => {
                                            lemma_plan_extends_trans(plan, plan_next, p, 1, 0);
                                        },
                                        _ => {},
                                    }
                                }
                            },
                            _ => {},
                        }
                    },
                }
            }
        }
    }
}

/// Every child of `node` from `i` on is an operator whose conditions hold
/// against the snapshot as it stands when that child is reached (each
/// completed child's effects, and every default its conditions materialize,
/// feed the next child's check).
pub open spec fn sequence_children_viable(
    t: TreeModel,
    node: int,
    i: int,
    m: Map<Seq<char>, ValueModel>,
) -> bool
    decreases t.nodes[node].tasks.len() - i,
{
    if !(0 <= node < t.nodes.len()) || i < 0 {
        false
    } else if i >= t.nodes[node].tasks.len() {
        true
    } else {
        let c = t.nodes[node].tasks[i] as int;
        &&& node < c < t.nodes.len()
        &&& t.nodes[c].kind matches TaskKind::Operator(_)
        &&& eval_conds_from(conds_of(t, c), 0, m).0
        &&& sequence_children_viable(
            t,
            node,
            i + 1,
            apply_effects_from(effects_of(t, c), 0, eval_conds_from(conds_of(t, c), 0, m).1),
        )
    }
}

/// Decomposing a `Sequence` whose every child is an operator whose conditions
/// hold along the running snapshot succeeds, and the plan it yields is the
/// incoming plan extended by exactly one entry per child, in declared order:
/// entry `k - i` runs the operator of child `k` and records that child as its
/// originating node. The traversal record is untouched: a `Sequence` takes no
/// decision.
pub proof fn lemma_sequence_of_operators(
    t: TreeModel,
    node: int,
    i: int,
    m: Map<Seq<char>, ValueModel>,
    plan: PlanModel,
    inherited: Seq<ConditionModel>,
    found: bool,
)
    requires
        0 <= node < t.nodes.len(),
        0 <= i <= t.nodes[node].tasks.len(),
        sequence_children_viable(t, node, i, m),
        found || i < t.nodes[node].tasks.len(),
    ensures
        spec_sequence_from(t, node, i, m, plan, inherited, found)
            matches DecomposeResultModel::Success { plan: p, .. } && {
            let n = t.nodes[node].tasks.len() as int;
            &&& p.operators.len() == plan.operators.len() + (n - i)
            &&& (forall|k: int|
                0 <= k < plan.operators.len() ==> #[trigger] p.operators[k] == plan.operators[k])
            &&& (forall|k: int|
                i <= k < n ==> {
                    let c = t.nodes[node].tasks[k] as int;
                    &&& #[trigger] p.operators[plan.operators.len() + (k - i)].entity
                        == t.nodes[node].tasks[k]
                    &&& t.nodes[c].kind == TaskKind::Operator(
                        p.operators[plan.operators.len() + (k - i)].system,
                    )
                })
            &&& p.mtr == plan.mtr
            &&& p.full_entities == plan.full_entities
        },
    decreases t.nodes[node].tasks.len() - i,
{
    let n = t.nodes[node].tasks.len() as int;
    if i >= n {
        assert(spec_sequence_from(t, node, i, m, plan, inherited, found)
            == DecomposeResultModel::Success { plan, world_state: m });
    } else {
        let c = t.nodes[node].tasks[i] as int;
        let guard = eval_conds_from(conds_of(t, c), 0, m);
        let op = t.nodes[c].kind->Operator_0;
        let step_conds = if !found {
            inherited + conds_of(t, c)
        } else {
            conds_of(t, c)
        };
        let step = PlannedOperatorModel {
            system: op,
            entity: t.nodes[node].tasks[i],
            effects: Seq::empty(),
            conditions: step_conds,
        };
        let plan_mid = PlanModel {
            operators: plan.operators.push(step),
            mtr: plan.mtr,
            full_entities: plan.full_entities,
        };
        let plan_next = extend_last_effects(plan_mid, effects_of(t, c));
        let m_next = apply_effects_from(effects_of(t, c), 0, guard.1);
        lemma_sequence_of_operators(t, node, i + 1, m_next, plan_next, inherited, true);
        let r = spec_sequence_from(t, node, i + 1, m_next, plan_next, inherited, true);
        assert(spec_sequence_from(t, node, i, m, plan, inherited, found) == r);
        if let DecomposeResultModel::Success { plan: p, .. } = r {
            assert(plan_next.operators.len() == plan.operators.len() + 1);
            assert(plan_next.operators[plan.operators.len() as int].entity == t.nodes[
                node
            ].tasks[i]);
            assert(plan_next.operators[plan.operators.len() as int].system == op);
            assert forall|k: int| 0 <= k < plan.operators.len() implies #[trigger] p.operators[k]
                == plan.operators[k] by {
                assert(p.operators[k] == plan_next.operators[k]);
                assert(plan_next.operators[k] == plan_mid.operators[k]);
            }
            assert forall|k: int| i <= k < n implies {
                let ck = t.nodes[node].tasks[k] as int;
                &&& #[trigger] p.operators[plan.operators.len() + (k - i)].entity == t.nodes[
                    node
                ].tasks[k]
                &&& t.nodes[ck].kind == TaskKind::Operator(
                    p.operators[plan.operators.len() + (k - i)].system,
                )
            } by {
                if k == i {
                    assert(p.operators[plan.operators.len() as int] == plan_next.operators[
                        plan.operators.len() as int
                    ]);
                } else {
                    assert(p.operators[plan_next.operators.len() + (k - (i + 1))].entity
                        == t.nodes[node].tasks[k]);
                }
            }
        }
    }
}

/// Decomposing a `Sequence` node whose every child is an operator whose
/// conditions hold along the running snapshot succeeds and yields the
/// incoming plan extended by exactly one entry per child, in declared order.
/// See [`lemma_sequence_of_operators`] for the per-entry statement.
pub proof fn lemma_decompose_sequence_of_operators(
    t: TreeModel,
    node: int,
    m: Map<Seq<char>, ValueModel>,
    plan: PlanModel,
    inherited: Seq<ConditionModel>,
)
    requires
        0 <= node < t.nodes.len(),
        t.nodes[node].kind == TaskKind::Compound(CompoundKind::Sequence),
        t.nodes[node].tasks.len() > 0,
        sequence_children_viable(t, node, 0, m),
    ensures
        spec_decompose(t, node, m, plan, inherited) matches DecomposeResultModel::Success {
            plan: p,
            ..
        } && {
            let n = t.nodes[node].tasks.len() as int;
            &&& p.operators.len() == plan.operators.len() + n
            &&& (forall|k: int|
                0 <= k < plan.operators.len() ==> #[trigger] p.operators[k] == plan.operators[k])
            &&& (forall|k: int|
                0 <= k < n ==> {
                    let c = t.nodes[node].tasks[k] as int;
                    &&& #[trigger] p.operators[plan.operators.len() + k].entity == t.nodes[
                        node
                    ].tasks[k]
                    &&& t.nodes[c].kind == TaskKind::Operator(
                        p.operators[plan.operators.len() + k].system,
                    )
                })
            &&& p.mtr == plan.mtr
            &&& p.full_entities == plan.full_entities
        },
{
    lemma_sequence_of_operators(t, node, 0, m, plan, inherited, false);
    let n = t.nodes[node].tasks.len() as int;
    let r = spec_sequence_from(t, node, 0, m, plan, inherited, false);
    if let DecomposeResultModel::Success { plan: p, .. } = r {
        assert forall|k: int| 0 <= k < n implies {
            let c = t.nodes[node].tasks[k] as int;
            &&& #[trigger] p.operators[plan.operators.len() + k].entity == t.nodes[node].tasks[k]
            &&& t.nodes[c].kind == TaskKind::Operator(
                p.operators[plan.operators.len() + k].system,
            )
        } by {
            assert(p.operators[plan.operators.len() + (k - 0)].entity == t.nodes[node].tasks[k]);
            assert(t.nodes[t.nodes[node].tasks[k] as int].kind == TaskKind::Operator(
                p.operators[plan.operators.len() + (k - 0)].system,
            ));
        }
    }
}

/// One step of the `Select` walk that skips an unviable child: when child
/// `i`'s own conditions fail against the incoming snapshot, or the child is a
/// compound task whose decomposition fails, the walk's outcome is that of the
/// remaining children, starting from the snapshot holding whatever defaults
/// the failed check materialized. No step and no traversal entry is recorded
/// for a skipped child.
pub proof fn lemma_select_skips_unviable(
    t: TreeModel,
    node: int,
    i: int,
    m: Map<Seq<char>, ValueModel>,
    plan: PlanModel,
    inherited: Seq<ConditionModel>,
)
    requires
        0 <= node < t.nodes.len(),
        0 <= i < t.nodes[node].tasks.len(),
        node < t.nodes[node].tasks[i] < t.nodes.len(),
        ({
            let c = t.nodes[node].tasks[i] as int;
            let guard = eval_conds_from(conds_of(t, c), 0, m);
            ||| !guard.0
            ||| (t.nodes[c].kind matches TaskKind::Compound(_) && spec_decompose(
                t,
                c,
                guard.1,
                PlanModel {
                    operators: plan.operators,
                    mtr: plan.mtr.push(i as u16),
                    full_entities: plan.full_entities,
                },
                inherited + conds_of(t, c),
            ) == DecomposeResultModel::Failure)
        }),
    ensures
        spec_select_from(t, node, i, m, plan, inherited) == spec_select_from(
            t,
            node,
            i + 1,
            eval_conds_from(conds_of(t, t.nodes[node].tasks[i] as int), 0, m).1,
            plan,
            inherited,
        ),
{
}

/// The first viable child of a `Select` wins: when child `i`'s conditions
/// hold and its subtree decomposes successfully, the walk starting at `i`
/// succeeds with exactly that child's decomposition — later siblings are
/// never consulted — and the index `i` of the chosen branch is what the walk
/// appends to the incoming traversal record, at position `plan.mtr.len()`.
pub proof fn lemma_select_commits_to_first(
    t: TreeModel,
    node: int,
    i: int,
    m: Map<Seq<char>, ValueModel>,
    plan: PlanModel,
    inherited: Seq<ConditionModel>,
)
    requires
        0 <= node < t.nodes.len(),
        0 <= i < t.nodes[node].tasks.len(),
        node < t.nodes[node].tasks[i] < t.nodes.len(),
        ({
            let c = t.nodes[node].tasks[i] as int;
            let guard = eval_conds_from(conds_of(t, c), 0, m);
            &&& guard.0
            &&& match t.nodes[c].kind {
                TaskKind::Operator(_) => true,
                TaskKind::Compound(_) => spec_decompose(
                    t,
                    c,
                    guard.1,
                    PlanModel {
                        operators: plan.operators,
                        mtr: plan.mtr.push(i as u16),
                        full_entities: plan.full_entities,
                    },
                    inherited + conds_of(t, c),
                ) matches DecomposeResultModel::Success { .. },
            }
        }),
    ensures
        spec_select_from(t, node, i, m, plan, inherited) matches DecomposeResultModel::Success {
            plan: p,
            ..
        } && p.mtr.len() > plan.mtr.len() && p.mtr[plan.mtr.len() as int] == i as u16
            && p.mtr.subrange(0, plan.mtr.len() as int) == plan.mtr,
        ({
            let c = t.nodes[node].tasks[i] as int;
            let guard = eval_conds_from(conds_of(t, c), 0, m);
            match t.nodes[c].kind {
                TaskKind::Operator(op) => spec_select_from(t, node, i, m, plan, inherited)
                    == DecomposeResultModel::Success {
                    plan: PlanModel {
                        operators: plan.operators.push(
                            PlannedOperatorModel {
                                system: op,
                                entity: t.nodes[node].tasks[i],
                                effects: effects_of(t, c),
                                conditions: inherited + conds_of(t, c),
                            },
                        ),
                        mtr: plan.mtr.push(i as u16),
                        full_entities: plan.full_entities,
                    },
                    world_state: apply_effects_from(effects_of(t, c), 0, guard.1),
                },
                TaskKind::Compound(_) => {
                    let sub = spec_decompose(
                        t,
                        c,
                        guard.1,
                        PlanModel {
                            operators: plan.operators,
                            mtr: plan.mtr.push(i as u16),
                            full_entities: plan.full_entities,
                        },
                        inherited + conds_of(t, c),
                    );
                    sub matches DecomposeResultModel::Success { plan: sub_plan, world_state: sub_m }
                        && spec_select_from(t, node, i, m, plan, inherited)
                        == DecomposeResultModel::Success {
                        plan: extend_last_effects(sub_plan, effects_of(t, c)),
                        world_state: apply_effects_from(effects_of(t, c), 0, sub_m),
                    }
                },
            }
        }),
{
    let c = t.nodes[node].tasks[i] as int;
    let guard = eval_conds_from(conds_of(t, c), 0, m);
    let plan_in = PlanModel {
        operators: plan.operators,
        mtr: plan.mtr.push(i as u16),
        full_entities: plan.full_entities,
    };
    match t.nodes[c].kind {
        TaskKind::Operator(op) => {
            let r = spec_select_from(t, node, i, m, plan, inherited);
            if let DecomposeResultModel::Success { plan: p, .. } = r {
                assert(p.mtr == plan.mtr.push(i as u16));
                assert(p.mtr.subrange(0, plan.mtr.len() as int) =~= plan.mtr);
            }
        },
        TaskKind::Compound(_) => {
            lemma_decompose_extends(t, c, guard.1, plan_in, inherited + conds_of(t, c));
            if let DecomposeResultModel::Success { plan: sub_plan, .. } = spec_decompose(
                t,
                c,
                guard.1,
                plan_in,
                inherited + conds_of(t, c),
            ) {
                lemma_extend_last_extends(plan_in, sub_plan, 1, effects_of(t, c));
                let p = extend_last_effects(sub_plan, effects_of(t, c));
                assert(p.mtr.subrange(0, plan_in.mtr.len() as int) == plan_in.mtr);
                assert(p.mtr[plan.mtr.len() as int] == plan_in.mtr.subrange(
                    0,
                    plan_in.mtr.len() as int,
                )[plan.mtr.len() as int]);
                assert(p.mtr.subrange(0, plan.mtr.len() as int) =~= plan_in.mtr.subrange(
                    0,
                    plan_in.mtr.len() as int,
                ).subrange(0, plan.mtr.len() as int));
                assert(plan_in.mtr.subrange(0, plan.mtr.len() as int) =~= plan.mtr);
            }
        },
    }
}

/// The plan installed on a behavior root after a re-plan outcome is acted
/// on: a replacement is installed wholesale, a kept plan stands unchanged,
/// and a configuration fault leaves the plan empty.
pub open spec fn plan_after(o: UpdateOutcomeModel, current: PlanModel) -> PlanModel {
    match o {
        UpdateOutcomeModel::Keep => current,
        UpdateOutcomeModel::Replace(p) => p,
        UpdateOutcomeModel::NoTasks => PlanModel::empty(),
    }
}

/// Re-planning is idempotent: with no intervening property-store mutation, a
/// second re-plan reproduces the same traversal record and the same
/// flattened operator sequence, so the stability rule discards it and the
/// plan installed by the first re-plan stands untouched.
pub proof fn lemma_replan_idempotent(
    t: TreeModel,
    root: int,
    live: Map<Seq<char>, ValueModel>,
    current: PlanModel,
)
    ensures
        ({
            let installed = plan_after(spec_update(t, root, live, current), current);
            let again = plan_after(spec_update(t, root, live, installed), installed);
            again == installed
        }),
{
    if 0 <= root < t.nodes.len() {
        let guard = eval_conds_from(conds_of(t, root), 0, live);
        if guard.0 {
            match t.nodes[root].kind {
                TaskKind::Operator(_) => {},
                TaskKind::Compound(_) => {
                    match spec_decompose(t, root, guard.1, PlanModel::empty(), Seq::empty()) {
                        DecomposeResultModel::Success { plan: fresh, .. } => {
                            let installed = plan_after(spec_update(t, root, live, current), current);
                            if plan_matches(current, fresh) {
                                assert(installed == current);
                            } else {
                                let fin = finalize_plan(t, root, fresh);
                                assert(installed == fin);
                                let q = extend_last_effects(fresh, effects_of(t, root));
                                assert(q.operators.len() == fresh.operators.len());
                                assert forall|j: int|
                                    0 <= j < fresh.operators.len() implies fin.full_entities[j]
                                    == #[trigger] fresh.operators[j].entity by {
                                    assert(q.operators[j].entity == fresh.operators[j].entity);
                                }
                                assert(fin.mtr == fresh.mtr);
                                assert(mtr_eq(fin.mtr, fresh.mtr));
                                assert(plan_matches(fin, fresh));
                            }
                        },
                        DecomposeResultModel::Failure => {},
                        DecomposeResultModel::Rejection => {},
                    }
                },
            }
        }
    }
}

/// Child `c` of a walk of nested sequences is decomposed whole: its own
/// conditions hold against the incoming snapshot, it is an operator or a
/// non-empty `Sequence`, and recursively so for every node below it, each
/// reached against the snapshot as it stands at its turn.
pub open spec fn sequence_tree_viable(t: TreeModel, c: int, m: Map<Seq<char>, ValueModel>) -> bool
    decreases t.nodes.len() - c, 1int, 0int,
{
    if !(0 <= c < t.nodes.len()) {
        false
    } else {
        let guard = eval_conds_from(conds_of(t, c), 0, m);
        &&& guard.0
        &&& match t.nodes[c].kind {
            TaskKind::Operator(_) => true,
            TaskKind::Compound(CompoundKind::Sequence) => t.nodes[c].tasks.len() > 0
                && sequence_rest_viable(t, c, 0, guard.1),
            TaskKind::Compound(CompoundKind::Select) => false,
        }
    }
}

/// The snapshot after a parent's walk finishes child `c`, starting from the
/// snapshot before `c`'s conditions: the conditions' materialized defaults,
/// everything the subtree below `c` applied, and finally `c`'s own effects.
pub open spec fn sequence_tree_exit(t: TreeModel, c: int, m: Map<Seq<char>, ValueModel>) -> Map<
    Seq<char>,
    ValueModel,
>
    decreases t.nodes.len() - c, 1int, 1int,
{
    if !(0 <= c < t.nodes.len()) {
        m
    } else {
        let guard = eval_conds_from(conds_of(t, c), 0, m);
        let inner = match t.nodes[c].kind {
            TaskKind::Compound(CompoundKind::Sequence) => sequence_rest_exit(t, c, 0, guard.1),
            _ => guard.1,
        };
        apply_effects_from(effects_of(t, c), 0, inner)
    }
}

/// Whether every child of `p` from `i` on is decomposed whole, each against
/// the snapshot left by the one before it.
pub open spec fn sequence_rest_viable(
    t: TreeModel,
    p: int,
    i: int,
    m: Map<Seq<char>, ValueModel>,
) -> bool
    decreases t.nodes.len() - p, 0int, t.nodes[p].tasks.len() - i,
{
    if !(0 <= p < t.nodes.len()) || i < 0 {
        false
    } else if i >= t.nodes[p].tasks.len() {
        true
    } else {
        let c = t.nodes[p].tasks[i] as int;
        &&& p < c < t.nodes.len()
        &&& sequence_tree_viable(t, c, m)
        &&& sequence_rest_viable(t, p, i + 1, sequence_tree_exit(t, c, m))
    }
}

/// The snapshot after `p`'s walk finishes its children from `i` on.
pub open spec fn sequence_rest_exit(
    t: TreeModel,
    p: int,
    i: int,
    m: Map<Seq<char>, ValueModel>,
) -> Map<Seq<char>, ValueModel>
    decreases t.nodes.len() - p, 0int, t.nodes[p].tasks.len() - i + 1,
{
    if !(0 <= p < t.nodes.len()) || i < 0 || i >= t.nodes[p].tasks.len() {
        m
    } else {
        let c = t.nodes[p].tasks[i] as int;
        if !(p < c < t.nodes.len()) {
            m
        } else {
            sequence_rest_exit(t, p, i + 1, sequence_tree_exit(t, c, m))
        }
    }
}

/// The leaf operators reachable under node `c` of a walk of nested
/// sequences, in depth-first, declared (left-to-right) order.
pub open spec fn leaves_of(t: TreeModel, c: int) -> Seq<usize>
    decreases t.nodes.len() - c, 1int, 0int,
{
    if !(0 <= c < t.nodes.len()) {
        Seq::empty()
    } else {
        match t.nodes[c].kind {
            TaskKind::Operator(_) => seq![c as usize],
            TaskKind::Compound(CompoundKind::Sequence) => leaves_from(t, c, 0),
            TaskKind::Compound(CompoundKind::Select) => Seq::empty(),
        }
    }
}

/// The leaf operators reachable under children `i` on of node `p`, in
/// depth-first, declared order.
pub open spec fn leaves_from(t: TreeModel, p: int, i: int) -> Seq<usize>
    decreases t.nodes.len() - p, 0int, t.nodes[p].tasks.len() - i,
{
    if !(0 <= p < t.nodes.len()) || i < 0 || i >= t.nodes[p].tasks.len() {
        Seq::empty()
    } else {
        let c = t.nodes[p].tasks[i] as int;
        if !(p < c < t.nodes.len()) {
            Seq::empty()
        } else {
            leaves_of(t, c) + leaves_from(t, p, i + 1)
        }
    }
}

/// A child decomposed whole contributes at least one leaf operator.
pub proof fn lemma_viable_subtree_has_a_leaf(t: TreeModel, c: int, m: Map<Seq<char>, ValueModel>)
    requires
        sequence_tree_viable(t, c, m),
    ensures
        leaves_of(t, c).len() >= 1,
    decreases t.nodes.len() - c,
{
    match t.nodes[c].kind {
        TaskKind::Operator(_) => {},
        TaskKind::Compound(CompoundKind::Sequence) => {
            let guard = eval_conds_from(conds_of(t, c), 0, m);
            let first = t.nodes[c].tasks[0] as int;
            lemma_viable_subtree_has_a_leaf(t, first, guard.1);
            assert(leaves_from(t, c, 0) == leaves_of(t, first) + leaves_from(t, c, 1));
        },
        TaskKind::Compound(CompoundKind::Select) => {},
    }
}

/// Decomposing a `Sequence` node decomposed whole — every node below it an
/// operator or a non-empty `Sequence`, every attached condition holding at
/// its turn — succeeds, and the plan it yields is the incoming plan extended
/// by exactly one entry per reachable leaf operator, in depth-first declared
/// order: no leaf is skipped, duplicated, or reordered. The traversal record
/// is untouched (no `Select` decision is taken), and the resulting snapshot
/// is the walk's exit snapshot.
pub proof fn lemma_decompose_sequence_tree(
    t: TreeModel,
    c: int,
    m: Map<Seq<char>, ValueModel>,
    plan: PlanModel,
    inherited: Seq<ConditionModel>,
)
    requires
        0 <= c < t.nodes.len(),
        t.nodes[c].kind == TaskKind::Compound(CompoundKind::Sequence),
        t.nodes[c].tasks.len() > 0,
        sequence_rest_viable(t, c, 0, m),
    ensures
        spec_decompose(t, c, m, plan, inherited) matches DecomposeResultModel::Success {
            plan: q,
            world_state: w,
        } && {
            let ls = leaves_from(t, c, 0);
            &&& q.operators.len() == plan.operators.len() + ls.len()
            &&& (forall|k: int|
                0 <= k < plan.operators.len() ==> #[trigger] q.operators[k] == plan.operators[k])
            &&& (forall|k: int|
                0 <= k < ls.len() ==> #[trigger] q.operators[plan.operators.len() + k].entity
                    == ls[k] && t.nodes[ls[k] as int].kind == TaskKind::Operator(
                    q.operators[plan.operators.len() + k].system,
                ))
            &&& q.mtr == plan.mtr
            &&& q.full_entities == plan.full_entities
            &&& w == sequence_rest_exit(t, c, 0, m)
        },
    decreases t.nodes.len() - c, 1int, 0int,
{
    lemma_sequence_walk_yields_leaves(t, c, 0, m, plan, inherited, false);
}

/// The `Sequence` walk from child `i` on, over children decomposed whole:
/// it succeeds and appends exactly the reachable leaf operators from `i` on,
/// in depth-first declared order.
pub proof fn lemma_sequence_walk_yields_leaves(
    t: TreeModel,
    p: int,
    i: int,
    m: Map<Seq<char>, ValueModel>,
    plan: PlanModel,
    inherited: Seq<ConditionModel>,
    found: bool,
)
    requires
        0 <= p < t.nodes.len(),
        0 <= i <= t.nodes[p].tasks.len(),
        sequence_rest_viable(t, p, i, m),
        found || i < t.nodes[p].tasks.len(),
    ensures
        spec_sequence_from(t, p, i, m, plan, inherited, found)
            matches DecomposeResultModel::Success { plan: q, world_state: w } && {
            let ls = leaves_from(t, p, i);
            &&& q.operators.len() == plan.operators.len() + ls.len()
            &&& (forall|k: int|
                0 <= k < plan.operators.len() ==> #[trigger] q.operators[k] == plan.operators[k])
            &&& (forall|k: int|
                0 <= k < ls.len() ==> #[trigger] q.operators[plan.operators.len() + k].entity
                    == ls[k] && t.nodes[ls[k] as int].kind == TaskKind::Operator(
                    q.operators[plan.operators.len() + k].system,
                ))
            &&& q.mtr == plan.mtr
            &&& q.full_entities == plan.full_entities
            &&& w == sequence_rest_exit(t, p, i, m)
        },
    decreases t.nodes.len() - p, 0int, t.nodes[p].tasks.len() - i,
{
    let n = t.nodes[p].tasks.len() as int;
    if i >= n {
        assert(leaves_from(t, p, i) =~= Seq::<usize>::empty());
        assert(spec_sequence_from(t, p, i, m, plan, inherited, found)
            == DecomposeResultModel::Success { plan, world_state: m });
    } else {
        let c = t.nodes[p].tasks[i] as int;
        assert(p < c < t.nodes.len() && sequence_tree_viable(t, c, m) && sequence_rest_viable(
            t,
            p,
            i + 1,
            sequence_tree_exit(t, c, m),
        ));
        let guard = eval_conds_from(conds_of(t, c), 0, m);
        assert(guard.0);
        let ls = leaves_from(t, p, i);
        let ls_child = leaves_of(t, c);
        let ls_rest = leaves_from(t, p, i + 1);
        assert(ls == ls_child + ls_rest);
        let m_next = sequence_tree_exit(t, c, m);
        match t.nodes[c].kind {
            TaskKind::Operator(op) => {
                assert(ls_child =~= seq![t.nodes[p].tasks[i]]);
                let step_conds = if !found {
                    inherited + conds_of(t, c)
                } else {
                    conds_of(t, c)
                };
                let step = PlannedOperatorModel {
                    system: op,
                    entity: t.nodes[p].tasks[i],
                    effects: Seq::empty(),
                    conditions: step_conds,
                };
                let plan_mid = PlanModel {
                    operators: plan.operators.push(step),
                    mtr: plan.mtr,
                    full_entities: plan.full_entities,
                };
                let plan_next = extend_last_effects(plan_mid, effects_of(t, c));
                assert(m_next == apply_effects_from(effects_of(t, c), 0, guard.1));
                lemma_sequence_walk_yields_leaves(t, p, i + 1, m_next, plan_next, inherited, true);
                let r = spec_sequence_from(t, p, i + 1, m_next, plan_next, inherited, true);
                assert(spec_sequence_from(t, p, i, m, plan, inherited, found) == r);
                if let DecomposeResultModel::Success { plan: q, .. } = r {
                    assert(plan_next.operators.len() == plan.operators.len() + 1);
                    assert(plan_next.operators[plan.operators.len() as int].entity == t.nodes[
                        p
                    ].tasks[i]);
                    assert(plan_next.operators[plan.operators.len() as int].system == op);
                    assert forall|k: int|
                        0 <= k < plan.operators.len() implies #[trigger] q.operators[k]
                        == plan.operators[k] by {
                        assert(q.operators[k] == plan_next.operators[k]);
                        assert(plan_next.operators[k] == plan_mid.operators[k]);
                    }
                    assert forall|k: int| 0 <= k < ls.len() implies {
                        &&& #[trigger] q.operators[plan.operators.len() + k].entity == ls[k]
                        &&& t.nodes[ls[k] as int].kind == TaskKind::Operator(
                            q.operators[plan.operators.len() + k].system,
                        )
                    } by {
                        if k == 0 {
                            assert(ls[0] == ls_child[0]);
                            assert(q.operators[plan.operators.len() as int]
                                == plan_next.operators[plan.operators.len() as int]);
                        } else {
                            assert(ls[k] == ls_rest[k - 1]);
                            assert(q.operators[plan_next.operators.len() + (k - 1)].entity
                                == ls_rest[k - 1]);
                            assert(t.nodes[ls_rest[k - 1] as int].kind == TaskKind::Operator(
                                q.operators[plan_next.operators.len() + (k - 1)].system,
                            ));
                            assert(plan_next.operators.len() + (k - 1) == plan.operators.len()
                                + k);
                        }
                    }
                }
            },
            TaskKind::Compound(CompoundKind::Sequence) => {
                let step_conds = if !found {
                    inherited + conds_of(t, c)
                } else {
                    conds_of(t, c)
                };
                lemma_decompose_sequence_tree(t, c, guard.1, plan, step_conds);
                if let DecomposeResultModel::Success { plan: sub_plan, world_state: sub_m } =
                    spec_decompose(t, c, guard.1, plan, step_conds) {
                    lemma_viable_subtree_has_a_leaf(t, c, m);
                    assert(leaves_from(t, c, 0) == ls_child);
                    assert(sub_plan.operators.len() >= plan.operators.len() + 1);
                    let plan_next = extend_last_effects(sub_plan, effects_of(t, c));
                    assert(sub_m == sequence_rest_exit(t, c, 0, guard.1));
                    assert(m_next == apply_effects_from(effects_of(t, c), 0, sub_m));
                    lemma_sequence_walk_yields_leaves(
                        t,
                        p,
                        i + 1,
                        m_next,
                        plan_next,
                        inherited,
                        true,
                    );
                    let r = spec_sequence_from(t, p, i + 1, m_next, plan_next, inherited, true);
                    assert(spec_sequence_from(t, p, i, m, plan, inherited, found) == r);
                    if let DecomposeResultModel::Success { plan: q, .. } = r {
                        let base = plan.operators.len() as int;
                        let last = plan_next.operators.len() - 1;
                        assert(plan_next.operators.len() == base + ls_child.len());
                        assert forall|k: int|
                            0 <= k < base implies #[trigger] q.operators[k] == plan.operators[k]
                        by {
                            assert(q.operators[k] == plan_next.operators[k]);
                            assert(plan_next.operators[k] == sub_plan.operators[k]);
                            assert(sub_plan.operators[k] == plan.operators[k]);
                        }
                        assert forall|k: int| 0 <= k < ls.len() implies {
                            &&& #[trigger] q.operators[base + k].entity == ls[k]
                            &&& t.nodes[ls[k] as int].kind == TaskKind::Operator(
                                q.operators[base + k].system,
                            )
                        } by {
                            if k < ls_child.len() {
                                assert(ls[k] == ls_child[k]);
                                assert(q.operators[base + k] == plan_next.operators[base + k]);
                                if base + k < last {
                                    assert(plan_next.operators[base + k]
                                        == sub_plan.operators[base + k]);
                                } else {
                                    assert(plan_next.operators[base + k].entity
                                        == sub_plan.operators[base + k].entity);
                                    assert(plan_next.operators[base + k].system
                                        == sub_plan.operators[base + k].system);
                                }
                                assert(sub_plan.operators[base + k].entity == ls_child[k]);
                                assert(t.nodes[ls_child[k] as int].kind == TaskKind::Operator(
                                    sub_plan.operators[base + k].system,
                                ));
                            } else {
                                assert(ls[k] == ls_rest[k - ls_child.len()]);
                                assert(q.operators[plan_next.operators.len() + (k
                                    - ls_child.len())].entity == ls_rest[k - ls_child.len()]);
                                assert(t.nodes[ls_rest[k - ls_child.len()] as int].kind
                                    == TaskKind::Operator(
                                    q.operators[plan_next.operators.len() + (k
                                        - ls_child.len())].system,
                                ));
                                assert(plan_next.operators.len() + (k - ls_child.len()) == base
                                    + k);
                            }
                        }
                    }
                }
            },
            TaskKind::Compound(CompoundKind::Select) => {
                assert(false);
            },
        }
    }
}

} // verus!
