//! The execution loop's per-tick logic: check the head step's conditions,
//! hand its operator to the host for invocation, and fold the reported
//! status back into the plan and the live property store.

use vstd::prelude::*;

use crate::decompose::eval_conds_from;
use crate::effect::EffectModel;
use crate::effect::effect_apply;
use crate::plan::Plan;
use crate::plan::PlanModel;
use crate::props::Props;
use crate::task::OperatorId;
use crate::task::TaskStatus;
use crate::value::ValueModel;

verus! {

/// Applying a completed step's recorded effects to the live store, in order,
/// skipping the plan-only ones: those were taken into account during
/// planning, but their real-world consequence arrives from outside.
pub open spec fn apply_runtime_effects_from(
    es: Seq<EffectModel>,
    j: int,
    m: Map<Seq<char>, ValueModel>,
) -> Map<Seq<char>, ValueModel>
    decreases es.len() - j,
{
    if j < 0 || j >= es.len() {
        m
    } else if es[j].plan_only {
        apply_runtime_effects_from(es, j + 1, m)
    } else {
        apply_runtime_effects_from(es, j + 1, effect_apply(es[j].kind, m))
    }
}

/// The invokable handle and originating tree node of the plan's head step,
/// or `None` when the plan is exhausted. The host invokes the handle and
/// reports the resulting [`TaskStatus`] to [`complete_step`].
pub fn head_operator(plan: &Plan) -> (r: Option<(OperatorId, usize)>)
    ensures
        match r {
            Some(head) => plan@.operators.len() > 0 && head.0 == plan@.operators[0].system
                && head.1 == plan@.operators[0].entity,
            None => plan@.operators.len() == 0,
        },
{
    if plan.operators.len() == 0 {
        None
    } else {
        Some((plan.operators[0].system, plan.operators[0].entity))
    }
}

/// Re-checks the head step's recorded conditions against the live store,
/// immediately before invocation. A failure means the step must be treated
/// as a [`TaskStatus::Failure`] without invoking the action. Like any
/// condition read, the check materializes defaults for absent keys.
pub fn check_head_conditions(plan: &Plan, props: &mut Props) -> (r: bool)
    requires
        plan@.operators.len() > 0,
        old(props).wf(),
    ensures
        final(props).wf(),
        r == eval_conds_from(plan@.operators[0].conditions, 0, old(props)@).0,
        final(props)@ == eval_conds_from(plan@.operators[0].conditions, 0, old(props)@).1,
{
    let ghost cs = plan@.operators[0].conditions;
    let conditions = &plan.operators[0].conditions;
    let mut j: usize = 0;
    while j < conditions.len()
        invariant
            j <= conditions@.len(),
            plan@.operators.len() > 0,
            cs == plan@.operators[0].conditions,
            cs == crate::plan::conds_view(conditions@),
            cs.len() == conditions@.len(),
            props.wf(),
            eval_conds_from(cs, j as int, props@) == eval_conds_from(
                cs,
                0,
                old(props)@,
            ),
        decreases conditions@.len() - j,
    {
        proof {
            assert(cs[j as int] == conditions@[j as int]@);
        }
        let ghost pre = props@;
        let fulfilled = conditions[j].is_fullfilled(props);
        if !fulfilled {
            proof {
                assert(eval_conds_from(cs, j as int, pre) == (
                    false,
                    crate::condition::condition_eval(cs[j as int], pre).1,
                ));
            }
            return false;
        }
        proof {
            assert(eval_conds_from(cs, j as int, pre) == eval_conds_from(cs, j + 1, props@));
        }
        j = j + 1;
    }
    true
}

/// Folds the status the head step's action reported back into the plan and
/// the live store:
/// - `Success` pops the head and applies its recorded effects, except the
///   plan-only ones, to the live store; the next step waits for the next
///   tick;
/// - `Continue` leaves everything untouched, so the same head is invoked
///   again next tick;
/// - `Failure` clears the plan wholesale, which marks the root for re-plan.
pub fn complete_step(plan: &mut Plan, props: &mut Props, status: TaskStatus)
    requires
        old(plan)@.operators.len() > 0,
        old(props).wf(),
    ensures
        final(props).wf(),
        match status {
            TaskStatus::Success => {
                &&& final(plan)@ == (PlanModel {
                    operators: old(plan)@.operators.drop_first(),
                    mtr: old(plan)@.mtr,
                    full_entities: old(plan)@.full_entities,
                })
                &&& final(props)@ == apply_runtime_effects_from(
                    old(plan)@.operators[0].effects,
                    0,
                    old(props)@,
                )
            },
            TaskStatus::Continue => final(plan)@ == old(plan)@ && final(props)@ == old(props)@,
            TaskStatus::Failure => final(plan)@ == PlanModel::empty() && final(props)@ == old(
                props,
            )@,
        },
{
    match status {
        TaskStatus::Continue => {},
        TaskStatus::Failure => {
            *plan = Plan::new();
        },
        TaskStatus::Success => {
            let step = plan.operators.remove(0);
            proof {
                assert(plan@.operators =~= old(plan)@.operators.drop_first());
            }
            let ghost es = step@.effects;
            let mut j: usize = 0;
            while j < step.effects.len()
                invariant
                    j <= step.effects@.len(),
                    es == crate::plan::effects_view(step.effects@),
                    es.len() == step.effects@.len(),
                    props.wf(),
                    apply_runtime_effects_from(es, j as int, props@)
                        == apply_runtime_effects_from(es, 0, old(props)@),
                decreases step.effects@.len() - j,
            {
                proof {
                    assert(es[j as int] == step.effects@[j as int]@);
                }
                if !step.effects[j].is_plan_only() {
                    step.effects[j].apply(props);
                }
                j = j + 1;
            }
        },
    }
}

/// Whether the plan is exhausted, so that its behavior root must be marked
/// for re-planning next tick.
pub fn needs_replan(plan: &Plan) -> (r: bool)
    ensures
        r == (plan@.operators.len() == 0),
{
    plan.operators.len() == 0
}

} // verus!
