//! Re-planning: servicing a request to (re)build the plan of a behavior
//! root, and deciding whether a fresh decomposition meaningfully differs from
//! the plan already running.

use vstd::prelude::*;

use crate::decompose::DecomposeInput;
use crate::decompose::DecomposeResult;
use crate::decompose::DecomposeResultModel;
use crate::decompose::conds_of;
use crate::decompose::effects_of;
use crate::decompose::eval_conds_from;
use crate::decompose::extend_last_effects;
use crate::decompose::spec_decompose;
use crate::condition::Condition;
use crate::condition::ConditionModel;
use crate::mtr::mtr_eq;
use crate::plan::Plan;
use crate::plan::PlanModel;
use crate::plan::PlannedOperator;
use crate::plan::PlannedOperatorModel;
use crate::props::Props;
use crate::task::TaskKind;
use crate::task::Tree;
use crate::task::TreeModel;
use crate::value::ValueModel;

verus! {

/// A request to (re)build the plan of the behavior root `entity`.
pub struct UpdatePlan {
    /// The behavior root whose plan should be rebuilt.
    pub entity: usize,
}

impl UpdatePlan {
    /// Creates a re-plan request for the given behavior root.
    pub fn new(entity: usize) -> (r: Self)
        ensures
            r.entity == entity,
    {
        UpdatePlan { entity }
    }
}

/// What servicing a re-plan request decided.
pub enum UpdateOutcome {
    /// The fresh decomposition is order-equal to the running plan: discard it
    /// and keep the running plan, in-flight step included.
    Keep,
    /// Install this plan wholesale (empty when the root's conditions are
    /// unfulfilled, no decomposition was viable, or the decomposition was
    /// rejected).
    Replace(Plan),
    /// The root index names no task: a configuration fault. The caller leaves
    /// the plan empty and reports the fault; it is never process-fatal.
    NoTasks,
}

/// The mathematical model of an [`UpdateOutcome`].
pub enum UpdateOutcomeModel {
    Keep,
    Replace(PlanModel),
    NoTasks,
}

impl View for UpdateOutcome {
    type V = UpdateOutcomeModel;

    open spec fn view(&self) -> UpdateOutcomeModel {
        match self {
            UpdateOutcome::Keep => UpdateOutcomeModel::Keep,
            UpdateOutcome::Replace(p) => UpdateOutcomeModel::Replace(p@),
            UpdateOutcome::NoTasks => UpdateOutcomeModel::NoTasks,
        }
    }
}

/// The re-plan stability rule: a fresh decomposition changes nothing when its
/// traversal record is order-equal to the running plan's record and the flat
/// node sequence it visits matches the running plan's recorded one.
pub open spec fn plan_matches(current: PlanModel, fresh: PlanModel) -> bool {
    &&& mtr_eq(current.mtr, fresh.mtr)
    &&& current.full_entities.len() == fresh.operators.len()
    &&& forall|j: int|
        0 <= j < fresh.operators.len() ==> current.full_entities[j]
            == #[trigger] fresh.operators[j].entity
}

/// A decomposition result made installable: the root's own effects appended
/// to the last step, and the flat list of visited nodes recorded.
pub open spec fn finalize_plan(t: TreeModel, root: int, p: PlanModel) -> PlanModel {
    let q = extend_last_effects(p, effects_of(t, root));
    PlanModel {
        operators: q.operators,
        mtr: q.mtr,
        full_entities: Seq::new(q.operators.len(), |j: int| q.operators[j].entity),
    }
}

/// Servicing a re-plan request for `root` against the live store `live` and
/// the currently installed plan `current`:
/// - a root index naming no node is a configuration fault (`NoTasks`);
/// - a root whose own conditions are unfulfilled gets the empty plan;
/// - an operator root gets the one-step plan running just that operator;
/// - a compound root is decomposed against a snapshot of the live store: a
///   viable result order-equal to `current` is discarded (`Keep`), any other
///   is installed finalized, and no viable result — a failure or a rejection —
///   clears the plan to empty.
pub open spec fn spec_update(
    t: TreeModel,
    root: int,
    live: Map<Seq<char>, ValueModel>,
    current: PlanModel,
) -> UpdateOutcomeModel {
    if !(0 <= root < t.nodes.len()) {
        UpdateOutcomeModel::NoTasks
    } else {
        let guard = eval_conds_from(conds_of(t, root), 0, live);
        if !guard.0 {
            UpdateOutcomeModel::Replace(PlanModel::empty())
        } else {
            match t.nodes[root].kind {
                TaskKind::Operator(op) => {
                    let step = PlannedOperatorModel {
                        system: op,
                        entity: root as usize,
                        effects: Seq::empty(),
                        conditions: Seq::empty(),
                    };
                    let base = PlanModel {
                        operators: seq![step],
                        mtr: Seq::empty(),
                        full_entities: Seq::empty(),
                    };
                    UpdateOutcomeModel::Replace(finalize_plan(t, root, base))
                },
                TaskKind::Compound(_) => {
                    match spec_decompose(t, root, guard.1, PlanModel::empty(), Seq::empty()) {
                        DecomposeResultModel::Success { plan: fresh, .. } => {
                            if plan_matches(current, fresh) {
                                UpdateOutcomeModel::Keep
                            } else {
                                UpdateOutcomeModel::Replace(finalize_plan(t, root, fresh))
                            }
                        },
                        DecomposeResultModel::Failure => UpdateOutcomeModel::Replace(
                            PlanModel::empty(),
                        ),
                        DecomposeResultModel::Rejection => UpdateOutcomeModel::Replace(
                            PlanModel::empty(),
                        ),
                    }
                },
            }
        }
    }
}

/// Records the flat list of visited tree nodes of a freshly built plan.
fn set_full_entities(plan: &mut Plan)
    ensures
        final(plan)@.operators == old(plan)@.operators,
        final(plan)@.mtr == old(plan)@.mtr,
        final(plan)@.full_entities == Seq::new(
            old(plan)@.operators.len(),
            |j: int| old(plan)@.operators[j].entity,
        ),
{
    let mut entities: Vec<usize> = Vec::new();
    let mut j: usize = 0;
    while j < plan.operators.len()
        invariant
            j <= plan.operators@.len(),
            entities@.len() == j,
            plan@ == old(plan)@,
            forall|k: int| 0 <= k < j ==> entities@[k] == plan@.operators[k].entity,
        decreases plan.operators@.len() - j,
    {
        entities.push(plan.operators[j].entity);
        j = j + 1;
    }
    plan.full_entities = entities;
    proof {
        assert(final(plan)@.full_entities =~= Seq::new(
            old(plan)@.operators.len(),
            |k: int| old(plan)@.operators[k].entity,
        ));
    }
}

/// Whether the running plan's recorded node sequence matches a fresh
/// decomposition's steps, per the stability rule.
fn entities_match(current: &Plan, fresh: &Plan) -> (r: bool)
    ensures
        r == (current@.full_entities.len() == fresh@.operators.len() && forall|j: int|
            0 <= j < fresh@.operators.len() ==> current@.full_entities[j]
                == #[trigger] fresh@.operators[j].entity),
{
    if current.full_entities.len() != fresh.operators.len() {
        return false;
    }
    let mut j: usize = 0;
    while j < fresh.operators.len()
        invariant
            j <= fresh.operators@.len(),
            current@.full_entities.len() == fresh@.operators.len(),
            forall|k: int|
                0 <= k < j ==> current@.full_entities[k] == #[trigger] fresh@.operators[k].entity,
        decreases fresh.operators@.len() - j,
    {
        if current.full_entities[j] != fresh.operators[j].entity {
            proof {
                assert(current@.full_entities[j as int] != fresh@.operators[j as int].entity);
            }
            return false;
        }
        j = j + 1;
    }
    true
}

/// Services a re-plan request: rebuilds the plan of behavior root `root`
/// against a snapshot of the live store, and compares the result with the
/// plan currently installed. The outcome is exactly [`spec_update`]; the
/// caller installs a `Replace` plan wholesale, keeps the running plan on
/// `Keep`, and on `NoTasks` empties the plan and reports the configuration
/// fault.
pub fn update_plan(tree: &Tree, root: usize, live: &Props, current: &Plan) -> (r: UpdateOutcome)
    requires
        tree.wf(),
        live.wf(),
    ensures
        r@ == spec_update(tree@, root as int, live@, current@),
{
    let ghost t = tree@;
    if root >= tree.nodes.len() {
        return UpdateOutcome::NoTasks;
    }
    let mut snapshot = live.clone();
    let fulfilled = crate::decompose::eval_node_conditions(tree, root, &mut snapshot);
    if !fulfilled {
        return UpdateOutcome::Replace(Plan::new());
    }
    match tree.nodes[root].kind {
        TaskKind::Operator(op) => {
            let mut plan = Plan::new();
            let step = PlannedOperator {
                system: op,
                entity: root,
                effects: Vec::new(),
                conditions: Vec::new(),
            };
            let ghost step_model = step@;
            plan.operators.push(step);
            proof {
                assert(step_model.effects =~= Seq::<crate::effect::EffectModel>::empty());
                assert(step_model.conditions =~= Seq::<ConditionModel>::empty());
                assert(plan@.operators =~= seq![step_model]);
            }
            let effs = crate::decompose::collect_node_effects(tree, root);
            crate::decompose::plan_extend_last(&mut plan, &effs);
            set_full_entities(&mut plan);
            UpdateOutcome::Replace(plan)
        },
        TaskKind::Compound(_) => {
            let no_conds: Vec<Condition> = Vec::new();
            proof {
                assert(crate::plan::conds_view(no_conds@) =~= Seq::<ConditionModel>::empty());
            }
            let input = DecomposeInput {
                root,
                compound_task: root,
                world_state: snapshot,
                plan: Plan::new(),
                previous_mtr: current.mtr.clone(),
                conditions: no_conds,
            };
            match crate::decompose::decompose(tree, input) {
                DecomposeResult::Success { plan: fresh, world_state: _ } => {
                    let mut fresh = fresh;
                    let mtr_same = current.mtr == fresh.mtr;
                    if mtr_same && entities_match(current, &fresh) {
                        UpdateOutcome::Keep
                    } else {
                        let effs = crate::decompose::collect_node_effects(tree, root);
                        crate::decompose::plan_extend_last(&mut fresh, &effs);
                        set_full_entities(&mut fresh);
                        UpdateOutcome::Replace(fresh)
                    }
                },
                DecomposeResult::Failure => UpdateOutcome::Replace(Plan::new()),
                DecomposeResult::Rejection => UpdateOutcome::Replace(Plan::new()),
            }
        },
    }
}

} // verus!
