//! Plans: the ordered result of decomposing a behavior tree, annotated with
//! its method traversal record and the flat list of tree nodes it visits.

use vstd::prelude::*;

use crate::condition::Condition;
use crate::condition::ConditionModel;
use crate::effect::Effect;
use crate::effect::EffectModel;
use crate::mtr::Mtr;
use crate::task::OperatorId;

verus! {

/// The models of a sequence of conditions.
pub open spec fn conds_view(s: Seq<Condition>) -> Seq<ConditionModel> {
    s.map_values(|c: Condition| c@)
}

/// The models of a sequence of effects.
pub open spec fn effects_view(s: Seq<Effect>) -> Seq<EffectModel> {
    s.map_values(|e: Effect| e@)
}

/// One step of a plan: the invokable handle of the operator to run, the tree
/// node it came from, the effects to apply when the step succeeds, and the
/// conditions that must still hold when the step is about to run.
pub struct PlannedOperator {
    pub system: OperatorId,
    pub entity: usize,
    pub effects: Vec<Effect>,
    pub conditions: Vec<Condition>,
}

/// The mathematical model of a [`PlannedOperator`].
pub struct PlannedOperatorModel {
    pub system: OperatorId,
    pub entity: usize,
    pub effects: Seq<EffectModel>,
    pub conditions: Seq<ConditionModel>,
}

impl View for PlannedOperator {
    type V = PlannedOperatorModel;

    open spec fn view(&self) -> PlannedOperatorModel {
        PlannedOperatorModel {
            system: self.system,
            entity: self.entity,
            effects: effects_view(self.effects@),
            conditions: conds_view(self.conditions@),
        }
    }
}

/// An ordered queue of steps ready for execution, with its method traversal
/// record and the flat list of tree nodes its steps came from. A plan is
/// replaced wholesale on every accepted re-plan and cleared to empty on
/// failure, never partially patched.
pub struct Plan {
    /// The remaining steps, front first.
    pub operators: Vec<PlannedOperator>,
    /// The method traversal record of the decomposition that built this plan.
    pub mtr: Mtr,
    /// The tree nodes of all steps as planned, kept in full while the steps
    /// themselves are consumed, for re-plan stability comparison.
    pub full_entities: Vec<usize>,
}

/// The mathematical model of a [`Plan`].
pub struct PlanModel {
    pub operators: Seq<PlannedOperatorModel>,
    pub mtr: Seq<u16>,
    pub full_entities: Seq<usize>,
}

impl View for Plan {
    type V = PlanModel;

    open spec fn view(&self) -> PlanModel {
        PlanModel {
            operators: self.operators@.map_values(|o: PlannedOperator| o@),
            mtr: self.mtr@,
            full_entities: self.full_entities@,
        }
    }
}

impl PlanModel {
    /// An empty plan with an empty traversal record.
    pub open spec fn empty() -> PlanModel {
        PlanModel { operators: Seq::empty(), mtr: Seq::empty(), full_entities: Seq::empty() }
    }
}

impl Plan {
    /// Creates an empty plan.
    pub fn new() -> (r: Self)
        ensures
            r@ == PlanModel::empty(),
    {
        let r = Plan { operators: Vec::new(), mtr: Mtr::none(), full_entities: Vec::new() };
        proof {
            assert(r@.operators =~= Seq::<PlannedOperatorModel>::empty());
            assert(r@.full_entities =~= Seq::<usize>::empty());
        }
        r
    }

    /// Whether no steps remain.
    pub fn is_empty(&self) -> (r: bool)
        ensures
            r == (self@.operators.len() == 0),
    {
        self.operators.len() == 0
    }

    /// The number of remaining steps.
    pub fn len(&self) -> (r: usize)
        ensures
            r == self@.operators.len(),
    {
        self.operators.len()
    }
}

/// Clones a sequence of conditions.
pub(crate) fn clone_conditions(v: &Vec<Condition>) -> (r: Vec<Condition>)
    ensures
        conds_view(r@) == conds_view(v@),
{
    let mut r: Vec<Condition> = Vec::new();
    let mut i: usize = 0;
    while i < v.len()
        invariant
            i <= v@.len(),
            r@.len() == i,
            forall|j: int| 0 <= j < i ==> r@[j]@ == v@[j]@,
        decreases v@.len() - i,
    {
        r.push(v[i].clone());
        i = i + 1;
    }
    proof {
        assert(conds_view(r@) =~= conds_view(v@));
    }
    r
}

/// Clones a sequence of effects.
pub(crate) fn clone_effects(v: &Vec<Effect>) -> (r: Vec<Effect>)
    ensures
        effects_view(r@) == effects_view(v@),
{
    let mut r: Vec<Effect> = Vec::new();
    let mut i: usize = 0;
    while i < v.len()
        invariant
            i <= v@.len(),
            r@.len() == i,
            forall|j: int| 0 <= j < i ==> r@[j]@ == v@[j]@,
        decreases v@.len() - i,
    {
        r.push(v[i].clone());
        i = i + 1;
    }
    proof {
        assert(effects_view(r@) =~= effects_view(v@));
    }
    r
}

impl Default for Plan {
    fn default() -> (r: Self)
        ensures
            r@ == PlanModel::empty(),
    {
        Plan::new()
    }
}

impl Clone for PlannedOperator {
    fn clone(&self) -> (r: Self)
        ensures
            r@ == self@,
    {
        PlannedOperator {
            system: self.system,
            entity: self.entity,
            effects: clone_effects(&self.effects),
            conditions: clone_conditions(&self.conditions),
        }
    }
}

impl Clone for Plan {
    fn clone(&self) -> (r: Self)
        ensures
            r@ == self@,
    {
        let mut operators: Vec<PlannedOperator> = Vec::new();
        let mut i: usize = 0;
        while i < self.operators.len()
            invariant
                i <= self.operators@.len(),
                operators@.len() == i,
                forall|j: int| 0 <= j < i ==> operators@[j]@ == self.operators@[j]@,
            decreases self.operators@.len() - i,
        {
            operators.push(self.operators[i].clone());
            i = i + 1;
        }
        let mut full_entities: Vec<usize> = Vec::new();
        let mut k: usize = 0;
        while k < self.full_entities.len()
            invariant
                k <= self.full_entities@.len(),
                full_entities@ == self.full_entities@.subrange(0, k as int),
            decreases self.full_entities@.len() - k,
        {
            full_entities.push(self.full_entities[k]);
            k = k + 1;
        }
        let r = Plan { operators, mtr: self.mtr.clone(), full_entities };
        proof {
            assert(r@.operators =~= self@.operators);
            assert(r@.full_entities =~= self@.full_entities);
        }
        r
    }
}

} // verus!
