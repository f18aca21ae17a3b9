//! The behavior tree: an arena of task nodes addressed by stable indices.
//! A node is either a primitive operator (a leaf invoking one externally
//! registered action) or a compound task composing its children under a
//! decomposition policy.

use vstd::prelude::*;

use crate::condition::Condition;
use crate::condition::ConditionModel;
use crate::effect::Effect;
use crate::effect::EffectModel;

verus! {

/// The per-tick status an operator's action reports.
#[derive(Clone, Copy, PartialEq, Eq, Structural, Hash, Debug)]
pub enum TaskStatus {
    /// The action is still in progress and must be invoked again next tick.
    Continue,
    /// The action finished; the plan advances and the step's effects apply.
    Success,
    /// The action failed; the remainder of the plan is abandoned.
    Failure,
}

/// The stable invokable handle of an externally registered action, assigned
/// when an operator is attached to a tree. The host maps it back to the
/// actual callable when a plan step is executed.
#[derive(Clone, Copy, PartialEq, Eq, Structural, Debug)]
pub struct OperatorId(pub u64);

/// The decomposition policy of a compound task.
#[derive(Clone, Copy, PartialEq, Eq, Structural, Debug)]
pub enum CompoundKind {
    /// Try children in declared order; commit to the first whose conditions
    /// hold and whose subtree decomposes successfully.
    Select,
    /// Require every child, in declared order, to succeed; abort the whole
    /// sequence when any child's conditions fail or a child yields nothing.
    Sequence,
}

/// What a task node is: a primitive operator or a compound task.
#[derive(Clone, Copy, PartialEq, Eq, Structural, Debug)]
pub enum TaskKind {
    /// A leaf invoking the externally registered action behind the handle.
    Operator(OperatorId),
    /// A compound task composing its children under a policy.
    Compound(CompoundKind),
}

/// The ordered child task indices of a compound node.
pub struct Tasks(pub Vec<usize>);

/// The condition indices attached to a node.
pub struct Conds(pub Vec<usize>);

/// The effect indices attached to a node.
pub struct Effects(pub Vec<usize>);

/// One node of a behavior tree: its kind, its ordered children, and the
/// indices of its attached conditions and effects.
pub struct TaskNode {
    pub kind: TaskKind,
    pub tasks: Tasks,
    pub conditions: Conds,
    pub effects: Effects,
}

/// A behavior tree: an arena of task nodes owning their attached conditions
/// and effects. Node `0` is the behavior root. Children always carry higher
/// indices than their parent, so the parent-child relation is acyclic.
pub struct Tree {
    pub nodes: Vec<TaskNode>,
    pub conditions: Vec<Condition>,
    pub effects: Vec<Effect>,
}

/// The mathematical model of a [`TaskNode`].
pub struct TaskNodeModel {
    pub kind: TaskKind,
    pub tasks: Seq<usize>,
    pub conditions: Seq<usize>,
    pub effects: Seq<usize>,
}

/// The mathematical model of a [`Tree`].
pub struct TreeModel {
    pub nodes: Seq<TaskNodeModel>,
    pub conditions: Seq<ConditionModel>,
    pub effects: Seq<EffectModel>,
}

impl View for TaskNode {
    type V = TaskNodeModel;

    open spec fn view(&self) -> TaskNodeModel {
        TaskNodeModel {
            kind: self.kind,
            tasks: self.tasks.0@,
            conditions: self.conditions.0@,
            effects: self.effects.0@,
        }
    }
}

impl View for Tree {
    type V = TreeModel;

    open spec fn view(&self) -> TreeModel {
        TreeModel {
            nodes: self.nodes@.map_values(|n: TaskNode| n@),
            conditions: self.conditions@.map_values(|c: Condition| c@),
            effects: self.effects@.map_values(|e: Effect| e@),
        }
    }
}

impl TreeModel {
    /// Node `i` is internally coherent: its children stand strictly between
    /// it and the end of the arena (making the child relation acyclic), its
    /// child count fits the width of one method-traversal entry, and its
    /// condition and effect indices name attached conditions and effects.
    pub open spec fn wf_node(self, i: int) -> bool {
        &&& forall|j: int|
            0 <= j < self.nodes[i].tasks.len() ==> i < #[trigger] self.nodes[i].tasks[j]
                < self.nodes.len()
        &&& self.nodes[i].tasks.len() <= u16::MAX
        &&& forall|j: int|
            0 <= j < self.nodes[i].conditions.len() ==> #[trigger] self.nodes[i].conditions[j]
                < self.conditions.len()
        &&& forall|j: int|
            0 <= j < self.nodes[i].effects.len() ==> #[trigger] self.nodes[i].effects[j]
                < self.effects.len()
    }

    /// The whole tree is well-formed: it has a root and every node is
    /// coherent.
    pub open spec fn wf(self) -> bool {
        &&& self.nodes.len() > 0
        &&& forall|i: int| 0 <= i < self.nodes.len() ==> #[trigger] self.wf_node(i)
    }
}

impl Tree {
    /// The tree's structural invariant. See [`TreeModel::wf`].
    pub open spec fn wf(&self) -> bool {
        self@.wf()
    }

    /// Creates a tree holding only a root node of the given kind, without
    /// children, conditions or effects.
    pub fn new(root_kind: TaskKind) -> (r: Self)
        ensures
            r.wf(),
            r@.nodes.len() == 1,
            r@.conditions.len() == 0,
            r@.effects.len() == 0,
            r@.nodes[0].kind == root_kind,
            r@.nodes[0].tasks.len() == 0,
            r@.nodes[0].conditions.len() == 0,
            r@.nodes[0].effects.len() == 0,
    {
        let node = TaskNode {
            kind: root_kind,
            tasks: Tasks(Vec::new()),
            conditions: Conds(Vec::new()),
            effects: Effects(Vec::new()),
        };
        let r = Tree { nodes: vec![node], conditions: Vec::new(), effects: Vec::new() };
        proof {
            assert(r@.nodes =~= seq![r.nodes@[0]@]);
            assert(r@.conditions =~= Seq::<ConditionModel>::empty());
            assert(r@.effects =~= Seq::<EffectModel>::empty());
            assert forall|i: int| 0 <= i < r@.nodes.len() implies #[trigger] r@.wf_node(i) by {}
        }
        r
    }

    /// Attaches a new node under the given parent, after all existing
    /// children, and returns its index. The parent must be a compound task,
    /// since only compound tasks own children.
    pub fn attach_task(&mut self, parent: usize, kind: TaskKind) -> (r: usize)
        requires
            old(self).wf(),
            parent < old(self)@.nodes.len(),
            old(self)@.nodes[parent as int].kind matches TaskKind::Compound(_),
            old(self)@.nodes[parent as int].tasks.len() < u16::MAX,
            old(self)@.nodes.len() < usize::MAX,
        ensures
            final(self).wf(),
            r == old(self)@.nodes.len(),
            final(self)@.nodes.len() == old(self)@.nodes.len() + 1,
            final(self)@.conditions == old(self)@.conditions,
            final(self)@.effects == old(self)@.effects,
            forall|i: int|
                0 <= i < old(self)@.nodes.len() && i != parent
                    ==> final(self)@.nodes[i] == old(self)@.nodes[i],
            final(self)@.nodes[parent as int] == (TaskNodeModel {
                kind: old(self)@.nodes[parent as int].kind,
                tasks: old(self)@.nodes[parent as int].tasks.push(r),
                conditions: old(self)@.nodes[parent as int].conditions,
                effects: old(self)@.nodes[parent as int].effects,
            }),
            final(self)@.nodes[r as int] == (TaskNodeModel {
                kind,
                tasks: Seq::empty(),
                conditions: Seq::empty(),
                effects: Seq::empty(),
            }),
    {
        let r = self.nodes.len();
        let node = TaskNode {
            kind,
            tasks: Tasks(Vec::new()),
            conditions: Conds(Vec::new()),
            effects: Effects(Vec::new()),
        };
        self.nodes.push(node);
        let mut parent_node = self.nodes.remove(parent);
        parent_node.tasks.0.push(r);
        self.nodes.insert(parent, parent_node);
        proof {
            let old_t = old(self)@;
            let new_t = self@;
            assert forall|i: int|
                0 <= i < old_t.nodes.len() && i != parent implies new_t.nodes[i] == old_t.nodes[i]
            by {
                assert(self.nodes@[i] == old(self).nodes@[i]);
            }
            assert(self.nodes@[parent as int].tasks.0@ =~= old_t.nodes[parent as int].tasks.push(
                r,
            ));
            assert(new_t.nodes[parent as int] == (TaskNodeModel {
                kind: old_t.nodes[parent as int].kind,
                tasks: old_t.nodes[parent as int].tasks.push(r),
                conditions: old_t.nodes[parent as int].conditions,
                effects: old_t.nodes[parent as int].effects,
            }));
            assert(new_t.nodes[r as int] == (TaskNodeModel {
                kind,
                tasks: Seq::<usize>::empty(),
                conditions: Seq::<usize>::empty(),
                effects: Seq::<usize>::empty(),
            }));
            assert(new_t.conditions =~= old_t.conditions);
            assert(new_t.effects =~= old_t.effects);
            assert forall|i: int| 0 <= i < new_t.nodes.len() implies #[trigger] new_t.wf_node(
                i,
            ) by {
                if i < old_t.nodes.len() && i != parent {
                    assert(old_t.wf_node(i));
                    assert(new_t.nodes[i] == old_t.nodes[i]);
                } else if i == parent {
                    assert(old_t.wf_node(i));
                }
            }
        }
        r
    }

    /// Attaches a condition to the given node and returns its index among the
    /// tree's conditions.
    pub fn attach_condition(&mut self, node: usize, condition: Condition) -> (r: usize)
        requires
            old(self).wf(),
            node < old(self)@.nodes.len(),
            old(self)@.conditions.len() < usize::MAX,
        ensures
            final(self).wf(),
            r == old(self)@.conditions.len(),
            final(self)@.nodes.len() == old(self)@.nodes.len(),
            final(self)@.conditions == old(self)@.conditions.push(condition@),
            final(self)@.effects == old(self)@.effects,
            forall|i: int|
                0 <= i < old(self)@.nodes.len() && i != node
                    ==> final(self)@.nodes[i] == old(self)@.nodes[i],
            final(self)@.nodes[node as int] == (TaskNodeModel {
                kind: old(self)@.nodes[node as int].kind,
                tasks: old(self)@.nodes[node as int].tasks,
                conditions: old(self)@.nodes[node as int].conditions.push(r),
                effects: old(self)@.nodes[node as int].effects,
            }),
    {
        let ghost cond_model = condition@;
        let r = self.conditions.len();
        self.conditions.push(condition);
        let mut target = self.nodes.remove(node);
        target.conditions.0.push(r);
        self.nodes.insert(node, target);
        proof {
            let old_t = old(self)@;
            let new_t = self@;
            assert(new_t.conditions =~= old_t.conditions.push(cond_model));
            assert(new_t.effects =~= old_t.effects);
            assert forall|i: int|
                0 <= i < old_t.nodes.len() && i != node implies new_t.nodes[i] == old_t.nodes[i]
            by {
                assert(self.nodes@[i] == old(self).nodes@[i]);
            }
            assert(self.nodes@[node as int].conditions.0@ =~= old_t.nodes[
                node as int
            ].conditions.push(r));
            assert(new_t.nodes[node as int] == (TaskNodeModel {
                kind: old_t.nodes[node as int].kind,
                tasks: old_t.nodes[node as int].tasks,
                conditions: old_t.nodes[node as int].conditions.push(r),
                effects: old_t.nodes[node as int].effects,
            }));
            assert forall|i: int| 0 <= i < new_t.nodes.len() implies #[trigger] new_t.wf_node(
                i,
            ) by {
                assert(old_t.wf_node(i));
                if i != node {
                    assert(new_t.nodes[i] == old_t.nodes[i]);
                }
            }
        }
        r
    }

    /// Attaches an effect to the given node and returns its index among the
    /// tree's effects.
    pub fn attach_effect(&mut self, node: usize, effect: Effect) -> (r: usize)
        requires
            old(self).wf(),
            node < old(self)@.nodes.len(),
            old(self)@.effects.len() < usize::MAX,
        ensures
            final(self).wf(),
            r == old(self)@.effects.len(),
            final(self)@.nodes.len() == old(self)@.nodes.len(),
            final(self)@.conditions == old(self)@.conditions,
            final(self)@.effects == old(self)@.effects.push(effect@),
            forall|i: int|
                0 <= i < old(self)@.nodes.len() && i != node
                    ==> final(self)@.nodes[i] == old(self)@.nodes[i],
            final(self)@.nodes[node as int] == (TaskNodeModel {
                kind: old(self)@.nodes[node as int].kind,
                tasks: old(self)@.nodes[node as int].tasks,
                conditions: old(self)@.nodes[node as int].conditions,
                effects: old(self)@.nodes[node as int].effects.push(r),
            }),
    {
        let ghost eff_model = effect@;
        let r = self.effects.len();
        self.effects.push(effect);
        let mut target = self.nodes.remove(node);
        target.effects.0.push(r);
        self.nodes.insert(node, target);
        proof {
            let old_t = old(self)@;
            let new_t = self@;
            assert(new_t.effects =~= old_t.effects.push(eff_model));
            assert(new_t.conditions =~= old_t.conditions);
            assert forall|i: int|
                0 <= i < old_t.nodes.len() && i != node implies new_t.nodes[i] == old_t.nodes[i]
            by {
                assert(self.nodes@[i] == old(self).nodes@[i]);
            }
            assert(self.nodes@[node as int].effects.0@ =~= old_t.nodes[node as int].effects.push(
                r,
            ));
            assert(new_t.nodes[node as int] == (TaskNodeModel {
                kind: old_t.nodes[node as int].kind,
                tasks: old_t.nodes[node as int].tasks,
                conditions: old_t.nodes[node as int].conditions,
                effects: old_t.nodes[node as int].effects.push(r),
            }));
            assert forall|i: int| 0 <= i < new_t.nodes.len() implies #[trigger] new_t.wf_node(
                i,
            ) by {
                assert(old_t.wf_node(i));
                if i != node {
                    assert(new_t.nodes[i] == old_t.nodes[i]);
                }
            }
        }
        r
    }
}

} // verus!
