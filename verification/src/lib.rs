//! A hierarchical task-network planner and executor for autonomous agent
//! behavior. A behavior is a tree of tasks: primitive operators composed by
//! compound tasks (`Select`, `Sequence`), guarded by conditions and producing
//! effects on a per-agent key/value property store. Decomposition walks the
//! tree against a snapshot of the store and yields a linear plan, fingerprinted
//! by a method traversal record so that re-planning can detect "no meaningful
//! change" and keep an in-flight plan.

pub mod condition;
pub mod decompose;
pub mod effect;
pub mod execution;
pub mod laws;
pub mod mtr;
pub mod task;
pub mod update;
pub mod plan;
pub mod props;
pub mod value;
