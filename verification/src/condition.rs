//! Conditions: boolean predicates over a property-store snapshot, attached to
//! tasks to guard decomposition and execution.

use vstd::prelude::*;

use crate::props::Props;
use crate::value::Value;
use crate::value::ValueModel;
use crate::value::value_cmp;
use crate::value::value_eq;

verus! {

/// The comparison applied by a comparison condition.
#[derive(Clone, Copy)]
pub enum CmpOp {
    Eq,
    Ne,
    Gt,
    Ge,
    Lt,
    Le,
}

/// The closed set of predicates a condition can apply to a snapshot.
pub enum ConditionKind {
    /// Always fulfilled.
    AlwaysTrue,
    /// Never fulfilled.
    AlwaysFalse,
    /// Compares the named property against a literal value.
    Compare(CmpOp, String, Value),
    /// Holds when the named property is an integer within the inclusive range.
    InRange(String, i64, i64),
}

/// A condition for an associated task. If the condition is unfulfilled, the
/// compound task containing the task may be pruned.
pub struct Condition {
    kind: ConditionKind,
}

/// The mathematical model of a [`ConditionKind`].
pub enum ConditionModel {
    AlwaysTrue,
    AlwaysFalse,
    Compare(CmpOp, Seq<char>, ValueModel),
    InRange(Seq<char>, i64, i64),
}

impl View for ConditionKind {
    type V = ConditionModel;

    open spec fn view(&self) -> ConditionModel {
        match self {
            ConditionKind::AlwaysTrue => ConditionModel::AlwaysTrue,
            ConditionKind::AlwaysFalse => ConditionModel::AlwaysFalse,
            ConditionKind::Compare(op, name, value) => ConditionModel::Compare(
                *op,
                name@,
                value@,
            ),
            ConditionKind::InRange(name, lo, hi) => ConditionModel::InRange(name@, *lo, *hi),
        }
    }
}

impl View for Condition {
    type V = ConditionModel;

    closed spec fn view(&self) -> ConditionModel {
        self.kind@
    }
}

/// The default a read of an absent key materializes, typed like the literal
/// the key is compared against: `false`, zero, or the empty text.
pub open spec fn default_like(v: ValueModel) -> ValueModel {
    match v {
        ValueModel::Bool(_) => ValueModel::Bool(false),
        ValueModel::Int(_) => ValueModel::Int(0),
        ValueModel::Str(_) => ValueModel::Str(Seq::empty()),
    }
}

/// Whether comparison `op` holds between `a` and `b`. Equality is same variant
/// and same content; the four order tests hold only for values of the same
/// variant, per [`value_cmp`].
pub open spec fn cmp_holds(op: CmpOp, a: ValueModel, b: ValueModel) -> bool {
    match op {
        CmpOp::Eq => value_eq(a, b),
        CmpOp::Ne => !value_eq(a, b),
        CmpOp::Gt => value_cmp(a, b) == Some(core::cmp::Ordering::Greater),
        CmpOp::Ge => value_cmp(a, b) == Some(core::cmp::Ordering::Greater) || value_cmp(a, b)
            == Some(core::cmp::Ordering::Equal),
        CmpOp::Lt => value_cmp(a, b) == Some(core::cmp::Ordering::Less),
        CmpOp::Le => value_cmp(a, b) == Some(core::cmp::Ordering::Less) || value_cmp(a, b) == Some(
            core::cmp::Ordering::Equal,
        ),
    }
}

/// Evaluating a condition against a snapshot: the verdict, and the snapshot
/// after any queried-but-absent key was materialized with its default.
pub open spec fn condition_eval(c: ConditionModel, m: Map<Seq<char>, ValueModel>) -> (
    bool,
    Map<Seq<char>, ValueModel>,
) {
    match c {
        ConditionModel::AlwaysTrue => (true, m),
        ConditionModel::AlwaysFalse => (false, m),
        ConditionModel::Compare(op, key, lit) => {
            let cur = if m.contains_key(key) {
                m[key]
            } else {
                default_like(lit)
            };
            (cmp_holds(op, cur, lit), m.insert(key, cur))
        },
        ConditionModel::InRange(key, lo, hi) => {
            let cur = if m.contains_key(key) {
                m[key]
            } else {
                ValueModel::Int(0)
            };
            let verdict = match cur {
                ValueModel::Int(i) => lo <= i && i <= hi,
                _ => false,
            };
            (verdict, m.insert(key, cur))
        },
    }
}

/// The default value an absent key materializes as, typed like `v`.
fn default_like_exec(v: &Value) -> (r: Value)
    ensures
        r@ == default_like(v@),
{
    match v {
        Value::Bool(_) => Value::Bool(false),
        Value::Int(_) => Value::Int(0),
        Value::Str(_) => Value::Str(String::new()),
    }
}

impl Condition {
    /// Creates a new condition applying the given predicate.
    pub fn new(kind: ConditionKind) -> (r: Self)
        ensures
            r@ == kind@,
    {
        Condition { kind }
    }

    /// Evaluates the condition with the given properties, returning whether it
    /// is fulfilled. It will insert props holding default values if they are
    /// queried, but are not yet present in the store.
    pub fn is_fullfilled(&self, props: &mut Props) -> (r: bool)
        requires
            old(props).wf(),
        ensures
            final(props).wf(),
            r == condition_eval(self@, old(props)@).0,
            final(props)@ == condition_eval(self@, old(props)@).1,
    {
        match &self.kind {
            ConditionKind::AlwaysTrue => {
                proof {
                    assert(old(props)@ =~= condition_eval(self@, old(props)@).1);
                }
                true
            },
            ConditionKind::AlwaysFalse => {
                proof {
                    assert(old(props)@ =~= condition_eval(self@, old(props)@).1);
                }
                false
            },
            ConditionKind::Compare(op, name, lit) => {
                let cur = props.get_or_default(name.as_str(), default_like_exec(lit));
                cmp_eval(*op, &cur, lit)
            },
            ConditionKind::InRange(name, lo, hi) => {
                let cur = props.get_or_default(name.as_str(), Value::Int(0));
                match cur {
                    Value::Int(i) => *lo <= i && i <= *hi,
                    _ => false,
                }
            },
        }
    }

    /// Shorthand for a condition for the concept of `props[name] == value`.
    pub fn eq(name: &str, value: Value) -> (r: Self)
        ensures
            r@ == ConditionModel::Compare(CmpOp::Eq, name@, value@),
    {
        Self::cmp(name, value, CmpOp::Eq)
    }

    /// Shorthand for a condition for the concept of `props[name] != value`.
    pub fn ne(name: &str, value: Value) -> (r: Self)
        ensures
            r@ == ConditionModel::Compare(CmpOp::Ne, name@, value@),
    {
        Self::cmp(name, value, CmpOp::Ne)
    }

    /// Shorthand for a condition for the concept of `props[name] > value`.
    pub fn gt(name: &str, value: Value) -> (r: Self)
        ensures
            r@ == ConditionModel::Compare(CmpOp::Gt, name@, value@),
    {
        Self::cmp(name, value, CmpOp::Gt)
    }

    /// Shorthand for a condition for the concept of `props[name] >= value`.
    pub fn ge(name: &str, value: Value) -> (r: Self)
        ensures
            r@ == ConditionModel::Compare(CmpOp::Ge, name@, value@),
    {
        Self::cmp(name, value, CmpOp::Ge)
    }

    /// Shorthand for a condition for the concept of `props[name] < value`.
    pub fn lt(name: &str, value: Value) -> (r: Self)
        ensures
            r@ == ConditionModel::Compare(CmpOp::Lt, name@, value@),
    {
        Self::cmp(name, value, CmpOp::Lt)
    }

    /// Shorthand for a condition for the concept of `props[name] <= value`.
    pub fn le(name: &str, value: Value) -> (r: Self)
        ensures
            r@ == ConditionModel::Compare(CmpOp::Le, name@, value@),
    {
        Self::cmp(name, value, CmpOp::Le)
    }

    /// Shorthand for a condition for the concept of
    /// `lo <= props[name] <= hi` over integer properties.
    pub fn in_range(name: &str, lo: i64, hi: i64) -> (r: Self)
        ensures
            r@ == ConditionModel::InRange(name@, lo, hi),
    {
        Condition { kind: ConditionKind::InRange(name.to_owned(), lo, hi) }
    }

    /// Shorthand for a condition that always evaluates to true.
    pub fn always_true() -> (r: Self)
        ensures
            r@ == ConditionModel::AlwaysTrue,
    {
        Condition { kind: ConditionKind::AlwaysTrue }
    }

    /// Shorthand for a condition that always evaluates to false.
    pub fn always_false() -> (r: Self)
        ensures
            r@ == ConditionModel::AlwaysFalse,
    {
        Condition { kind: ConditionKind::AlwaysFalse }
    }

    /// Shortcut for a condition that compares a property with a value.
    pub fn cmp(name: &str, value: Value, op: CmpOp) -> (r: Self)
        ensures
            r@ == ConditionModel::Compare(op, name@, value@),
    {
        Condition { kind: ConditionKind::Compare(op, name.to_owned(), value) }
    }
}

/// Applies comparison `op` to two values.
fn cmp_eval(op: CmpOp, a: &Value, b: &Value) -> (r: bool)
    ensures
        r == cmp_holds(op, a@, b@),
{
    match op {
        CmpOp::Eq => a.equal_to(b),
        CmpOp::Ne => !a.equal_to(b),
        CmpOp::Gt => matches!(a.compare(b), Some(core::cmp::Ordering::Greater)),
        CmpOp::Ge => matches!(
            a.compare(b),
            Some(core::cmp::Ordering::Greater) | Some(core::cmp::Ordering::Equal),
        ),
        CmpOp::Lt => matches!(a.compare(b), Some(core::cmp::Ordering::Less)),
        CmpOp::Le => matches!(
            a.compare(b),
            Some(core::cmp::Ordering::Less) | Some(core::cmp::Ordering::Equal),
        ),
    }
}

impl Clone for Condition {
    fn clone(&self) -> (r: Self)
        ensures
            r@ == self@,
    {
        Condition {
            kind: match &self.kind {
                ConditionKind::AlwaysTrue => ConditionKind::AlwaysTrue,
                ConditionKind::AlwaysFalse => ConditionKind::AlwaysFalse,
                ConditionKind::Compare(op, name, value) => ConditionKind::Compare(
                    *op,
                    name.clone(),
                    value.clone(),
                ),
                ConditionKind::InRange(name, lo, hi) => ConditionKind::InRange(
                    name.clone(),
                    *lo,
                    *hi,
                ),
            },
        }
    }
}

/// A condition that is always fulfilled.
pub struct AlwaysTrue;

impl From<AlwaysTrue> for Condition {
    fn from(_marker: AlwaysTrue) -> (r: Condition)
    {
        Condition { kind: ConditionKind::AlwaysTrue }
    }
}

impl vstd::std_specs::convert::FromSpecImpl<AlwaysTrue> for Condition {
    open spec fn obeys_from_spec() -> bool {
        true
    }

    closed spec fn from_spec(marker: AlwaysTrue) -> Condition {
        Condition { kind: ConditionKind::AlwaysTrue }
    }
}

} // verus!
