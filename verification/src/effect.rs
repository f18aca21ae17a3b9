//! Effects: named mutations of a property-store snapshot, taken into account
//! during planning and applied when the associated plan step succeeds.

use vstd::prelude::*;

use crate::props::Props;
use crate::value::Value;
use crate::value::ValueModel;

verus! {

/// The arithmetic applied by a numeric effect.
#[derive(Clone, Copy)]
pub enum ArithOp {
    Add,
    Sub,
    Mul,
    Div,
}

/// The closed set of mutations an effect can apply to a snapshot.
pub enum EffectKind {
    /// Leaves the store untouched.
    Noop,
    /// Sets the named property to a value.
    Assign(String, Value),
    /// Negates the named boolean property, initializing it to `true` when it
    /// was absent.
    Toggle(String),
    /// Combines the named integer property with an operand, initializing the
    /// property to zero when it was absent.
    Arith(ArithOp, String, i64),
}

/// An effect on the properties of the entity holding a plan. Effects are taken
/// into account during planning, and applied automatically when the associated
/// step of the plan succeeds.
pub struct Effect {
    kind: EffectKind,
    /// Whether the effect should be taken into account only during planning,
    /// but not applied for you. Default is `false`, i.e. all effects are
    /// applied when the associated step of the plan succeeds.
    pub plan_only: bool,
}

/// The mathematical model of an [`Effect`].
pub struct EffectModel {
    pub kind: EffectKindModel,
    pub plan_only: bool,
}

/// The mathematical model of an [`EffectKind`].
pub enum EffectKindModel {
    Noop,
    Assign(Seq<char>, ValueModel),
    Toggle(Seq<char>),
    Arith(ArithOp, Seq<char>, i64),
}

impl View for EffectKind {
    type V = EffectKindModel;

    open spec fn view(&self) -> EffectKindModel {
        match self {
            EffectKind::Noop => EffectKindModel::Noop,
            EffectKind::Assign(name, value) => EffectKindModel::Assign(name@, value@),
            EffectKind::Toggle(name) => EffectKindModel::Toggle(name@),
            EffectKind::Arith(op, name, operand) => EffectKindModel::Arith(*op, name@, *operand),
        }
    }
}

impl View for Effect {
    type V = EffectModel;

    closed spec fn view(&self) -> EffectModel {
        EffectModel { kind: self.kind@, plan_only: self.plan_only }
    }
}

/// The result of combining integer `i` with operand `v`: wrapping addition,
/// subtraction and multiplication; truncating division, with a zero divisor
/// (and the one overflowing quotient) leaving the value unchanged.
pub open spec fn arith_result(op: ArithOp, i: i64, v: i64) -> i64 {
    match op {
        ArithOp::Add => vstd::wrapping::i64_specs::wrapping_add(i, v),
        ArithOp::Sub => vstd::wrapping::i64_specs::wrapping_sub(i, v),
        ArithOp::Mul => vstd::wrapping::i64_specs::wrapping_mul(i, v),
        ArithOp::Div => if v == 0 {
            i
        } else {
            match i.checked_div(v) {
                Some(q) => q,
                None => i,
            }
        },
    }
}

/// Applying an effect to a snapshot. An `Assign` stores its value; a `Toggle`
/// negates a boolean, initializing an absent key to `true`; arithmetic
/// combines an integer with the operand, initializing an absent key to zero
/// first. A `Toggle` or arithmetic effect on a present key of the wrong
/// variant materializes nothing and leaves the value unchanged.
pub open spec fn effect_apply(e: EffectKindModel, m: Map<Seq<char>, ValueModel>) -> Map<
    Seq<char>,
    ValueModel,
> {
    match e {
        EffectKindModel::Noop => m,
        EffectKindModel::Assign(key, value) => m.insert(key, value),
        EffectKindModel::Toggle(key) => {
            let cur = if m.contains_key(key) {
                m[key]
            } else {
                ValueModel::Bool(false)
            };
            match cur {
                ValueModel::Bool(b) => m.insert(key, ValueModel::Bool(!b)),
                _ => m,
            }
        },
        EffectKindModel::Arith(op, key, operand) => {
            let cur = if m.contains_key(key) {
                m[key]
            } else {
                ValueModel::Int(0)
            };
            match cur {
                ValueModel::Int(i) => m.insert(key, ValueModel::Int(arith_result(op, i, operand))),
                _ => m,
            }
        },
    }
}

impl Effect {
    /// Creates a new effect applying the given mutation.
    pub fn new(kind: EffectKind) -> (r: Self)
        ensures
            r@ == (EffectModel { kind: kind@, plan_only: false }),
    {
        Effect { kind, plan_only: false }
    }

    /// Ensures that the effect is taken into account for planning, but not
    /// applied for you. This is useful for effects that come from the outside
    /// world, such as "did the monster find the player?". This is off by
    /// default, i.e. all effects are applied when the associated step of the
    /// plan succeeds.
    pub fn plan_only(self) -> (r: Self)
        ensures
            r@ == (EffectModel { kind: self@.kind, plan_only: true }),
    {
        Effect { kind: self.kind, plan_only: true }
    }

    /// Whether the effect is taken into account only during planning.
    pub fn is_plan_only(&self) -> (r: bool)
        ensures
            r == self@.plan_only,
    {
        self.plan_only
    }

    /// Applies the effect to the given properties.
    pub fn apply(&self, props: &mut Props)
        requires
            old(props).wf(),
        ensures
            final(props).wf(),
            final(props)@ == effect_apply(self@.kind, old(props)@),
    {
        match &self.kind {
            EffectKind::Noop => {
                proof {
                    assert(old(props)@ =~= effect_apply(self@.kind, old(props)@));
                }
            },
            EffectKind::Assign(name, value) => {
                props.set(name.as_str(), value.clone());
            },
            EffectKind::Toggle(name) => {
                let cur = props.get(name.as_str());
                match cur {
                    None => {
                        props.set(name.as_str(), Value::Bool(true));
                    },
                    Some(Value::Bool(b)) => {
                        props.set(name.as_str(), Value::Bool(!b));
                    },
                    Some(_) => {
                        proof {
                            assert(old(props)@ =~= effect_apply(self@.kind, old(props)@));
                        }
                    },
                }
            },
            EffectKind::Arith(op, name, operand) => {
                let cur = props.get(name.as_str());
                match cur {
                    None => {
                        props.set(name.as_str(), Value::Int(arith_exec(*op, 0, *operand)));
                    },
                    Some(Value::Int(i)) => {
                        props.set(name.as_str(), Value::Int(arith_exec(*op, i, *operand)));
                    },
                    Some(_) => {
                        proof {
                            assert(old(props)@ =~= effect_apply(self@.kind, old(props)@));
                        }
                    },
                }
            },
        }
    }

    /// Shortcut for creating an effect that sets a property.
    pub fn set(name: &str, value: Value) -> (r: Self)
        ensures
            r@ == (EffectModel { kind: EffectKindModel::Assign(name@, value@), plan_only: false }),
    {
        Effect { kind: EffectKind::Assign(name.to_owned(), value), plan_only: false }
    }

    /// Shortcut for creating an effect that toggles a boolean property.
    /// If the property didn't exist before, it will be initialized to `true`.
    pub fn toggle(name: &str) -> (r: Self)
        ensures
            r@ == (EffectModel { kind: EffectKindModel::Toggle(name@), plan_only: false }),
    {
        Effect { kind: EffectKind::Toggle(name.to_owned()), plan_only: false }
    }

    /// Shortcut for creating an effect that increments a numeric property.
    /// If the property didn't exist before, it will be initialized to `value`.
    pub fn inc(name: &str, value: i64) -> (r: Self)
        ensures
            r@ == (EffectModel {
                kind: EffectKindModel::Arith(ArithOp::Add, name@, value),
                plan_only: false,
            }),
    {
        Self::mutate(name, value, ArithOp::Add)
    }

    /// Shortcut for creating an effect that decrements a numeric property.
    /// If the property didn't exist before, it will be initialized to
    /// `-value`.
    pub fn dec(name: &str, value: i64) -> (r: Self)
        ensures
            r@ == (EffectModel {
                kind: EffectKindModel::Arith(ArithOp::Sub, name@, value),
                plan_only: false,
            }),
    {
        Self::mutate(name, value, ArithOp::Sub)
    }

    /// Shortcut for creating an effect that multiplies a numeric property.
    /// If the property didn't exist before, it will be initialized to `0`.
    pub fn mul(name: &str, value: i64) -> (r: Self)
        ensures
            r@ == (EffectModel {
                kind: EffectKindModel::Arith(ArithOp::Mul, name@, value),
                plan_only: false,
            }),
    {
        Self::mutate(name, value, ArithOp::Mul)
    }

    /// Shortcut for creating an effect that divides a numeric property.
    /// If the property didn't exist before, it will be initialized to `0`.
    pub fn div(name: &str, value: i64) -> (r: Self)
        ensures
            r@ == (EffectModel {
                kind: EffectKindModel::Arith(ArithOp::Div, name@, value),
                plan_only: false,
            }),
    {
        Self::mutate(name, value, ArithOp::Div)
    }

    /// Shortcut for creating an effect that modifies a property based on a
    /// value.
    pub fn mutate(name: &str, value: i64, op: ArithOp) -> (r: Self)
        ensures
            r@ == (EffectModel {
                kind: EffectKindModel::Arith(op, name@, value),
                plan_only: false,
            }),
    {
        Effect { kind: EffectKind::Arith(op, name.to_owned(), value), plan_only: false }
    }

    /// Shortcut for creating an effect that does nothing. This is equivalent
    /// to just not attaching an effect at all.
    pub fn noop() -> (r: Self)
        ensures
            r@ == (EffectModel { kind: EffectKindModel::Noop, plan_only: false }),
    {
        Effect { kind: EffectKind::Noop, plan_only: false }
    }
}

/// Combines integer `i` with operand `v` under `op`.
fn arith_exec(op: ArithOp, i: i64, v: i64) -> (r: i64)
    ensures
        r == arith_result(op, i, v),
{
    match op {
        ArithOp::Add => i.wrapping_add(v),
        ArithOp::Sub => i.wrapping_sub(v),
        ArithOp::Mul => i.wrapping_mul(v),
        ArithOp::Div => {
            if v == 0 {
                i
            } else {
                match i.checked_div(v) {
                    Some(q) => q,
                    None => i,
                }
            }
        },
    }
}

impl Clone for Effect {
    fn clone(&self) -> (r: Self)
        ensures
            r@ == self@,
    {
        Effect {
            kind: match &self.kind {
                EffectKind::Noop => EffectKind::Noop,
                EffectKind::Assign(name, value) => EffectKind::Assign(name.clone(), value.clone()),
                EffectKind::Toggle(name) => EffectKind::Toggle(name.clone()),
                EffectKind::Arith(op, name, operand) => EffectKind::Arith(
                    *op,
                    name.clone(),
                    *operand,
                ),
            },
            plan_only: self.plan_only,
        }
    }
}

} // verus!
