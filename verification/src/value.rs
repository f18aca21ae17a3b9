//! The typed scalar values held by a property store: booleans, integers and
//! strings, together with their comparison semantics.

use vstd::prelude::*;

verus! {

/// A typed scalar property value.
pub enum Value {
    /// A boolean flag.
    Bool(bool),
    /// A signed integer.
    Int(i64),
    /// A text value, compared case-sensitively.
    Str(String),
}

/// The mathematical model of a [`Value`]: the same variants, with text as a
/// character sequence.
pub enum ValueModel {
    Bool(bool),
    Int(i64),
    Str(Seq<char>),
}

impl View for Value {
    type V = ValueModel;

    open spec fn view(&self) -> ValueModel {
        match self {
            Value::Bool(b) => ValueModel::Bool(*b),
            Value::Int(i) => ValueModel::Int(*i),
            Value::Str(s) => ValueModel::Str(s@),
        }
    }
}

/// Lexicographic ordering of two character sequences, deciding at the first
/// position where they differ; a strict prefix sorts before the longer text.
pub open spec fn str_cmp(a: Seq<char>, b: Seq<char>) -> core::cmp::Ordering
    decreases a.len(),
{
    if a.len() == 0 && b.len() == 0 {
        core::cmp::Ordering::Equal
    } else if a.len() == 0 {
        core::cmp::Ordering::Less
    } else if b.len() == 0 {
        core::cmp::Ordering::Greater
    } else if (a[0] as u32) < (b[0] as u32) {
        core::cmp::Ordering::Less
    } else if (a[0] as u32) > (b[0] as u32) {
        core::cmp::Ordering::Greater
    } else {
        str_cmp(a.skip(1), b.skip(1))
    }
}

/// Comparison of two values: values of different variants are incomparable,
/// values of the same variant compare by their variant's native order
/// (`false < true`, integer order, lexicographic text order).
pub open spec fn value_cmp(a: ValueModel, b: ValueModel) -> Option<core::cmp::Ordering> {
    match (a, b) {
        (ValueModel::Bool(x), ValueModel::Bool(y)) => {
            if x == y {
                Some(core::cmp::Ordering::Equal)
            } else if !x {
                Some(core::cmp::Ordering::Less)
            } else {
                Some(core::cmp::Ordering::Greater)
            }
        },
        (ValueModel::Int(x), ValueModel::Int(y)) => {
            if x < y {
                Some(core::cmp::Ordering::Less)
            } else if x > y {
                Some(core::cmp::Ordering::Greater)
            } else {
                Some(core::cmp::Ordering::Equal)
            }
        },
        (ValueModel::Str(x), ValueModel::Str(y)) => Some(str_cmp(x, y)),
        _ => None,
    }
}

/// Equality of two values: same variant and same content.
pub open spec fn value_eq(a: ValueModel, b: ValueModel) -> bool {
    a == b
}

impl Clone for Value {
    fn clone(&self) -> (r: Self)
        ensures
            r@ == self@,
    {
        match self {
            Value::Bool(b) => Value::Bool(*b),
            Value::Int(i) => Value::Int(*i),
            Value::Str(s) => Value::Str(s.clone()),
        }
    }
}

proof fn lemma_str_cmp_equal(a: Seq<char>, b: Seq<char>)
    ensures
        str_cmp(a, b) == core::cmp::Ordering::Equal <==> a == b,
    decreases a.len(),
{
    if a.len() == 0 && b.len() == 0 {
        assert(a =~= b);
    } else if a.len() == 0 || b.len() == 0 {
        assert(a != b);
    } else if (a[0] as u32) == (b[0] as u32) {
        lemma_str_cmp_equal(a.skip(1), b.skip(1));
        vstd::utf8::char_u32_cast(a[0], a[0] as u32);
        vstd::utf8::char_u32_cast(b[0], b[0] as u32);
        if a.skip(1) == b.skip(1) && a[0] == b[0] {
            assert forall|i: int| 0 <= i < a.len() implies a[i] == b[i] by {
                if i > 0 {
                    assert(a.skip(1)[i - 1] == a[i]);
                    assert(b.skip(1)[i - 1] == b[i]);
                }
            }
            assert(a =~= b);
        }
        if a == b {
            assert(a.skip(1) =~= b.skip(1));
        }
    } else {
        assert(a != b);
    }
}

impl Value {
    /// Compares two values, with incompatible variants incomparable.
    pub fn compare(&self, other: &Value) -> (r: Option<core::cmp::Ordering>)
        ensures
            r == value_cmp(self@, other@),
    {
        match (self, other) {
            (Value::Bool(x), Value::Bool(y)) => {
                if *x == *y {
                    Some(core::cmp::Ordering::Equal)
                } else if !*x {
                    Some(core::cmp::Ordering::Less)
                } else {
                    Some(core::cmp::Ordering::Greater)
                }
            },
            (Value::Int(x), Value::Int(y)) => {
                if *x < *y {
                    Some(core::cmp::Ordering::Less)
                } else if *x > *y {
                    Some(core::cmp::Ordering::Greater)
                } else {
                    Some(core::cmp::Ordering::Equal)
                }
            },
            (Value::Str(x), Value::Str(y)) => Some(str_cmp_exec(x.as_str(), y.as_str())),
            _ => None,
        }
    }

    /// Tests two values for equality: same variant and same content.
    pub fn equal_to(&self, other: &Value) -> (r: bool)
        ensures
            r == value_eq(self@, other@),
    {
        match (self, other) {
            (Value::Bool(x), Value::Bool(y)) => *x == *y,
            (Value::Int(x), Value::Int(y)) => *x == *y,
            (Value::Str(x), Value::Str(y)) => {
                let r = str_cmp_exec(x.as_str(), y.as_str());
                proof {
                    lemma_str_cmp_equal(x@, y@);
                }
                matches!(r, core::cmp::Ordering::Equal)
            },
            _ => false,
        }
    }
}

/// Equality of two text values, by content.
pub(crate) fn str_eq(a: &str, b: &str) -> (r: bool)
    ensures
        r == (a@ == b@),
{
    let r = str_cmp_exec(a, b);
    proof {
        lemma_str_cmp_equal(a@, b@);
    }
    matches!(r, core::cmp::Ordering::Equal)
}

fn str_cmp_from(a: &str, b: &str, i: usize) -> (r: core::cmp::Ordering)
    requires
        i <= a@.len(),
        i <= b@.len(),
    ensures
        r == str_cmp(a@.skip(i as int), b@.skip(i as int)),
    decreases a@.len() - i,
{
    let a_len = a.unicode_len();
    let b_len = b.unicode_len();
    proof {
        assert(a@.skip(i as int).len() == a@.len() - i);
        assert(b@.skip(i as int).len() == b@.len() - i);
    }
    if i >= a_len && i >= b_len {
        core::cmp::Ordering::Equal
    } else if i >= a_len {
        core::cmp::Ordering::Less
    } else if i >= b_len {
        core::cmp::Ordering::Greater
    } else {
        let ca = a.get_char(i);
        let cb = b.get_char(i);
        proof {
            assert(a@.skip(i as int)[0] == a@[i as int]);
            assert(b@.skip(i as int)[0] == b@[i as int]);
        }
        if (ca as u32) < (cb as u32) {
            core::cmp::Ordering::Less
        } else if (ca as u32) > (cb as u32) {
            core::cmp::Ordering::Greater
        } else {
            let r = str_cmp_from(a, b, i + 1);
            proof {
                assert(a@.skip(i as int).skip(1) =~= a@.skip(i + 1 as int));
                assert(b@.skip(i as int).skip(1) =~= b@.skip(i + 1 as int));
            }
            r
        }
    }
}

/// Lexicographic comparison of two text values, character by character.
fn str_cmp_exec(a: &str, b: &str) -> (r: core::cmp::Ordering)
    ensures
        r == str_cmp(a@, b@),
{
    let r = str_cmp_from(a, b, 0);
    proof {
        assert(a@.skip(0) =~= a@);
        assert(b@.skip(0) =~= b@);
    }
    r
}

} // verus!
