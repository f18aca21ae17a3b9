use bae::condition::{AlwaysTrue, CmpOp, Condition};
use bae::effect::{ArithOp, Effect};
use bae::props::Props;
use bae::value::Value;

#[test]
fn get_and_set_round_trip() {
    let mut props = Props::new();
    assert!(props.get("health").is_none());
    props.set("health", Value::Int(100));
    assert!(matches!(props.get("health"), Some(Value::Int(100))));
    props.set("health", Value::Int(80));
    assert!(matches!(props.get("health"), Some(Value::Int(80))));
}

#[test]
fn get_or_default_materializes_once() {
    let mut props = Props::new();
    let first = props.get_or_default("name", Value::Str("unknown".to_string()));
    assert!(matches!(first, Value::Str(s) if s == "unknown"));
    props.set("name", Value::Str("scout".to_string()));
    let second = props.get_or_default("name", Value::Str("unknown".to_string()));
    assert!(matches!(second, Value::Str(s) if s == "scout"));
}

#[test]
fn condition_read_materializes_typed_default() {
    let mut props = Props::new();
    let cond = Condition::eq("can_see_enemy", Value::Bool(true));
    assert!(!cond.is_fullfilled(&mut props));
    assert!(matches!(props.get("can_see_enemy"), Some(Value::Bool(false))));

    let zero = Condition::eq("count", Value::Int(0));
    assert!(zero.is_fullfilled(&mut props));
    assert!(matches!(props.get("count"), Some(Value::Int(0))));
}

#[test]
fn comparisons_across_variants_are_not_ordered() {
    let mut props = Props::new();
    props.set("flag", Value::Bool(true));
    assert!(!Condition::gt("flag", Value::Int(0)).is_fullfilled(&mut props));
    assert!(!Condition::le("flag", Value::Int(0)).is_fullfilled(&mut props));
    assert!(!Condition::eq("flag", Value::Int(1)).is_fullfilled(&mut props));
    assert!(Condition::ne("flag", Value::Int(1)).is_fullfilled(&mut props));
}

#[test]
fn integer_comparisons() {
    let mut props = Props::new();
    props.set("health", Value::Int(50));
    assert!(Condition::gt("health", Value::Int(49)).is_fullfilled(&mut props));
    assert!(!Condition::gt("health", Value::Int(50)).is_fullfilled(&mut props));
    assert!(Condition::ge("health", Value::Int(50)).is_fullfilled(&mut props));
    assert!(Condition::lt("health", Value::Int(51)).is_fullfilled(&mut props));
    assert!(Condition::le("health", Value::Int(50)).is_fullfilled(&mut props));
    assert!(Condition::cmp("health", Value::Int(50), CmpOp::Eq).is_fullfilled(&mut props));
}

#[test]
fn text_comparisons_are_lexicographic() {
    let mut props = Props::new();
    props.set("location", Value::Str("bridge".to_string()));
    assert!(Condition::gt("location", Value::Str("apple".to_string())).is_fullfilled(&mut props));
    assert!(Condition::lt("location", Value::Str("cave".to_string())).is_fullfilled(&mut props));
    assert!(Condition::lt("location", Value::Str("bridges".to_string())).is_fullfilled(&mut props));
    assert!(Condition::eq("location", Value::Str("bridge".to_string())).is_fullfilled(&mut props));
}

#[test]
fn in_range_is_inclusive() {
    let mut props = Props::new();
    props.set("ammo", Value::Int(3));
    assert!(Condition::in_range("ammo", 3, 5).is_fullfilled(&mut props));
    assert!(Condition::in_range("ammo", 1, 3).is_fullfilled(&mut props));
    assert!(!Condition::in_range("ammo", 4, 9).is_fullfilled(&mut props));
    let mut empty = Props::new();
    assert!(Condition::in_range("ammo", 0, 1).is_fullfilled(&mut empty));
    assert!(matches!(empty.get("ammo"), Some(Value::Int(0))));
}

#[test]
fn always_true_and_false() {
    let mut props = Props::new();
    assert!(Condition::always_true().is_fullfilled(&mut props));
    assert!(!Condition::always_false().is_fullfilled(&mut props));
    let from_marker: Condition = AlwaysTrue.into();
    assert!(from_marker.is_fullfilled(&mut props));
}

#[test]
fn set_effect_stores_value() {
    let mut props = Props::new();
    Effect::set("location", Value::Str("enemy".to_string())).apply(&mut props);
    assert!(matches!(props.get("location"), Some(Value::Str(s)) if s == "enemy"));
}

#[test]
fn toggle_initializes_to_true_and_negates() {
    let mut props = Props::new();
    let toggle = Effect::toggle("alarm");
    toggle.apply(&mut props);
    assert!(matches!(props.get("alarm"), Some(Value::Bool(true))));
    toggle.apply(&mut props);
    assert!(matches!(props.get("alarm"), Some(Value::Bool(false))));
}

#[test]
fn arithmetic_effects_have_exact_results() {
    let mut props = Props::new();
    Effect::inc("gold", 5).apply(&mut props);
    assert!(matches!(props.get("gold"), Some(Value::Int(5))));
    Effect::inc("gold", 2).apply(&mut props);
    assert!(matches!(props.get("gold"), Some(Value::Int(7))));
    Effect::dec("gold", 3).apply(&mut props);
    assert!(matches!(props.get("gold"), Some(Value::Int(4))));
    Effect::mul("gold", 6).apply(&mut props);
    assert!(matches!(props.get("gold"), Some(Value::Int(24))));
    Effect::div("gold", 7).apply(&mut props);
    assert!(matches!(props.get("gold"), Some(Value::Int(3))));
}

#[test]
fn arithmetic_defaults_when_absent() {
    let mut props = Props::new();
    Effect::dec("debt", 4).apply(&mut props);
    assert!(matches!(props.get("debt"), Some(Value::Int(-4))));
    Effect::mul("scale", 9).apply(&mut props);
    assert!(matches!(props.get("scale"), Some(Value::Int(0))));
    Effect::div("ratio", 9).apply(&mut props);
    assert!(matches!(props.get("ratio"), Some(Value::Int(0))));
}

#[test]
fn division_by_zero_changes_nothing() {
    let mut props = Props::new();
    props.set("gold", Value::Int(42));
    Effect::div("gold", 0).apply(&mut props);
    assert!(matches!(props.get("gold"), Some(Value::Int(42))));
}

#[test]
fn addition_wraps_at_the_integer_boundary() {
    let mut props = Props::new();
    props.set("big", Value::Int(i64::MAX));
    Effect::inc("big", 1).apply(&mut props);
    assert!(matches!(props.get("big"), Some(Value::Int(i64::MIN))));
}

#[test]
fn mutate_builds_the_requested_operation() {
    let mut props = Props::new();
    props.set("gold", Value::Int(10));
    Effect::mutate("gold", 4, ArithOp::Sub).apply(&mut props);
    assert!(matches!(props.get("gold"), Some(Value::Int(6))));
}

#[test]
fn noop_effect_changes_nothing() {
    let mut props = Props::new();
    props.set("gold", Value::Int(10));
    Effect::noop().apply(&mut props);
    assert!(matches!(props.get("gold"), Some(Value::Int(10))));
    assert!(!Effect::noop().is_plan_only());
    assert!(Effect::noop().plan_only().is_plan_only());
}

#[test]
fn typed_effects_leave_mismatched_variants_alone() {
    let mut props = Props::new();
    props.set("name", Value::Str("scout".to_string()));
    Effect::toggle("name").apply(&mut props);
    assert!(matches!(props.get("name"), Some(Value::Str(s)) if s == "scout"));
    Effect::inc("name", 3).apply(&mut props);
    assert!(matches!(props.get("name"), Some(Value::Str(s)) if s == "scout"));
}
