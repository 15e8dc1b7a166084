use starlark_bridge::error::BridgeError;
use starlark_bridge::namespace::Namespace;
use starlark_bridge::value::{HostCallableRef, Value};

#[test]
fn new_namespace_is_empty() {
    let ns = Namespace::new();
    assert_eq!(ns.len(), 0);
    assert_eq!(ns.get("x"), None);
}

#[test]
fn set_then_get() {
    let mut ns = Namespace::new();
    assert_eq!(ns.set("x", Value::Int(3)), Ok(()));
    assert_eq!(ns.get("x"), Some(&Value::Int(3)));
    assert_eq!(ns.get("y"), None);
    assert_eq!(ns.get(""), None);
}

#[test]
fn set_again_takes_the_new_value_at_the_old_place() {
    let mut ns = Namespace::new();
    ns.set("a", Value::Int(1)).unwrap();
    ns.set("b", Value::Int(2)).unwrap();
    ns.set("a", Value::Str("again".to_string())).unwrap();
    assert_eq!(ns.len(), 2);
    assert_eq!(ns.name_at(0), "a");
    assert_eq!(ns.value_at(0), &Value::Str("again".to_string()));
    assert_eq!(ns.name_at(1), "b");
    assert_eq!(ns.value_at(1), &Value::Int(2));
    assert_eq!(ns.get("b"), Some(&Value::Int(2)));
}

#[test]
fn add_callable_binds_the_function() {
    let mut ns = Namespace::new();
    ns.add_callable("add_one", HostCallableRef { handle: 17 });
    assert_eq!(ns.get("add_one"), Some(&Value::Callable(HostCallableRef { handle: 17 })));
    ns.add_callable("add_one", HostCallableRef { handle: 18 });
    assert_eq!(ns.len(), 1);
    assert_eq!(ns.get("add_one"), Some(&Value::Callable(HostCallableRef { handle: 18 })));
}

#[test]
fn freeze_hands_over_what_was_built() {
    let mut ns = Namespace::new();
    ns.set("x", Value::Int(1)).unwrap();
    ns.set("y", Value::List(vec![Value::Bool(true)])).unwrap();
    let frozen = ns.freeze();
    assert_eq!(frozen.len(), 2);
    assert_eq!(frozen.get("x"), Some(&Value::Int(1)));
    assert_eq!(frozen.get("y"), Some(&Value::List(vec![Value::Bool(true)])));
    assert_eq!(frozen.name_at(0), "x");
    assert_eq!(frozen.value_at(1), &Value::List(vec![Value::Bool(true)]));
    assert_eq!(frozen.get("z"), None);
}

#[test]
fn freeze_leaves_a_fresh_namespace_behind() {
    let mut ns = Namespace::new();
    ns.set("x", Value::Int(1)).unwrap();
    let frozen = ns.freeze();
    assert_eq!(ns.len(), 0);
    assert_eq!(ns.get("x"), None);
    assert_eq!(ns.set("x", Value::Int(2)), Ok(()));
    assert_eq!(ns.set("y", Value::Int(3)), Ok(()));
    assert_eq!(ns.get("x"), Some(&Value::Int(2)));
    assert_eq!(frozen.get("x"), Some(&Value::Int(1)));
    assert_eq!(frozen.get("y"), None);
    assert_eq!(frozen.len(), 1);
}

#[test]
fn second_freeze_freezes_the_replacement() {
    let mut ns = Namespace::new();
    ns.set("x", Value::Int(1)).unwrap();
    let first = ns.freeze();
    let second = ns.freeze();
    assert_eq!(first.len(), 1);
    assert_eq!(second.len(), 0);
    ns.set("z", Value::NoneValue).unwrap();
    let third = ns.freeze();
    assert_eq!(third.get("z"), Some(&Value::NoneValue));
    assert_eq!(first.get("z"), None);
}

#[test]
fn frozen_namespace_takes_no_binding() {
    let mut ns = Namespace::new();
    ns.set("x", Value::Int(1)).unwrap();
    let frozen = ns.freeze();
    assert_eq!(frozen.set("x", Value::Int(2)), Err(BridgeError::FrozenViolation));
    assert_eq!(frozen.set("new", Value::Int(2)), Err(BridgeError::FrozenViolation));
    assert_eq!(frozen.get("x"), Some(&Value::Int(1)));
    assert_eq!(frozen.get("new"), None);
    assert_eq!(frozen.len(), 1);
}

#[test]
fn absorb_sets_the_bindings_in_order() {
    let mut ns = Namespace::new();
    ns.set("kept", Value::Int(0)).unwrap();
    ns.set("x", Value::Int(1)).unwrap();
    ns.absorb(vec![
        ("y".to_string(), Value::Int(2)),
        ("x".to_string(), Value::Int(3)),
        ("z".to_string(), Value::Str("last".to_string())),
        ("y".to_string(), Value::Int(4)),
    ]);
    assert_eq!(ns.len(), 4);
    assert_eq!(ns.name_at(0), "kept");
    assert_eq!(ns.name_at(1), "x");
    assert_eq!(ns.name_at(2), "y");
    assert_eq!(ns.name_at(3), "z");
    assert_eq!(ns.get("kept"), Some(&Value::Int(0)));
    assert_eq!(ns.get("x"), Some(&Value::Int(3)));
    assert_eq!(ns.get("y"), Some(&Value::Int(4)));
    assert_eq!(ns.get("z"), Some(&Value::Str("last".to_string())));
}

#[test]
fn absorb_of_nothing_changes_nothing() {
    let mut ns = Namespace::new();
    ns.set("x", Value::Int(1)).unwrap();
    ns.absorb(vec![]);
    assert_eq!(ns.len(), 1);
    assert_eq!(ns.get("x"), Some(&Value::Int(1)));
}
