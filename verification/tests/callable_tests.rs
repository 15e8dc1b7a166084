use starlark_bridge::callable::HostCall;
use starlark_bridge::codec::{from_canonical, to_canonical, CanonicalValue};
use starlark_bridge::decimal::make_decimal;
use starlark_bridge::error::BridgeError;
use starlark_bridge::diagnostics::{ResolvedFileSpan, ResolvedPos, ResolvedSpan};
use starlark_bridge::evaluation::{conclude, load, EvalFailure};
use starlark_bridge::namespace::{FrozenNamespace, Namespace};
use starlark_bridge::value::{HostCallableRef, Value};

fn text(s: &str) -> String {
    s.to_string()
}

#[test]
fn call_is_prepared_from_its_arguments() {
    let f = HostCallableRef { handle: 5 };
    let positional = vec![Value::Int(41), Value::Tuple(vec![Value::Str(text("a"))])];
    let named = vec![(text("scale"), Value::Float(2.0f64.to_bits())), (text("flag"), Value::Bool(true))];
    let call = f.prepare_call(&positional, &named).unwrap();
    assert_eq!(
        call,
        HostCall {
            callable: f,
            args: vec![
                CanonicalValue::Int(41),
                CanonicalValue::Sequence(vec![CanonicalValue::Str(text("a"))]),
            ],
            kwargs: vec![
                (text("scale"), CanonicalValue::Float(2.0f64.to_bits())),
                (text("flag"), CanonicalValue::Bool(true)),
            ],
        }
    );
}

#[test]
fn call_without_arguments() {
    let f = HostCallableRef { handle: 0 };
    let call = f.prepare_call(&vec![], &vec![]).unwrap();
    assert_eq!(call, HostCall { callable: f, args: vec![], kwargs: vec![] });
}

#[test]
fn argument_without_a_canonical_form_fails_the_call() {
    let f = HostCallableRef { handle: 5 };
    let d = make_decimal(&Value::Int(1)).unwrap();
    let got = f.prepare_call(&vec![Value::Int(1), d], &vec![(text("k"), Value::Other(text("function")))]);
    assert_eq!(got, Err(BridgeError::Unrepresentable { kind: text("rust_decimal") }));
    let got = f.prepare_call(
        &vec![Value::Int(1)],
        &vec![(text("a"), Value::Int(1)), (text("k"), Value::Other(text("function")))],
    );
    assert_eq!(got, Err(BridgeError::Unrepresentable { kind: text("function") }));
}

#[test]
fn named_argument_given_twice_keeps_the_later_value() {
    let f = HostCallableRef { handle: 1 };
    let named = vec![(text("a"), Value::Int(1)), (text("b"), Value::Int(2)), (text("a"), Value::Int(3))];
    let call = f.prepare_call(&vec![], &named).unwrap();
    assert_eq!(call.kwargs, vec![(text("a"), CanonicalValue::Int(3)), (text("b"), CanonicalValue::Int(2))]);
}

#[test]
fn result_of_the_host_comes_back_as_a_value() {
    let got = HostCallableRef::complete_call(Ok(CanonicalValue::Sequence(vec![CanonicalValue::Int(42)])));
    assert_eq!(got, Ok(Value::List(vec![Value::Int(42)])));
}

#[test]
fn exception_of_the_host_comes_back_with_its_message() {
    let got = HostCallableRef::complete_call(Err(text("ValueError: no")));
    assert_eq!(got, Err(BridgeError::Host { message: text("ValueError: no") }));
}

#[test]
fn result_that_cannot_be_decoded_fails_the_call() {
    let got = HostCallableRef::complete_call(Ok(CanonicalValue::Int(-(1i128 << 70))));
    assert_eq!(
        got,
        Err(BridgeError::UnrepresentableNumber { text: text("-1180591620717411303424") })
    );
}

#[test]
fn host_callable_adds_one() {
    let add_one = |call: &HostCall| -> Result<CanonicalValue, String> {
        match call.args.as_slice() {
            [CanonicalValue::Int(n)] => Ok(CanonicalValue::Int(n + 1)),
            _ => Err(text("TypeError: add_one takes one integer")),
        }
    };
    let mut ns = Namespace::new();
    ns.add_callable("add_one", HostCallableRef { handle: 1 });
    let f = match ns.get("add_one") {
        Some(Value::Callable(f)) => *f,
        other => panic!("no callable: {:?}", other),
    };
    let call = f.prepare_call(&vec![Value::Int(41)], &vec![]).unwrap();
    assert_eq!(call.callable.handle, 1);
    let y = HostCallableRef::complete_call(add_one(&call)).unwrap();
    ns.set("y", y).unwrap();
    assert_eq!(to_canonical(ns.get("y").unwrap()), Ok(CanonicalValue::Int(42)));

    let bad = f.prepare_call(&vec![Value::Str(text("x"))], &vec![]).unwrap();
    assert_eq!(
        HostCallableRef::complete_call(add_one(&bad)),
        Err(BridgeError::Host { message: text("TypeError: add_one takes one integer") })
    );
}

#[test]
fn evaluation_hands_its_value_to_the_host() {
    assert_eq!(conclude(Ok(Value::Int(3))), Ok(CanonicalValue::Int(3)));
    assert_eq!(conclude(Ok(Value::NoneValue)), Ok(CanonicalValue::Null));
    assert_eq!(
        conclude(Ok(Value::Other(text("function")))),
        Err(BridgeError::Unrepresentable { kind: text("function") })
    );
}

#[test]
fn failed_evaluation_is_an_error_with_the_message() {
    assert_eq!(
        conclude(Err(EvalFailure { message: text("error: Variable `q` not found"), span: None })),
        Err(BridgeError::Eval { message: text("error: Variable `q` not found"), span: None })
    );
    let place = ResolvedFileSpan {
        file: text("t.star"),
        span: ResolvedSpan {
            begin: ResolvedPos { line: 0, column: 4 },
            end: ResolvedPos { line: 0, column: 5 },
        },
    };
    let failed = conclude(Err(EvalFailure { message: text("boom"), span: Some(place.clone()) }));
    assert_eq!(failed, Err(BridgeError::Eval { message: text("boom"), span: Some(place.clone()) }));
    assert_eq!(failed.unwrap_err().span().unwrap().to_text(), "t.star:1:5-6");
}

#[test]
fn load_hands_the_frozen_namespace_on() {
    let mut ns = Namespace::new();
    ns.set("exported", Value::Int(1)).unwrap();
    let frozen = ns.freeze();
    let loaded = load("lib.star", Ok(frozen)).unwrap();
    assert_eq!(loaded.get("exported"), Some(&Value::Int(1)));
}

#[test]
fn failed_load_names_the_path() {
    let got = load::<FrozenNamespace>("missing.star", Err(text("KeyError: 'missing.star'")));
    assert_eq!(
        got,
        Err(BridgeError::Load { path: text("missing.star"), message: text("KeyError: 'missing.star'") })
    );
}

#[test]
fn value_that_came_from_the_host_goes_back_unchanged() {
    let c = CanonicalValue::Mapping(vec![(text("k"), CanonicalValue::Sequence(vec![CanonicalValue::Int(1)]))]);
    let v = from_canonical(&c).unwrap();
    assert_eq!(conclude(Ok(v)), Ok(c));
}
