use starlark_bridge::codec::{
    find_key, float_is_finite, from_canonical, items_to_canonical, to_canonical, CanonicalValue,
};
use starlark_bridge::decimal::make_decimal;
use starlark_bridge::error::BridgeError;
use starlark_bridge::value::{HostCallableRef, Value};

fn text(s: &str) -> String {
    s.to_string()
}

fn unrepresentable(kind: &str) -> BridgeError {
    BridgeError::Unrepresentable { kind: kind.to_string() }
}

#[test]
fn scalars_decode() {
    assert_eq!(from_canonical(&CanonicalValue::Null), Ok(Value::NoneValue));
    assert_eq!(from_canonical(&CanonicalValue::Bool(true)), Ok(Value::Bool(true)));
    assert_eq!(from_canonical(&CanonicalValue::Int(3)), Ok(Value::Int(3)));
    assert_eq!(
        from_canonical(&CanonicalValue::Float(2.5f64.to_bits())),
        Ok(Value::Float(2.5f64.to_bits()))
    );
    assert_eq!(from_canonical(&CanonicalValue::Str(text("héllo"))), Ok(Value::Str(text("héllo"))));
}

#[test]
fn unsigned_integers_of_64_bits_decode_as_integers() {
    assert_eq!(from_canonical(&CanonicalValue::Int(0)), Ok(Value::Int(0)));
    let largest = u64::MAX as i128;
    assert_eq!(from_canonical(&CanonicalValue::Int(largest)), Ok(Value::Int(largest)));
}

#[test]
fn negative_integers_decode_as_doubles() {
    assert_eq!(from_canonical(&CanonicalValue::Int(-5)), Ok(Value::Float((-5.0f64).to_bits())));
    assert_eq!(
        from_canonical(&CanonicalValue::Int(i64::MIN as i128)),
        Ok(Value::Float((i64::MIN as f64).to_bits()))
    );
    assert_eq!(
        from_canonical(&CanonicalValue::Int(-9_007_199_254_740_993)),
        Ok(Value::Float((-9_007_199_254_740_993i64 as f64).to_bits()))
    );
}

#[test]
fn integers_out_of_range_are_unrepresentable() {
    assert_eq!(
        from_canonical(&CanonicalValue::Int(u64::MAX as i128 + 1)),
        Err(BridgeError::UnrepresentableNumber { text: text("18446744073709551616") })
    );
    assert_eq!(
        from_canonical(&CanonicalValue::Int(i64::MIN as i128 - 1)),
        Err(BridgeError::UnrepresentableNumber { text: text("-9223372036854775809") })
    );
}

#[test]
fn sequences_decode_item_by_item() {
    let c = CanonicalValue::Sequence(vec![
        CanonicalValue::Int(1),
        CanonicalValue::Sequence(vec![CanonicalValue::Null, CanonicalValue::Str(text("a"))]),
        CanonicalValue::Bool(false),
    ]);
    let v = Value::List(vec![
        Value::Int(1),
        Value::List(vec![Value::NoneValue, Value::Str(text("a"))]),
        Value::Bool(false),
    ]);
    assert_eq!(from_canonical(&c), Ok(v));
    assert_eq!(from_canonical(&CanonicalValue::Sequence(vec![])), Ok(Value::List(vec![])));
}

#[test]
fn first_failure_in_a_sequence_is_the_failure() {
    let c = CanonicalValue::Sequence(vec![
        CanonicalValue::Int(1),
        CanonicalValue::Int(u64::MAX as i128 + 2),
        CanonicalValue::Int(u64::MAX as i128 + 3),
    ]);
    assert_eq!(
        from_canonical(&c),
        Err(BridgeError::UnrepresentableNumber { text: text("18446744073709551617") })
    );
}

#[test]
fn mappings_decode_in_order() {
    let c = CanonicalValue::Mapping(vec![
        (text("b"), CanonicalValue::Int(2)),
        (text("a"), CanonicalValue::Int(1)),
        (text("c"), CanonicalValue::Sequence(vec![])),
    ]);
    let v = Value::Dict(vec![
        (Value::Str(text("b")), Value::Int(2)),
        (Value::Str(text("a")), Value::Int(1)),
        (Value::Str(text("c")), Value::List(vec![])),
    ]);
    assert_eq!(from_canonical(&c), Ok(v));
}

#[test]
fn later_value_takes_the_place_of_an_earlier_key() {
    let c = CanonicalValue::Mapping(vec![
        (text("k"), CanonicalValue::Int(1)),
        (text("other"), CanonicalValue::Int(2)),
        (text("k"), CanonicalValue::Int(3)),
    ]);
    let v = Value::Dict(vec![
        (Value::Str(text("k")), Value::Int(3)),
        (Value::Str(text("other")), Value::Int(2)),
    ]);
    assert_eq!(from_canonical(&c), Ok(v));
}

#[test]
fn scalars_encode() {
    assert_eq!(to_canonical(&Value::NoneValue), Ok(CanonicalValue::Null));
    assert_eq!(to_canonical(&Value::Bool(false)), Ok(CanonicalValue::Bool(false)));
    assert_eq!(to_canonical(&Value::Int(-7)), Ok(CanonicalValue::Int(-7)));
    assert_eq!(to_canonical(&Value::Int(i128::MAX)), Ok(CanonicalValue::Int(i128::MAX)));
    assert_eq!(to_canonical(&Value::Str(text("x"))), Ok(CanonicalValue::Str(text("x"))));
    assert_eq!(
        to_canonical(&Value::Float(0.1f64.to_bits())),
        Ok(CanonicalValue::Float(0.1f64.to_bits()))
    );
}

#[test]
fn doubles_that_are_not_finite_encode_as_null() {
    assert_eq!(to_canonical(&Value::Float(f64::NAN.to_bits())), Ok(CanonicalValue::Null));
    assert_eq!(to_canonical(&Value::Float(f64::INFINITY.to_bits())), Ok(CanonicalValue::Null));
    assert_eq!(to_canonical(&Value::Float(f64::NEG_INFINITY.to_bits())), Ok(CanonicalValue::Null));
    assert_eq!(
        to_canonical(&Value::Float(f64::MAX.to_bits())),
        Ok(CanonicalValue::Float(f64::MAX.to_bits()))
    );
}

#[test]
fn finite_doubles_by_their_bits() {
    assert!(float_is_finite(0.0f64.to_bits()));
    assert!(float_is_finite((-0.0f64).to_bits()));
    assert!(float_is_finite(f64::MIN_POSITIVE.to_bits()));
    assert!(float_is_finite(f64::MAX.to_bits()));
    assert!(float_is_finite(f64::MIN.to_bits()));
    assert!(!float_is_finite(f64::NAN.to_bits()));
    assert!(!float_is_finite(f64::INFINITY.to_bits()));
    assert!(!float_is_finite(f64::NEG_INFINITY.to_bits()));
    assert!(!float_is_finite(0x7ff0_0000_0000_0001));
    assert!(!float_is_finite(0xfff8_0000_0000_0000));
}

#[test]
fn lists_and_tuples_encode_as_sequences() {
    let items = || vec![Value::Int(1), Value::Str(text("two")), Value::NoneValue];
    let c = CanonicalValue::Sequence(vec![
        CanonicalValue::Int(1),
        CanonicalValue::Str(text("two")),
        CanonicalValue::Null,
    ]);
    assert_eq!(to_canonical(&Value::List(items())).as_ref(), Ok(&c));
    assert_eq!(to_canonical(&Value::Tuple(items())).as_ref(), Ok(&c));
    assert_eq!(
        items_to_canonical(&items()),
        Ok(vec![CanonicalValue::Int(1), CanonicalValue::Str(text("two")), CanonicalValue::Null])
    );
}

#[test]
fn dictionary_keys_become_strings() {
    let v = Value::Dict(vec![
        (Value::Str(text("s")), Value::Int(1)),
        (Value::Int(-12), Value::Int(2)),
        (Value::Bool(true), Value::Int(3)),
        (Value::Bool(false), Value::Int(4)),
    ]);
    let c = CanonicalValue::Mapping(vec![
        (text("s"), CanonicalValue::Int(1)),
        (text("-12"), CanonicalValue::Int(2)),
        (text("true"), CanonicalValue::Int(3)),
        (text("false"), CanonicalValue::Int(4)),
    ]);
    assert_eq!(to_canonical(&v), Ok(c));
}

#[test]
fn keys_that_become_the_same_string_are_one_key() {
    let v = Value::Dict(vec![
        (Value::Int(1), Value::Str(text("first"))),
        (Value::Str(text("x")), Value::NoneValue),
        (Value::Str(text("1")), Value::Str(text("second"))),
    ]);
    let c = CanonicalValue::Mapping(vec![
        (text("1"), CanonicalValue::Str(text("second"))),
        (text("x"), CanonicalValue::Null),
    ]);
    assert_eq!(to_canonical(&v), Ok(c));
}

#[test]
fn other_keys_have_no_canonical_form() {
    let v = Value::Dict(vec![(Value::NoneValue, Value::Int(1))]);
    assert_eq!(to_canonical(&v), Err(unrepresentable("NoneType")));
    let v = Value::Dict(vec![(Value::Float(1.5f64.to_bits()), Value::Int(1))]);
    assert_eq!(to_canonical(&v), Err(unrepresentable("float")));
    let v = Value::Dict(vec![(Value::Tuple(vec![]), Value::Int(1))]);
    assert_eq!(to_canonical(&v), Err(unrepresentable("tuple")));
}

#[test]
fn key_fails_before_its_value() {
    let v = Value::Dict(vec![(Value::NoneValue, Value::Callable(HostCallableRef { handle: 3 }))]);
    assert_eq!(to_canonical(&v), Err(unrepresentable("NoneType")));
}

#[test]
fn decimals_and_callables_have_no_canonical_form() {
    let d = make_decimal(&Value::Int(1)).unwrap();
    assert_eq!(to_canonical(&d), Err(unrepresentable("rust_decimal")));
    assert_eq!(
        to_canonical(&Value::Callable(HostCallableRef { handle: 9 })),
        Err(unrepresentable("python_callable_value"))
    );
    assert_eq!(to_canonical(&Value::Other(text("function"))), Err(unrepresentable("function")));
}

#[test]
fn first_value_without_a_canonical_form_fails_the_container() {
    let v = Value::List(vec![
        Value::Int(1),
        Value::Other(text("struct")),
        Value::Callable(HostCallableRef { handle: 0 }),
    ]);
    assert_eq!(to_canonical(&v), Err(unrepresentable("struct")));
    let nested = Value::Dict(vec![(
        Value::Str(text("k")),
        Value::Tuple(vec![make_decimal(&Value::Int(2)).unwrap()]),
    )]);
    assert_eq!(to_canonical(&nested), Err(unrepresentable("rust_decimal")));
}

fn sample() -> CanonicalValue {
    CanonicalValue::Mapping(vec![
        (text("name"), CanonicalValue::Str(text("bridge"))),
        (text("count"), CanonicalValue::Int(u64::MAX as i128)),
        (text("ratio"), CanonicalValue::Float(0.25f64.to_bits())),
        (
            text("items"),
            CanonicalValue::Sequence(vec![
                CanonicalValue::Null,
                CanonicalValue::Bool(true),
                CanonicalValue::Mapping(vec![(text("deep"), CanonicalValue::Sequence(vec![]))]),
            ]),
        ),
        (text(""), CanonicalValue::Int(0)),
    ])
}

#[test]
fn round_trip_reproduces_the_value() {
    let v = from_canonical(&sample()).unwrap();
    let host = to_canonical(&v).unwrap();
    assert_eq!(host, sample());
    assert_eq!(from_canonical(&host), Ok(v));
}

#[test]
fn round_trip_of_a_negative_integer_is_up_to_its_double() {
    let v = from_canonical(&CanonicalValue::Int(-3)).unwrap();
    let host = to_canonical(&v).unwrap();
    assert_eq!(host, CanonicalValue::Float((-3.0f64).to_bits()));
    assert_eq!(from_canonical(&host), Ok(v));
}

#[test]
fn find_key_gives_the_first_place() {
    let entries = vec![
        (text("a"), CanonicalValue::Int(1)),
        (text("b"), CanonicalValue::Int(2)),
        (text("a"), CanonicalValue::Int(3)),
    ];
    assert_eq!(find_key(&entries, &text("a")), Some(0));
    assert_eq!(find_key(&entries, &text("b")), Some(1));
    assert_eq!(find_key(&entries, &text("c")), None);
    assert_eq!(find_key(&vec![], &text("a")), None);
}

#[test]
fn type_names() {
    assert_eq!(Value::NoneValue.get_type(), "NoneType");
    assert_eq!(Value::Bool(true).get_type(), "bool");
    assert_eq!(Value::Int(1).get_type(), "int");
    assert_eq!(Value::Float(0).get_type(), "float");
    assert_eq!(Value::Str(text("")).get_type(), "string");
    assert_eq!(Value::List(vec![]).get_type(), "list");
    assert_eq!(Value::Tuple(vec![]).get_type(), "tuple");
    assert_eq!(Value::Dict(vec![]).get_type(), "dict");
    assert_eq!(Value::Callable(HostCallableRef { handle: 0 }).get_type(), "python_callable_value");
    assert_eq!(Value::Other(text("range")).get_type(), "range");
}

#[test]
fn canonical_form_matches_the_text_that_serde_json_reads() {
    let parsed: serde_json::Value =
        serde_json::from_str("{\"a\": [1, 2.5, null, true, \"s\"], \"b\": {\"c\": 18446744073709551615}}").unwrap();
    fn convert(v: &serde_json::Value) -> CanonicalValue {
        match v {
            serde_json::Value::Null => CanonicalValue::Null,
            serde_json::Value::Bool(b) => CanonicalValue::Bool(*b),
            serde_json::Value::Number(n) => match (n.as_u64(), n.as_i64(), n.as_f64()) {
                (Some(u), _, _) => CanonicalValue::Int(u as i128),
                (_, Some(i), _) => CanonicalValue::Int(i as i128),
                (_, _, Some(f)) => CanonicalValue::Float(f.to_bits()),
                _ => panic!("no number"),
            },
            serde_json::Value::String(s) => CanonicalValue::Str(s.clone()),
            serde_json::Value::Array(items) => CanonicalValue::Sequence(items.iter().map(convert).collect()),
            serde_json::Value::Object(entries) => {
                CanonicalValue::Mapping(entries.iter().map(|(k, v)| (k.clone(), convert(v))).collect())
            }
        }
    }
    let v = from_canonical(&convert(&parsed)).unwrap();
    let expected = Value::Dict(vec![
        (
            Value::Str(text("a")),
            Value::List(vec![
                Value::Int(1),
                Value::Float(2.5f64.to_bits()),
                Value::NoneValue,
                Value::Bool(true),
                Value::Str(text("s")),
            ]),
        ),
        (
            Value::Str(text("b")),
            Value::Dict(vec![(Value::Str(text("c")), Value::Int(u64::MAX as i128))]),
        ),
    ]);
    assert_eq!(v, expected);
}

fn json_of_canonical(c: &CanonicalValue) -> serde_json::Value {
    match c {
        CanonicalValue::Null => serde_json::Value::Null,
        CanonicalValue::Bool(b) => serde_json::Value::Bool(*b),
        CanonicalValue::Int(n) => serde_json::Value::Number(serde_json::Number::from_i128(*n).unwrap()),
        CanonicalValue::Float(bits) => {
            serde_json::Value::Number(serde_json::Number::from_f64(f64::from_bits(*bits)).unwrap())
        }
        CanonicalValue::Str(s) => serde_json::Value::String(s.clone()),
        CanonicalValue::Sequence(items) => serde_json::Value::Array(items.iter().map(json_of_canonical).collect()),
        CanonicalValue::Mapping(entries) => {
            let mut object = serde_json::Map::new();
            for (key, value) in entries {
                object.insert(key.clone(), json_of_canonical(value));
            }
            serde_json::Value::Object(object)
        }
    }
}

fn canonical_of_json(v: &serde_json::Value) -> CanonicalValue {
    match v {
        serde_json::Value::Null => CanonicalValue::Null,
        serde_json::Value::Bool(b) => CanonicalValue::Bool(*b),
        serde_json::Value::Number(n) => match n.as_i128() {
            Some(i) => CanonicalValue::Int(i),
            None => CanonicalValue::Float(n.as_f64().unwrap().to_bits()),
        },
        serde_json::Value::String(s) => CanonicalValue::Str(s.clone()),
        serde_json::Value::Array(items) => CanonicalValue::Sequence(items.iter().map(canonical_of_json).collect()),
        serde_json::Value::Object(entries) => CanonicalValue::Mapping(
            entries.iter().map(|(k, v)| (k.clone(), canonical_of_json(v))).collect(),
        ),
    }
}

#[test]
fn round_trip_through_the_text_of_the_canonical_form() {
    let v = from_canonical(&sample()).unwrap();
    let text = serde_json::to_string(&json_of_canonical(&to_canonical(&v).unwrap())).unwrap();
    assert_eq!(
        text,
        "{\"name\":\"bridge\",\"count\":18446744073709551615,\"ratio\":0.25,\"items\":[null,true,{\"deep\":[]}],\"\":0}"
    );
    let read: serde_json::Value = serde_json::from_str(&text).unwrap();
    assert_eq!(canonical_of_json(&read), sample());
    assert_eq!(from_canonical(&canonical_of_json(&read)), Ok(v));
}

#[test]
fn negative_integer_of_the_text_becomes_a_double() {
    let read: serde_json::Value = serde_json::from_str("[-5, 5, -5.0]").unwrap();
    let v = from_canonical(&canonical_of_json(&read)).unwrap();
    assert_eq!(
        v,
        Value::List(vec![
            Value::Float((-5.0f64).to_bits()),
            Value::Int(5),
            Value::Float((-5.0f64).to_bits()),
        ])
    );
}
