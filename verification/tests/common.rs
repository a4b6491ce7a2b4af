use pub_observe_schema::{AnyValue, Double, KeyValue};

#[test]
fn values_from_their_kinds() {
    assert_eq!(AnyValue::from("s"), AnyValue::String("s".to_string()));
    assert_eq!(AnyValue::from(String::from("t")), AnyValue::String("t".to_string()));
    assert_eq!(AnyValue::from(true), AnyValue::Bool(true));
    assert_eq!(AnyValue::from(-3i64), AnyValue::Int(-3));
    assert_eq!(AnyValue::from(vec![1u8, 2, 3]), AnyValue::Bytes(vec![1, 2, 3]));
    assert_eq!(
        AnyValue::from(vec![AnyValue::from(1i64)]),
        AnyValue::Array(vec![AnyValue::Int(1)])
    );
    let pair = KeyValue::new("k", "v");
    assert_eq!(pair.key, "k");
    assert_eq!(pair.value, Some(AnyValue::String("v".to_string())));
    assert_eq!(
        AnyValue::from(vec![KeyValue::new("k", 1i64)]),
        AnyValue::KvList(vec![KeyValue { key: "k".into(), value: Some(AnyValue::Int(1)) }])
    );
    assert_eq!(
        AnyValue::Double(Double(1.5f64.to_bits())),
        AnyValue::Double(Double(0x3FF8_0000_0000_0000))
    );
}

#[test]
fn doubles_compare_as_doubles() {
    assert_eq!(Double(0.0f64.to_bits()), Double((-0.0f64).to_bits()));
    assert_ne!(Double(f64::NAN.to_bits()), Double(f64::NAN.to_bits()));
    assert_ne!(Double(1.0f64.to_bits()), Double(1.5f64.to_bits()));
    assert_eq!(
        AnyValue::Double(Double(0.0f64.to_bits())),
        AnyValue::Double(Double((-0.0f64).to_bits()))
    );
}

#[test]
fn values_clone_to_equal_values() {
    let value = AnyValue::KvList(vec![
        KeyValue::new("a", AnyValue::Array(vec![AnyValue::from(1i64), AnyValue::from("x")])),
        KeyValue { key: "b".into(), value: None },
        KeyValue::new("c", vec![7u8]),
    ]);
    assert_eq!(value.clone(), value);
    let pair = KeyValue::new("k", true);
    assert_eq!(pair.clone(), pair);
}
