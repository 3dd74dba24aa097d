use zenvi::value::RpcValue;

#[test]
fn integers_read_by_numeric_value() {
    assert_eq!(RpcValue::from_i64(5), RpcValue::PosInt(5));
    assert_eq!(RpcValue::from_i64(-5), RpcValue::NegInt(-5));
    assert_eq!(RpcValue::from_i64(5).as_u64(), Some(5));
    assert_eq!(RpcValue::from_i64(-5).as_u64(), None);
    assert_eq!(RpcValue::from_u64(u64::MAX).as_i64(), None);
    assert_eq!(RpcValue::from_u64(7).as_i64(), Some(7));
}

#[test]
fn accessors() {
    assert!(RpcValue::nil().is_nil());
    assert_eq!(RpcValue::from_bool(true).as_bool(), Some(true));
    assert_eq!(RpcValue::from_str("x").as_str(), Some("x"));
    assert_eq!(RpcValue::from_u64(1).as_str(), None);
    let arr = RpcValue::from_array(vec![RpcValue::nil()]);
    assert_eq!(arr.as_array().map(|a| a.len()), Some(1));
    let map = RpcValue::from_map(vec![(RpcValue::from_str("k"), RpcValue::from_u64(1))]);
    assert_eq!(map.as_map().map(|m| m.len()), Some(1));
    assert!(arr.as_map().is_none());
}

#[test]
fn clones_are_equal() {
    let v = RpcValue::from_array(vec![
        RpcValue::from_str("a"),
        RpcValue::from_map(vec![(RpcValue::from_u64(1), RpcValue::F64(2.5f64.to_bits()))]),
        RpcValue::Ext(3, vec![1, 2]),
    ]);
    assert_eq!(v.clone(), v);
}
