use combridge::value::{marshal, marshal_warning, unmarshal, DynamicValue, MarshaledValue};

#[test]
fn marshal_string_keeps_kind() {
    let v = DynamicValue::Text("hello".to_string());
    assert_eq!(marshal(&v), MarshaledValue::Text("hello".to_string()));
    assert_eq!(marshal_warning(&v), None);
}

#[test]
fn marshal_small_integer() {
    let v = DynamicValue::Integer(5);
    assert_eq!(marshal(&v), MarshaledValue::Int32(5));
    assert_eq!(marshal_warning(&v), None);
}

#[test]
fn marshal_negative_integer() {
    assert_eq!(marshal(&DynamicValue::Integer(-42)), MarshaledValue::Int32(-42));
}

#[test]
fn marshal_integer_bounds() {
    assert_eq!(
        marshal(&DynamicValue::Integer(2147483647)),
        MarshaledValue::Int32(2147483647)
    );
    assert_eq!(
        marshal(&DynamicValue::Integer(-2147483648)),
        MarshaledValue::Int32(-2147483648)
    );
}

#[test]
fn marshal_narrows_wide_integers() {
    assert_eq!(
        marshal(&DynamicValue::Integer(2147483648)),
        MarshaledValue::Int32(-2147483648)
    );
    assert_eq!(marshal(&DynamicValue::Integer(4294967297)), MarshaledValue::Int32(1));
    assert_eq!(
        marshal(&DynamicValue::Integer(-2147483649)),
        MarshaledValue::Int32(2147483647)
    );
    assert_eq!(
        marshal(&DynamicValue::Integer(i64::MIN)),
        MarshaledValue::Int32(i64::MIN as i32)
    );
    assert_eq!(
        marshal(&DynamicValue::Integer(i64::MAX)),
        MarshaledValue::Int32(i64::MAX as i32)
    );
}

#[test]
fn marshal_float_text_passes_through() {
    let v = DynamicValue::Float("1.5".to_string());
    assert_eq!(marshal(&v), MarshaledValue::FloatText("1.5".to_string()));
    assert_eq!(marshal_warning(&v), None);
}

#[test]
fn marshal_boolean() {
    assert_eq!(marshal(&DynamicValue::Boolean(true)), MarshaledValue::Boolean(true));
    assert_eq!(marshal(&DynamicValue::Boolean(false)), MarshaledValue::Boolean(false));
    assert_eq!(marshal_warning(&DynamicValue::Boolean(true)), None);
}

#[test]
fn marshal_null_degrades_to_empty_with_diagnostic() {
    let v = DynamicValue::Null;
    assert_eq!(marshal(&v), MarshaledValue::Empty);
    assert_eq!(
        marshal_warning(&v),
        Some("null has no scalar form; passing an empty value".to_string())
    );
}

#[test]
fn marshal_array_degrades_to_empty_with_diagnostic() {
    let v = DynamicValue::Array(vec![DynamicValue::Integer(1)]);
    assert_eq!(marshal(&v), MarshaledValue::Empty);
    assert_eq!(
        marshal_warning(&v),
        Some("an array has no single scalar form; passing an empty value".to_string())
    );
}

#[test]
fn marshal_object_degrades_to_empty_with_diagnostic() {
    let v = DynamicValue::Object(vec![("k".to_string(), DynamicValue::Null)]);
    assert_eq!(marshal(&v), MarshaledValue::Empty);
    assert_eq!(
        marshal_warning(&v),
        Some("an object has no single scalar form; passing an empty value".to_string())
    );
}

#[test]
fn marshal_big_number_degrades_to_empty_with_diagnostic() {
    let v = DynamicValue::BigNumber("18446744073709551615".to_string());
    assert_eq!(marshal(&v), MarshaledValue::Empty);
    assert_eq!(
        marshal_warning(&v),
        Some(
            "unsupported number, no scalar form; passing an empty value: 18446744073709551615"
                .to_string()
        )
    );
}

#[test]
fn big_number_diagnostics_name_their_value() {
    let a = marshal_warning(&DynamicValue::BigNumber("18446744073709551615".to_string()));
    let b = marshal_warning(&DynamicValue::BigNumber("99999999999999999999".to_string()));
    assert_ne!(a, b);
    assert!(a.unwrap().ends_with("18446744073709551615"));
    assert!(b.unwrap().ends_with("99999999999999999999"));
}

#[test]
fn unmarshal_integer_decimal() {
    assert_eq!(unmarshal(&MarshaledValue::Int32(5)), "5");
    assert_eq!(unmarshal(&MarshaledValue::Int32(0)), "0");
    assert_eq!(unmarshal(&MarshaledValue::Int32(-17)), "-17");
    assert_eq!(unmarshal(&MarshaledValue::Int32(2147483647)), "2147483647");
    assert_eq!(unmarshal(&MarshaledValue::Int32(-2147483648)), "-2147483648");
    assert_eq!(unmarshal(&MarshaledValue::Int32(1000)), "1000");
}

#[test]
fn unmarshal_other_kinds() {
    assert_eq!(unmarshal(&MarshaledValue::Text("ok".to_string())), "ok");
    assert_eq!(unmarshal(&MarshaledValue::FloatText("2.75".to_string())), "2.75");
    assert_eq!(unmarshal(&MarshaledValue::Boolean(true)), "true");
    assert_eq!(unmarshal(&MarshaledValue::Boolean(false)), "false");
    assert_eq!(unmarshal(&MarshaledValue::Empty), "");
}

#[test]
fn integer_round_trips_through_marshal_and_unmarshal() {
    for i in [0i64, 1, -1, 5, 99, -100, 65536, 2147483647, -2147483648] {
        let m = marshal(&DynamicValue::Integer(i));
        assert_eq!(unmarshal(&m), i.to_string());
    }
}
