use deft_quick_js::{JsValue, ValueError};

type Value = JsValue<u32, u32>;

#[test]
fn value_type_names_each_variant() {
    assert_eq!(Value::Undefined.value_type(), "undefined");
    assert_eq!(Value::Null.value_type(), "null");
    assert_eq!(Value::Bool(true).value_type(), "boolean");
    assert_eq!(Value::Int(1).value_type(), "int");
    assert_eq!(Value::Float(0).value_type(), "float");
    assert_eq!(Value::String("a".to_string()).value_type(), "string");
    assert_eq!(Value::Array(vec![]).value_type(), "array");
    assert_eq!(Value::Object(vec![]).value_type(), "object");
    assert_eq!(Value::Resource(1).value_type(), "resource");
    assert_eq!(Value::Raw(1).value_type(), "raw");
    assert_eq!(Value::Exception(1).value_type(), "exception");
    assert_eq!(Value::Date(0).value_type(), "date");
    assert_eq!(Value::from(5i64).value_type(), "bigint");
}

#[test]
fn string_accessors() {
    let v = Value::from("hello".to_string());
    assert_eq!(v.as_str(), Some("hello"));
    assert_eq!(v.into_string(), Some("hello".to_string()));
    assert_eq!(Value::Int(3).as_str(), None);
    assert_eq!(Value::Null.into_string(), None);
}

#[test]
fn primitive_conversions() {
    assert_eq!(Value::from(true), JsValue::Bool(true));
    assert_eq!(Value::from(-7i8), JsValue::Int(-7));
    assert_eq!(Value::from(300i16), JsValue::Int(300));
    assert_eq!(Value::from(255u8), JsValue::Int(255));
    assert_eq!(Value::from(65535u16), JsValue::Int(65535));
    assert_eq!(Value::Bool(false).to_bool(), Ok(false));
    assert_eq!(Value::Null.to_bool(), Err(ValueError::UnexpectedType));
    assert_eq!(Value::Int(12).to_i32(), Ok(12));
    assert_eq!(Value::Bool(true).to_i32(), Err(ValueError::UnexpectedType));
    assert_eq!(Value::Int(-3).to_i64(), Ok(-3));
    assert_eq!(Value::from(u64::MAX).to_i64(), Err(ValueError::UnexpectedType));
    assert_eq!(Value::from(1i128 << 40).to_i64(), Ok(1 << 40));
}

#[test]
fn float_holds_bit_pattern() {
    let v = Value::Float(1.5f64.to_bits());
    if let JsValue::Float(bits) = v {
        assert_eq!(f64::from_bits(bits), 1.5);
    } else {
        panic!("expected a float");
    }
}

#[test]
fn value_error_messages() {
    assert_eq!(ValueError::UnexpectedType.to_string(), "Could not convert - received unexpected type");
    assert_eq!(ValueError::StringWithZeroBytes(3).to_string(), "String contains \\0 bytes");
    assert_eq!(
        ValueError::Internal("boom".to_string()).to_string(),
        "Value conversion failed - internal error: boom"
    );
    assert_eq!(
        ValueError::InvalidString(4).to_string(),
        "Value conversion failed - invalid non-utf8 string: invalid utf-8 from index 4"
    );
}

#[test]
fn u32_becomes_an_exact_double() {
    for x in [0u32, 1, 2, 3, 7, 1000, 123456789, 1 << 31, u32::MAX] {
        assert_eq!(Value::from(x), JsValue::Float((x as f64).to_bits()));
    }
    assert_eq!(Value::from_u32(3), JsValue::Float(0x4008000000000000));
}

#[test]
fn clone_copies_nested_values() {
    let v = Value::Object(vec![
        ("a".to_string(), Value::Array(vec![Value::Int(1), Value::Raw(7)])),
        ("b".to_string(), Value::from(u64::MAX)),
    ]);
    assert_eq!(v.clone(), v);
}

#[test]
fn wide_integer_conversions() {
    assert_eq!(Value::from(5u64), JsValue::from(5i64));
    assert_eq!(Value::from(-5i128), JsValue::from(-5i64));
    assert_eq!(Value::from(6u128), JsValue::from(6i64));
    assert_eq!(Value::Int(7).to_u64(), Ok(7));
    assert_eq!(Value::Int(-1).to_u64(), Ok(u64::MAX));
    assert_eq!(Value::from(u64::MAX).to_u64(), Ok(u64::MAX));
    assert_eq!(Value::from(i128::MIN).to_i128(), Ok(i128::MIN));
    assert_eq!(Value::from(u128::MAX).to_u128(), Ok(u128::MAX));
    assert_eq!(Value::from(-3i64).to_u128(), Err(ValueError::UnexpectedType));
    assert_eq!(Value::Null.to_i128(), Err(ValueError::UnexpectedType));
    assert_eq!(Value::Int(9).into_bigint(), Ok(num_bigint::BigInt::from(9)));
    let big = num_bigint::BigInt::from(u128::MAX);
    assert_eq!(Value::from(big.clone()).into_bigint(), Ok(big));
    assert_eq!(Value::Bool(true).into_bigint(), Err(ValueError::UnexpectedType));
}

#[test]
fn str_option_and_vec_conversions() {
    assert_eq!(Value::from("hi"), JsValue::String("hi".to_string()));
    assert_eq!(Value::from(None::<i32>), JsValue::Null);
    assert_eq!(Value::from(Some(4i32)), JsValue::Int(4));
    assert_eq!(
        Value::from(vec![1i32, 2, 3]),
        JsValue::Array(vec![JsValue::Int(1), JsValue::Int(2), JsValue::Int(3)])
    );
    assert_eq!(Value::from(Vec::<bool>::new()), JsValue::Array(vec![]));
}
