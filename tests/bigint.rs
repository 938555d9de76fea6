use deft_quick_js::{BigIntOrI64, JsBigInt, JsValue};

type Value = JsValue<(), ()>;

#[test]
fn test_bigint_from_i64() {
    let int = 1234i64;
    let value = Value::from(int);
    if let JsValue::BigInt(value) = value {
        assert_eq!(value.as_i64(), Some(int));
    } else {
        panic!("Expected JsValue::BigInt");
    }
}

#[test]
fn test_bigint_from_bigint() {
    let bigint = num_bigint::BigInt::from(std::i128::MAX);
    let value = Value::from(bigint.clone());
    if let JsValue::BigInt(value) = value {
        assert_eq!(value.into_bigint(), bigint);
    } else {
        panic!("Expected JsValue::BigInt");
    }
}

#[test]
fn test_bigint_i64_bigint_eq() {
    let value_i64: Value = JsValue::BigInt(1234i64.into());
    let value_bigint: Value = JsValue::BigInt(num_bigint::BigInt::from(1234i64).into());
    assert_eq!(value_i64, value_bigint);
}

#[test]
fn bigint_that_fits_moves_to_fast_path() {
    let b = JsBigInt::from_bigint(num_bigint::BigInt::from(-42i64));
    assert_eq!(b.inner, BigIntOrI64::Int(-42));
    assert_eq!(b.decimal_text(), None);
}

#[test]
fn bigint_beyond_i64_keeps_digits() {
    let b = JsBigInt::from_u64(u64::MAX);
    assert!(matches!(b.inner, BigIntOrI64::BigInt(_)));
    assert_eq!(b.as_i64(), None);
    assert_eq!(b.as_u64(), Some(u64::MAX));
    assert_eq!(b.decimal_text(), Some("18446744073709551615".to_string()));
}

#[test]
fn bigint_small_values_convert_exactly() {
    assert_eq!(JsBigInt::from_u64(7).inner, BigIntOrI64::Int(7));
    assert_eq!(JsBigInt::from_i128(-5).inner, BigIntOrI64::Int(-5));
    assert_eq!(JsBigInt::from_u128(9).as_u128(), Some(9));
    assert_eq!(JsBigInt::from_i64(-1).as_u64(), None);
    assert_eq!(JsBigInt::from_i64(-1).as_i128(), Some(-1));
    assert_eq!(JsBigInt::from_i128(i128::MIN).as_i128(), Some(i128::MIN));
}

#[test]
fn bigint_parses_decimal_text() {
    let b = JsBigInt::parse_decimal(b"-170141183460469231731687303715884105728").unwrap();
    assert_eq!(b.as_i128(), Some(i128::MIN));
    assert!(matches!(b.inner, BigIntOrI64::BigInt(_)));
    let small = JsBigInt::parse_decimal(b"12").unwrap();
    assert_eq!(small.inner, BigIntOrI64::Int(12));
    assert!(JsBigInt::parse_decimal(b"12x").is_none());
}

#[test]
fn bigint_into_bigint_from_fast_path() {
    assert_eq!(JsBigInt::from_i64(99).into_bigint(), num_bigint::BigInt::from(99));
}

#[test]
fn bigint_decimal_fast_path_bounds() {
    let min = JsBigInt::parse_decimal(b"-9223372036854775808").unwrap();
    assert_eq!(min.inner, BigIntOrI64::Int(i64::MIN));
    let max = JsBigInt::parse_decimal(b"9223372036854775807").unwrap();
    assert_eq!(max.inner, BigIntOrI64::Int(i64::MAX));
    let over = JsBigInt::parse_decimal(b"9223372036854775808").unwrap();
    assert!(matches!(over.inner, BigIntOrI64::BigInt(_)));
    assert_eq!(over.as_u64(), Some(9223372036854775808));
    assert!(JsBigInt::parse_decimal(b"").is_none());
    assert!(JsBigInt::parse_decimal(b"-").is_none());
    assert_eq!(JsBigInt::parse_decimal(b"007").unwrap().inner, BigIntOrI64::Int(7));
}

#[test]
fn bigint_decimal_text_and_parse_grammar() {
    let b = JsBigInt::from_i128(-(1i128 << 70));
    assert_eq!(b.decimal_text(), Some("-1180591620717411303424".to_string()));
    assert!(JsBigInt::parse_decimal(b"1_2").is_none());
    assert!(JsBigInt::parse_decimal(b"+5").is_none());
    assert!(JsBigInt::parse_decimal(b"--5").is_none());
    let long = JsBigInt::parse_decimal(b"-0009223372036854775808").unwrap();
    assert_eq!(long.inner, BigIntOrI64::Int(i64::MIN));
}
