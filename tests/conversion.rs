use deft_quick_js::convert::{
    array_length, classify_object, classify_tag, insert_property, make_cstring, nul_position,
    ObjectKind, ObjectProbe, TagKind, TAG_BIG_INT, TAG_BOOL, TAG_EXCEPTION, TAG_FLOAT64, TAG_INT,
    TAG_NULL, TAG_OBJECT, TAG_STRING, TAG_UNDEFINED,
};
use deft_quick_js::serialize::{serialize_value, BuildStep};
use deft_quick_js::{JsValue, ValueError};

type Value = JsValue<u32, u32>;

fn probe(is_function: bool, is_array: bool, class_id: u32, is_date: bool) -> ObjectProbe {
    ObjectProbe { is_function, is_array, class_id, is_date }
}

#[test]
fn tags_are_read_by_kind() {
    assert_eq!(classify_tag(TAG_INT, false), TagKind::Int);
    assert_eq!(classify_tag(TAG_BOOL, false), TagKind::Bool);
    assert_eq!(classify_tag(TAG_NULL, false), TagKind::Null);
    assert_eq!(classify_tag(TAG_UNDEFINED, false), TagKind::Undefined);
    assert_eq!(classify_tag(TAG_FLOAT64, true), TagKind::Float);
    assert_eq!(classify_tag(TAG_STRING, false), TagKind::String);
    assert_eq!(classify_tag(TAG_OBJECT, false), TagKind::Object);
    assert_eq!(classify_tag(TAG_BIG_INT, false), TagKind::BigInt);
    assert_eq!(classify_tag(TAG_EXCEPTION, false), TagKind::Exception);
    assert_eq!(classify_tag(-8, false), TagKind::Opaque);
    assert_eq!(classify_tag(9, true), TagKind::Float);
}

#[test]
fn object_checks_follow_precedence() {
    assert_eq!(classify_object(probe(true, true, 5, true), 5), ObjectKind::Function);
    assert_eq!(classify_object(probe(false, true, 5, true), 5), ObjectKind::Array);
    assert_eq!(classify_object(probe(false, false, 5, true), 5), ObjectKind::Resource);
    assert_eq!(classify_object(probe(false, false, 4, true), 5), ObjectKind::Date);
    assert_eq!(classify_object(probe(false, false, 4, false), 5), ObjectKind::Plain);
    // An unregistered resource class matches nothing, not even class id zero.
    assert_eq!(classify_object(probe(false, false, 0, false), 0), ObjectKind::Plain);
}

#[test]
fn array_length_must_be_a_non_negative_int() {
    assert_eq!(array_length(&Value::Int(3)), Ok(3));
    assert_eq!(array_length(&Value::Int(0)), Ok(0));
    assert_eq!(
        array_length(&Value::Float(3.0f64.to_bits())),
        Err(ValueError::Internal("Could not determine array length".to_string()))
    );
    assert!(matches!(array_length(&Value::Int(-1)), Err(ValueError::Internal(_))));
}

#[test]
fn properties_replace_repeated_keys() {
    let mut props: Vec<(String, Value)> = Vec::new();
    assert_eq!(insert_property(&mut props, Value::String("a".into()), Value::Int(1)), Ok(()));
    assert_eq!(insert_property(&mut props, Value::String("b".into()), Value::Int(2)), Ok(()));
    assert_eq!(insert_property(&mut props, Value::String("a".into()), Value::Int(3)), Ok(()));
    assert_eq!(props, vec![("a".to_string(), Value::Int(3)), ("b".to_string(), Value::Int(2))]);
    assert_eq!(
        insert_property(&mut props, Value::Int(7), Value::Null),
        Err(ValueError::Internal("Could not get property name".to_string()))
    );
    assert_eq!(props.len(), 2);
}

#[test]
fn cstrings_reject_nul_bytes() {
    assert_eq!(make_cstring("abc"), Ok(vec![b'a', b'b', b'c', 0]));
    assert_eq!(make_cstring(""), Ok(vec![0]));
    assert_eq!(make_cstring("ab\0c"), Err(ValueError::StringWithZeroBytes(2)));
    assert_eq!(nul_position("é\0"), Some(2));
    assert_eq!(nul_position("plain"), None);
}

#[test]
fn plan_of_primitives() {
    assert_eq!(serialize_value(Value::Int(123)), Ok(vec![BuildStep::Int(123)]));
    assert_eq!(serialize_value(Value::Raw(9)), Ok(vec![BuildStep::Guest(9)]));
    assert_eq!(serialize_value(Value::Exception(4)), Ok(vec![BuildStep::Guest(4)]));
    assert_eq!(serialize_value(Value::Resource(2)), Ok(vec![BuildStep::Resource(2)]));
}

#[test]
fn plan_of_nested_containers() {
    let v = Value::Object(vec![
        ("xs".to_string(), Value::Array(vec![Value::Bool(true), Value::Null])),
        ("s".to_string(), Value::String("t".to_string())),
    ]);
    let plan = serialize_value(v).unwrap();
    assert_eq!(
        plan,
        vec![
            BuildStep::NewObject,
            BuildStep::NewArray,
            BuildStep::Bool(true),
            BuildStep::DefineIndex(0),
            BuildStep::Null,
            BuildStep::DefineIndex(1),
            BuildStep::DefineKey("xs".to_string()),
            BuildStep::String("t".to_string()),
            BuildStep::DefineKey("s".to_string()),
        ]
    );
}

#[test]
fn plan_reports_first_nul_key() {
    let v = Value::Array(vec![
        Value::Int(1),
        Value::Object(vec![
            ("ok".to_string(), Value::Int(2)),
            ("b\0ad".to_string(), Value::Int(3)),
            ("wo\0rse".to_string(), Value::Int(4)),
        ]),
    ]);
    assert_eq!(serialize_value(v), Err(ValueError::StringWithZeroBytes(1)));
}

#[test]
fn plan_of_empty_containers() {
    assert_eq!(serialize_value(Value::Array(vec![])), Ok(vec![BuildStep::NewArray]));
    assert_eq!(serialize_value(Value::Object(vec![])), Ok(vec![BuildStep::NewObject]));
}

#[test]
fn plan_rejects_repeated_keys() {
    let v = Value::Object(vec![("k".to_string(), Value::Int(1)), ("k".to_string(), Value::Int(2))]);
    assert_eq!(serialize_value(v), Err(ValueError::Internal("Duplicate property key in object".to_string())));
    let nested = Value::Array(vec![Value::Object(vec![
        ("a".to_string(), Value::Null),
        ("b".to_string(), Value::Null),
        ("a".to_string(), Value::Null),
    ])]);
    assert!(matches!(serialize_value(nested), Err(ValueError::Internal(_))));
}
