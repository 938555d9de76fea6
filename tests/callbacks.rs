use deft_quick_js::callback::{argument_error, callback_result, decode_arguments, result_serialization_error, thrown_value};
use deft_quick_js::console::{console_message, parse_level, Level};
use deft_quick_js::{ExecutionError, JsValue, ValueError};

type Value = JsValue<u32, u32>;
type Error = ExecutionError<u32, u32>;

#[test]
fn arguments_decode_in_order() {
    let raw = [10, 20];
    let r: Result<Vec<Value>, Error> = decode_arguments(2, |i| Ok(JsValue::Int(raw[i])));
    assert_eq!(r, Ok(vec![JsValue::Int(10), JsValue::Int(20)]));
}

#[test]
fn failing_second_argument_is_named_by_index_one() {
    let r: Result<Vec<Value>, Error> = decode_arguments(2, |i| {
        if i == 1 {
            Err(ValueError::UnexpectedType)
        } else {
            Ok(JsValue::Int(1))
        }
    });
    assert_eq!(
        r,
        Err(ExecutionError::Internal(
            "failed to deserialize arguments 1 (zero-based) to JS value, Could not convert - received unexpected type"
                .to_string()
        ))
    );
}

#[test]
fn argument_decoding_stops_at_first_failure() {
    let mut seen = std::cell::Cell::new(0usize);
    let r: Result<Vec<Value>, Error> = decode_arguments(3, |i| {
        seen.set(seen.get() + 1);
        if i == 0 {
            Err(ValueError::Internal("x".to_string()))
        } else {
            Ok(JsValue::Null)
        }
    });
    assert_eq!(*seen.get_mut(), 1);
    assert_eq!(r, Err(argument_error(0, ValueError::Internal("x".to_string()))));
}

#[test]
fn no_arguments_decode_to_empty() {
    let r: Result<Vec<Value>, Error> = decode_arguments(0, |_| Err(ValueError::UnexpectedType));
    assert_eq!(r, Ok(vec![]));
}

#[test]
fn callback_outcomes_take_two_channels() {
    assert_eq!(callback_result::<u32, u32>(Ok(Ok(JsValue::Int(410)))), Ok(JsValue::Int(410)));
    assert_eq!(
        callback_result::<u32, u32>(Ok(Err("bad input".to_string()))),
        Err(ExecutionError::Exception(JsValue::String("bad input".to_string())))
    );
    assert_eq!(
        callback_result::<u32, u32>(Err(ValueError::UnexpectedType)),
        Err(ExecutionError::Conversion(ValueError::UnexpectedType))
    );
}

#[test]
fn thrown_values_name_the_callback_for_infrastructure_errors() {
    let app: Value = thrown_value("f", ExecutionError::Exception(JsValue::String("mine".to_string())));
    assert_eq!(app, JsValue::String("mine".to_string()));
    let infra: Value = thrown_value("add", ExecutionError::Internal("Callback panicked!".to_string()));
    assert_eq!(infra, JsValue::String("Failed to call [add], Internal error: Callback panicked!".to_string()));
    let conv: Value = thrown_value("g", ExecutionError::Conversion(ValueError::UnexpectedType));
    assert_eq!(
        conv,
        JsValue::String("Failed to call [g], Could not convert - received unexpected type".to_string())
    );
    let oom: Value = thrown_value("h", ExecutionError::OutOfMemory);
    assert_eq!(oom, JsValue::String("Failed to call [h], Out of memory: runtime memory limit exceeded".to_string()));
}

#[test]
fn serialization_failures_are_internal() {
    let e: Error = result_serialization_error(ValueError::StringWithZeroBytes(0));
    assert_eq!(
        e,
        ExecutionError::Internal("failed to serialize rust value to js value, String contains \\0 bytes".to_string())
    );
}

#[test]
fn console_levels_parse() {
    assert_eq!(parse_level("trace"), Some(Level::Trace));
    assert_eq!(parse_level("debug"), Some(Level::Debug));
    assert_eq!(parse_level("log"), Some(Level::Log));
    assert_eq!(parse_level("info"), Some(Level::Info));
    assert_eq!(parse_level("warn"), Some(Level::Warn));
    assert_eq!(parse_level("error"), Some(Level::Error));
    assert_eq!(parse_level("Error"), None);
    assert_eq!(Level::Warn.name(), "warn");
}

#[test]
fn console_messages_need_a_level_and_a_value() {
    let args: Vec<Value> = vec![JsValue::String("info".to_string()), JsValue::Int(1), JsValue::Int(2)];
    assert_eq!(console_message(args), Some((Level::Info, vec![JsValue::Int(1), JsValue::Int(2)])));
    let lone: Vec<Value> = vec![JsValue::String("info".to_string())];
    assert_eq!(console_message(lone), None);
    let unknown: Vec<Value> = vec![JsValue::String("shout".to_string()), JsValue::Int(1)];
    assert_eq!(console_message(unknown), None);
    let not_text: Vec<Value> = vec![JsValue::Int(0), JsValue::Int(1)];
    assert_eq!(console_message(not_text), None);
}
