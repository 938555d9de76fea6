use deft_quick_js::context::{module_load_error, pending_exception, property_lookup_error};
use deft_quick_js::convert::TagKind;
use deft_quick_js::error::{contains_str, exception_from_message, pending_job_outcome, pending_or_unknown};
use deft_quick_js::promise::SettleState;
use deft_quick_js::{ClassId, DumpHostPromiseRejectionTracker, ExecutionError, FsJsModuleLoader, JsValue, ResourceObject, ValueError};

type Error = ExecutionError<u32, u32>;

#[test]
fn out_of_memory_is_told_apart() {
    let e: Error = exception_from_message("InternalError: out of memory".to_string());
    assert_eq!(e, ExecutionError::OutOfMemory);
    let e: Error = exception_from_message("Error: 111".to_string());
    assert_eq!(e, ExecutionError::Exception(JsValue::String("Error: 111".to_string())));
    assert!(contains_str("xx out of memory", "out of memory"));
    assert!(!contains_str("out of mem", "out of memory"));
    assert!(contains_str("abc", ""));
}

#[test]
fn pending_exception_passes_conversion_errors() {
    let e: Error = pending_exception(Err(ExecutionError::Conversion(ValueError::UnexpectedType)));
    assert_eq!(e, ExecutionError::Conversion(ValueError::UnexpectedType));
    let e: Error = pending_exception(Ok("TypeError: x".to_string()));
    assert_eq!(e, ExecutionError::Exception(JsValue::String("TypeError: x".to_string())));
}

#[test]
fn pending_jobs_report_status() {
    assert_eq!(pending_job_outcome::<u32, u32>(0, None), Ok(false));
    assert_eq!(pending_job_outcome::<u32, u32>(1, None), Ok(true));
    assert_eq!(
        pending_job_outcome::<u32, u32>(-1, Some(ExecutionError::OutOfMemory)),
        Err(ExecutionError::OutOfMemory)
    );
    assert_eq!(
        pending_job_outcome::<u32, u32>(-1, None),
        Err(ExecutionError::Exception(JsValue::String("Unknown exception".to_string())))
    );
    let e: Error = pending_or_unknown(Some(ExecutionError::Internal("i".to_string())));
    assert_eq!(e, ExecutionError::Internal("i".to_string()));
}

#[test]
fn property_lookup_errors() {
    let e: Option<Error> = property_lookup_error("then", TagKind::Exception);
    assert_eq!(e, Some(ExecutionError::Internal("Exception while getting property 'then'".to_string())));
    let e: Option<Error> = property_lookup_error("x", TagKind::Undefined);
    assert_eq!(e, Some(ExecutionError::Internal("Property 'x' not found".to_string())));
    let e: Option<Error> = property_lookup_error("x", TagKind::Object);
    assert_eq!(e, None);
    let e: Error = module_load_error("missing");
    assert_eq!(e, ExecutionError::Internal("Fail to load module:missing".to_string()));
}

#[test]
fn promise_settles_once() {
    let mut s = SettleState::new();
    assert!(s.mark_settled());
    assert!(!s.mark_settled());
    assert!(!s.mark_settled());
    assert!(s.settled);
}

#[test]
fn resource_class_registers_once() {
    let mut c = ClassId::new();
    assert!(!c.is_registered());
    assert!(!c.matches(0));
    assert_eq!(c.register(7), 7);
    assert_eq!(c.register(9), 7);
    assert!(c.matches(7));
    assert!(!c.matches(9));
    assert_eq!(c.get(), 7);
}

#[test]
fn plain_constructors() {
    let _tracker = DumpHostPromiseRejectionTracker::new();
    let loader = FsJsModuleLoader::new("./modules");
    assert_eq!(loader.base_dir(), "./modules");
    let obj = ResourceObject { data: 5u8 };
    assert_eq!(obj.data, 5);
    let e: Error = ExecutionError::from(ValueError::UnexpectedType);
    assert_eq!(e.to_string(), "Could not convert - received unexpected type");
}
