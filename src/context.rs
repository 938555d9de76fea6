//! Decisions of the context: reading a pending exception, looking up a
//! property, and running a module.

use vstd::prelude::*;
use crate::convert::TagKind;
use crate::error::{ExecutionError, classified_exception, exception_from_message};
use crate::value::JsValue;

verus! {

/// The error for the runtime's pending exception, once it has been fetched
/// and is neither `null` (nothing pending) nor the exception sentinel itself:
/// its string form classified, or the error met while converting it.
pub fn pending_exception<G, R>(message: Result<String, ExecutionError<G, R>>) -> (r: ExecutionError<G, R>)
    ensures
        match message {
            Ok(m) => r == classified_exception::<G, R>(m),
            Err(e) => r == e,
        },
{
    match message {
        Ok(m) => exception_from_message(m),
        Err(e) => e,
    }
}

/// The error when fetching the pending exception gives the exception
/// sentinel instead.
pub fn exception_unavailable<G, R>() -> (r: ExecutionError<G, R>)
    ensures
        r is Internal && r->Internal_0@ == "Could get exception from runtime"@,
{
    ExecutionError::Internal(String::from_str("Could get exception from runtime"))
}

/// The error, if any, for a property named `name` whose value has the tag
/// kind `kind`: the lookup threw, or the property is absent.
pub fn property_lookup_error<G, R>(name: &str, kind: TagKind) -> (r: Option<ExecutionError<G, R>>)
    ensures
        kind == TagKind::Exception ==> r is Some && r->0 is Internal && r->0->Internal_0@
            == "Exception while getting property '"@ + name@ + "'"@,
        kind == TagKind::Undefined ==> r is Some && r->0 is Internal && r->0->Internal_0@
            == "Property '"@ + name@ + "' not found"@,
        kind != TagKind::Exception && kind != TagKind::Undefined ==> r is None,
{
    match kind {
        TagKind::Exception => Some(
            ExecutionError::Internal(String::from_str("Exception while getting property '").concat(name).concat("'")),
        ),
        TagKind::Undefined => Some(
            ExecutionError::Internal(String::from_str("Property '").concat(name).concat("' not found")),
        ),
        _ => None,
    }
}

/// The error when a module is run before a module loader is set.
pub fn module_loader_missing<G, R>() -> (r: ExecutionError<G, R>)
    ensures
        r is Internal && r->Internal_0@ == "Module loader is not set"@,
{
    ExecutionError::Internal(String::from_str("Module loader is not set"))
}

/// The error when the module loader fails, given its description of the
/// failure.
pub fn module_load_error<G, R>(detail: &str) -> (r: ExecutionError<G, R>)
    ensures
        r is Internal && r->Internal_0@ == "Fail to load module:"@ + detail@,
{
    ExecutionError::Internal(String::from_str("Fail to load module:").concat(detail))
}

/// The error when a value that should be an object is not one.
pub fn expected_object<G, R>() -> (r: ExecutionError<G, R>)
    ensures
        r is Internal && r->Internal_0@ == "Expected an object"@,
{
    ExecutionError::Internal(String::from_str("Expected an object"))
}

/// The error when the guest's string conversion of a value gives no string.
pub fn string_conversion_failed<G, R>() -> (r: ExecutionError<G, R>)
    ensures
        r is Exception && r->Exception_0 is String && r->Exception_0->String_0@
            == "Could not convert value to string"@,
{
    ExecutionError::Exception(JsValue::String(String::from_str("Could not convert value to string")))
}

} // verus!
