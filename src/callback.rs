//! The decisions of the callback trampoline: decoding the arguments of a
//! call from the guest, and what a call hands back or throws.

use vstd::prelude::*;
use crate::error::{ExecutionError, execution_error_text};
use crate::value::{JsValue, ValueError, value_error_text};

verus! {

/// `m` is the message for argument `index` failing to convert with `e`.
pub open spec fn argument_failure_message(index: usize, e: ValueError, m: Seq<char>) -> bool {
    exists|t: String, d: String|
        vstd::string::to_string_from_display_ensures::<usize>(&index, t) && value_error_text(e, d@)
            && m == "failed to deserialize arguments "@ + t@ + " (zero-based) to JS value, "@ + d@
}

/// The error for argument `index` (counted from zero) failing to convert.
pub fn argument_error<G, R>(index: usize, e: ValueError) -> (r: ExecutionError<G, R>)
    ensures
        r is Internal && argument_failure_message(index, e, r->Internal_0@),
{
    let t = index.to_string();
    let d = e.to_string();
    let m = String::from_str("failed to deserialize arguments ").concat(t.as_str()).concat(
        " (zero-based) to JS value, ",
    ).concat(d.as_str());
    ExecutionError::Internal(m)
}

/// Argument `j` converts under `decode`.
pub open spec fn decodes<G, R, F: Fn(usize) -> Result<JsValue<G, R>, ValueError>>(decode: F, j: usize) -> bool {
    exists|a: JsValue<G, R>| decode.ensures((j,), Ok::<JsValue<G, R>, ValueError>(a))
}

/// `r` is what decoding `argc` arguments with `decode` may give: every
/// argument in order, or the error of the first one that failed, after all
/// those before it converted.
pub open spec fn arguments_outcome<G, R, F: Fn(usize) -> Result<JsValue<G, R>, ValueError>>(
    argc: usize,
    decode: F,
    r: Result<Vec<JsValue<G, R>>, ExecutionError<G, R>>,
) -> bool {
    match r {
        Ok(args) => args@.len() == argc && forall|i: int|
            0 <= i < argc ==> #[trigger] decode.ensures((i as usize,), Ok::<JsValue<G, R>, ValueError>(args@[i])),
        Err(err) => exists|k: usize, e: ValueError|
            k < argc && decode.ensures((k,), Err::<JsValue<G, R>, ValueError>(e)) && err is Internal
                && argument_failure_message(k, e, err->Internal_0@) && forall|j: usize|
                j < k ==> #[trigger] decodes(decode, j),
    }
}

/// Decodes the `argc` arguments of a call in order with `decode`, stopping
/// at the first that fails.
pub fn decode_arguments<G, R, F: Fn(usize) -> Result<JsValue<G, R>, ValueError>>(argc: usize, decode: F) -> (r: Result<Vec<JsValue<G, R>>, ExecutionError<G, R>>)
    requires
        forall|i: usize| i < argc ==> #[trigger] decode.requires((i,)),
    ensures
        arguments_outcome(argc, decode, r),
{
    let mut args: Vec<JsValue<G, R>> = Vec::new();
    let mut i: usize = 0;
    while i < argc
        invariant
            i <= argc,
            args@.len() == i,
            forall|j: usize| j < argc ==> #[trigger] decode.requires((j,)),
            forall|j: int| 0 <= j < i ==> #[trigger] decode.ensures((j as usize,), Ok::<JsValue<G, R>, ValueError>(args@[j])),
        decreases argc - i,
    {
        match decode(i) {
            Ok(a) => {
                args.push(a);
            },
            Err(e) => {
                let err = argument_error(i, e);
                assert forall|j: usize| j < i implies #[trigger] decodes(decode, j) by {
                    assert(decode.ensures(((j as int) as usize,), Ok::<JsValue<G, R>, ValueError>(args@[j as int])));
                };
                return Err(err);
            },
        }
        i = i + 1;
    }
    Ok(args)
}

/// A call that can only fail at its second argument reports the index one.
pub proof fn lemma_second_argument_reported<G, R, F: Fn(usize) -> Result<JsValue<G, R>, ValueError>>(
    decode: F,
    r: Result<Vec<JsValue<G, R>>, ExecutionError<G, R>>,
)
    requires
        forall|x: Result<JsValue<G, R>, ValueError>| #[trigger] decode.ensures((0usize,), x) ==> x is Ok,
        forall|x: Result<JsValue<G, R>, ValueError>| #[trigger] decode.ensures((1usize,), x) ==> x is Err,
        arguments_outcome(2, decode, r),
    ensures
        r is Err,
        exists|e: ValueError| argument_failure_message(1, e, r->Err_0->Internal_0@),
{
    match r {
        Ok(args) => {
            assert(decode.ensures((1int as usize,), Ok::<JsValue<G, R>, ValueError>(args@[1])));
        },
        Err(err) => {
            let (k, e) = choose|k: usize, e: ValueError|
                k < 2 && decode.ensures((k,), Err::<JsValue<G, R>, ValueError>(e)) && err is Internal
                    && argument_failure_message(k, e, err->Internal_0@) && forall|j: usize|
                    j < k ==> #[trigger] decodes(decode, j);
            if k == 0 {
                assert(decode.ensures((0usize,), Err::<JsValue<G, R>, ValueError>(e)));
            }
            assert(k == 1);
            assert(exists|e: ValueError| argument_failure_message(1, e, r->Err_0->Internal_0@)) by {
                assert(argument_failure_message(k, e, err->Internal_0@));
            };
        },
    }
}

/// The outcome of a callback's body, as the trampoline reports it: a value
/// to hand back, an application error (thrown as its message), or a
/// conversion failure.
pub fn callback_result<G, R>(outcome: Result<Result<JsValue<G, R>, String>, ValueError>) -> (r: Result<JsValue<G, R>, ExecutionError<G, R>>)
    ensures
        match outcome {
            Ok(Ok(v)) => r == Ok::<JsValue<G, R>, ExecutionError<G, R>>(v),
            Ok(Err(m)) => r == Err::<JsValue<G, R>, ExecutionError<G, R>>(ExecutionError::Exception(JsValue::String(m))),
            Err(e) => r == Err::<JsValue<G, R>, ExecutionError<G, R>>(ExecutionError::Conversion(e)),
        },
{
    match outcome {
        Ok(Ok(v)) => Ok(v),
        Ok(Err(m)) => Err(ExecutionError::Exception(JsValue::String(m))),
        Err(e) => Err(ExecutionError::Conversion(e)),
    }
}

/// The error for a callback's result that could not be serialized.
pub fn result_serialization_error<G, R>(e: ValueError) -> (r: ExecutionError<G, R>)
    ensures
        r is Internal && exists|d: String| value_error_text(e, d@) && r->Internal_0@
            == "failed to serialize rust value to js value, "@ + d@,
{
    let d = e.to_string();
    ExecutionError::Internal(String::from_str("failed to serialize rust value to js value, ").concat(d.as_str()))
}

/// The value thrown into the guest when the callback registered as `name`
/// fails: an application error throws its own value; any other failure
/// throws a message that names the callback.
pub fn thrown_value<G, R>(name: &str, e: ExecutionError<G, R>) -> (r: JsValue<G, R>)
    ensures
        match e {
            ExecutionError::Exception(v) => r == v,
            _ => r is String && exists|d: String| {
                &&& execution_error_text(e, d@)
                &&& r->String_0@ == "Failed to call ["@ + name@ + "], "@ + d@
            },
        },
{
    match e {
        ExecutionError::Exception(v) => v,
        other => {
            let d = other.to_string();
            JsValue::String(String::from_str("Failed to call [").concat(name).concat("], ").concat(d.as_str()))
        },
    }
}

} // verus!
