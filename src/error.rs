//! Errors of evaluation and of the runtime's lifecycle, and how a pending
//! guest exception is classified.

use vstd::prelude::*;
use crate::value::{JsValue, ValueError, value_error_text, variant_name};
use crate::convert::utf8_of;

verus! {

/// Error during evaluation or a call into the guest.
#[derive(Debug, PartialEq)]
pub enum ExecutionError<G, R> {
    /// The guest threw; the payload is the thrown value, or its string form.
    Exception(JsValue<G, R>),
    /// The runtime ran out of memory.
    OutOfMemory,
    /// Internal error.
    Internal(String),
    /// A value could not be converted.
    Conversion(ValueError),
}

/// Error while creating a runtime or a context.
#[derive(Clone, Copy, Debug, PartialEq, Eq)]
pub enum ContextError {
    RuntimeCreationFailed,
    ContextCreationFailed,
}

impl<G, R> From<ValueError> for ExecutionError<G, R> {
    fn from(e: ValueError) -> (r: ExecutionError<G, R>)
        ensures
            r == ExecutionError::<G, R>::Conversion(e),
    {
        ExecutionError::Conversion(e)
    }
}

impl<G, R> vstd::std_specs::convert::FromSpecImpl<ValueError> for ExecutionError<G, R> {
    open spec fn obeys_from_spec() -> bool {
        true
    }

    open spec fn from_spec(e: ValueError) -> ExecutionError<G, R> {
        ExecutionError::Conversion(e)
    }
}

/// `m` is the message of `e`: a thrown string as it is; for a thrown value
/// of another kind, the name of its kind.
pub open spec fn execution_error_text<G, R>(e: ExecutionError<G, R>, m: Seq<char>) -> bool {
    match e {
        ExecutionError::Exception(JsValue::String(s)) => m == s@,
        ExecutionError::Exception(v) => m == "Exception: "@ + variant_name(v),
        ExecutionError::OutOfMemory => m == "Out of memory: runtime memory limit exceeded"@,
        ExecutionError::Internal(d) => m == "Internal error: "@ + d@,
        ExecutionError::Conversion(c) => value_error_text(c, m),
    }
}

impl<G, R> ExecutionError<G, R> {
    /// The error's message.
    pub fn to_string(&self) -> (r: String)
        ensures
            execution_error_text(*self, r@),
    {
        match self {
            ExecutionError::Exception(v) => match v {
                JsValue::String(s) => s.clone(),
                _ => String::from_str("Exception: ").concat(v.value_type()),
            },
            ExecutionError::OutOfMemory => String::from_str("Out of memory: runtime memory limit exceeded"),
            ExecutionError::Internal(d) => String::from_str("Internal error: ").concat(d.as_str()),
            ExecutionError::Conversion(e) => e.to_string(),
        }
    }
}

/// `n` occurs in `h` at position `i`.
pub open spec fn occurs_at(h: Seq<u8>, n: Seq<u8>, i: int) -> bool {
    0 <= i && i + n.len() <= h.len() && h.subrange(i, i + n.len()) == n
}

/// `n` occurs somewhere in `h`.
pub open spec fn contains_bytes(h: Seq<u8>, n: Seq<u8>) -> bool {
    exists|i: int| occurs_at(h, n, i)
}

/// Whether `needle` occurs in `hay`, compared byte by byte.
pub fn contains_str(hay: &str, needle: &str) -> (r: bool)
    ensures
        r == contains_bytes(utf8_of(hay@), utf8_of(needle@)),
{
    let h = hay.as_bytes();
    let n = needle.as_bytes();
    if n.len() > h.len() {
        assert forall|i: int| !occurs_at(h@, n@, i) by {};
        return false;
    }
    let mut i: usize = 0;
    while i <= h.len() - n.len()
        invariant
            h@ == utf8_of(hay@),
            n@ == utf8_of(needle@),
            n@.len() <= h@.len(),
            i <= h@.len() - n@.len() + 1,
            forall|k: int| 0 <= k < i ==> !occurs_at(h@, n@, k),
        decreases h@.len() - i,
    {
        let mut j: usize = 0;
        let mut same = true;
        while j < n.len()
            invariant
                h@ == utf8_of(hay@),
                n@ == utf8_of(needle@),
                i + n@.len() <= h@.len(),
                h@.len() == h.len(),
                j <= n@.len(),
                same == (forall|k: int| 0 <= k < j ==> h@[i + k] == n@[k]),
            decreases n@.len() - j,
        {
            if h[i + j] != n[j] {
                same = false;
            }
            j = j + 1;
        }
        if same {
            assert(h@.subrange(i as int, i + n@.len()) =~= n@);
            assert(occurs_at(h@, n@, i as int));
            return true;
        }
        assert(!occurs_at(h@, n@, i as int)) by {
            if h@.subrange(i as int, i + n@.len()) == n@ {
                assert forall|k: int| 0 <= k < n@.len() implies h@[i + k] == n@[k] by {
                    assert(h@.subrange(i as int, i + n@.len())[k] == h@[i + k]);
                };
            }
        };
        i = i + 1;
    }
    assert forall|k: int| !occurs_at(h@, n@, k) by {
        if 0 <= k && k < i {
        }
    };
    false
}

/// The error for a pending guest exception with string form `message`: one
/// that mentions running out of memory is `OutOfMemory`; any other is an
/// `Exception` carrying the string.
pub open spec fn classified_exception<G, R>(message: String) -> ExecutionError<G, R> {
    if contains_bytes(utf8_of(message@), utf8_of("out of memory"@)) {
        ExecutionError::OutOfMemory
    } else {
        ExecutionError::Exception(JsValue::String(message))
    }
}

/// The error for a pending guest exception, given its string form.
pub fn exception_from_message<G, R>(message: String) -> (r: ExecutionError<G, R>)
    ensures
        r == classified_exception::<G, R>(message),
{
    if contains_str(message.as_str(), "out of memory") {
        ExecutionError::OutOfMemory
    } else {
        ExecutionError::Exception(JsValue::String(message))
    }
}

/// The error reported when the guest signals an exception: the pending
/// exception where there is one, else a generic one.
pub fn pending_or_unknown<G, R>(pending: Option<ExecutionError<G, R>>) -> (r: ExecutionError<G, R>)
    ensures
        match pending {
            Some(e) => r == e,
            None => r is Exception && r->Exception_0 is String && r->Exception_0->String_0@
                == "Unknown exception"@,
        },
{
    match pending {
        Some(e) => e,
        None => ExecutionError::Exception(JsValue::String(String::from_str("Unknown exception"))),
    }
}

/// The outcome of running one pending job, given the runtime's status code
/// (negative when the job threw, zero when no job was pending) and the
/// exception pending after a failure.
pub fn pending_job_outcome<G, R>(status: i32, pending: Option<ExecutionError<G, R>>) -> (r: Result<bool, ExecutionError<G, R>>)
    ensures
        status >= 0 ==> r == Ok::<bool, ExecutionError<G, R>>(status != 0),
        status < 0 ==> r is Err && match pending {
            Some(e) => r->Err_0 == e,
            None => r->Err_0 is Exception,
        },
{
    if status < 0 {
        Err(pending_or_unknown(pending))
    } else {
        Ok(status != 0)
    }
}

} // verus!
