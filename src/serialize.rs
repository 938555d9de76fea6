//! Serialization of host values into guest values, as a build plan.
//!
//! A host value is turned into a sequence of steps over a stack of guest
//! values: leaves and empty containers are pushed, and each `Define` step pops
//! the value on top and stores it in the container beneath. Every check that
//! can fail on the host side is made while the plan is built, before the guest
//! heap is touched; the runtime that carries out the steps owns each value on
//! its stack, so a step that fails there releases everything built so far.

use vstd::prelude::*;
use crate::bigint::JsBigInt;
use crate::value::{JsValue, ValueError, elements_well_formed, keys_unique, properties_well_formed, well_formed};
use crate::convert::{first_zero, nul_position, utf8_of};

verus! {

/// One step of a build plan.
#[derive(Debug, PartialEq)]
pub enum BuildStep<G, R> {
    Undefined,
    Null,
    Bool(bool),
    Int(i32),
    /// A double, as its IEEE-754 binary64 bit pattern.
    Float(u64),
    String(String),
    /// A `Date` built from milliseconds since the Unix epoch.
    Date(i64),
    BigInt(JsBigInt),
    /// Duplicates an owned guest reference onto the stack.
    Guest(G),
    /// Embeds a host resource in a new object of the resource class.
    Resource(R),
    NewArray,
    NewObject,
    /// Pops the top value and defines it at this index of the array beneath.
    DefineIndex(u32),
    /// Pops the top value and defines it under this key of the object beneath.
    DefineKey(String),
}

/// The plan that builds `v`.
pub open spec fn plan_of<G, R>(v: JsValue<G, R>) -> Seq<BuildStep<G, R>>
    decreases v,
{
    match v {
        JsValue::Undefined => seq![BuildStep::Undefined],
        JsValue::Null => seq![BuildStep::Null],
        JsValue::Bool(b) => seq![BuildStep::Bool(b)],
        JsValue::Int(i) => seq![BuildStep::Int(i)],
        JsValue::Float(f) => seq![BuildStep::Float(f)],
        JsValue::String(s) => seq![BuildStep::String(s)],
        JsValue::Date(d) => seq![BuildStep::Date(d)],
        JsValue::BigInt(b) => seq![BuildStep::BigInt(b)],
        JsValue::Raw(g) => seq![BuildStep::Guest(g)],
        JsValue::Exception(g) => seq![BuildStep::Guest(g)],
        JsValue::Resource(r) => seq![BuildStep::Resource(r)],
        JsValue::Array(items) => seq![BuildStep::NewArray] + elements_plan(items@, 0),
        JsValue::Object(props) => seq![BuildStep::NewObject] + properties_plan(props@),
    }
}

/// The steps that build the elements `s` and store them at indices `base`,
/// `base + 1`, ... of the array beneath.
pub open spec fn elements_plan<G, R>(s: Seq<JsValue<G, R>>, base: nat) -> Seq<BuildStep<G, R>>
    decreases s,
{
    if s.len() == 0 {
        seq![]
    } else {
        plan_of(s[0]) + seq![BuildStep::DefineIndex(base as u32)] + elements_plan(
            s.subrange(1, s.len() as int),
            base + 1,
        )
    }
}

/// The steps that build the values of `s` and store each under its key in
/// the object beneath.
pub open spec fn properties_plan<G, R>(s: Seq<(String, JsValue<G, R>)>) -> Seq<BuildStep<G, R>>
    decreases s,
{
    if s.len() == 0 {
        seq![]
    } else {
        plan_of(s[0].1) + seq![BuildStep::DefineKey(s[0].0)] + properties_plan(
            s.subrange(1, s.len() as int),
        )
    }
}

/// The largest number of elements an array may have: every index must fit in
/// the guest's 32-bit array indices.
pub const MAX_ARRAY_LEN: usize = 4294967295;

/// Why a host value cannot be serialized.
#[derive(Clone, Copy, Debug, PartialEq, Eq)]
pub enum PlanFault {
    /// An object key holds a NUL byte at this byte position.
    NulInKey(usize),
    /// An array has more than `MAX_ARRAY_LEN` elements.
    ArrayTooLong,
    /// An object holds the same key twice.
    DuplicateKey,
}

/// The first fault met while walking `v`: the elements of an array in order;
/// the properties of an object in order, each key (its bytes, then whether
/// it repeats an earlier key) before its value.
pub open spec fn plan_fault<G, R>(v: JsValue<G, R>) -> Option<PlanFault>
    decreases v,
{
    match v {
        JsValue::Array(items) => if items@.len() > MAX_ARRAY_LEN {
            Some(PlanFault::ArrayTooLong)
        } else {
            elements_fault(items@)
        },
        JsValue::Object(props) => properties_fault(props@, seq![]),
        _ => None,
    }
}

/// The first fault among the elements `s`.
pub open spec fn elements_fault<G, R>(s: Seq<JsValue<G, R>>) -> Option<PlanFault>
    decreases s,
{
    if s.len() == 0 {
        None
    } else {
        match plan_fault(s[0]) {
            Some(f) => Some(f),
            None => elements_fault(s.subrange(1, s.len() as int)),
        }
    }
}

/// The first fault among the properties `s` of an object whose earlier
/// properties have the keys `seen`.
pub open spec fn properties_fault<G, R>(s: Seq<(String, JsValue<G, R>)>, seen: Seq<Seq<char>>) -> Option<PlanFault>
    decreases s,
{
    if s.len() == 0 {
        None
    } else {
        match first_zero(utf8_of(s[0].0@)) {
            Some(p) => Some(PlanFault::NulInKey(p as usize)),
            None => if seen.contains(s[0].0@) {
                Some(PlanFault::DuplicateKey)
            } else {
                match plan_fault(s[0].1) {
                    Some(f) => Some(f),
                    None => properties_fault(s.subrange(1, s.len() as int), seen.push(s[0].0@)),
                }
            },
        }
    }
}

/// The views of the keys `keys`.
pub open spec fn key_views(keys: Seq<String>) -> Seq<Seq<char>> {
    keys.map_values(|k: String| k@)
}

/// Whether `key` is one of `keys`.
fn contains_key(keys: &Vec<String>, key: &String) -> (r: bool)
    ensures
        r == key_views(keys@).contains(key@),
{
    let mut j: usize = 0;
    while j < keys.len()
        invariant
            j <= keys@.len(),
            forall|k: int| 0 <= k < j ==> keys@[k]@ != key@,
        decreases keys@.len() - j,
    {
        if keys[j] == *key {
            assert(key_views(keys@)[j as int] == key@);
            return true;
        }
        j = j + 1;
    }
    assert(!key_views(keys@).contains(key@)) by {
        if key_views(keys@).contains(key@) {
            let k = choose|k: int| 0 <= k < key_views(keys@).len() && key_views(keys@)[k] == key@;
            assert(keys@[k]@ == key@);
        }
    };
    false
}

/// The error reported for a fault.
pub open spec fn fault_reported(f: PlanFault, e: ValueError) -> bool {
    match f {
        PlanFault::NulInKey(p) => e == ValueError::StringWithZeroBytes(p),
        PlanFault::ArrayTooLong => e is Internal,
        PlanFault::DuplicateKey => e is Internal,
    }
}

proof fn lemma_elements_fault_free<G, R>(s: Seq<JsValue<G, R>>)
    requires
        elements_fault(s) is None,
    ensures
        elements_well_formed(s),
    decreases s,
{
    if s.len() > 0 {
        lemma_fault_free_well_formed(s[0]);
        lemma_elements_fault_free(s.subrange(1, s.len() as int));
    }
}

proof fn lemma_properties_fault_free<G, R>(s: Seq<(String, JsValue<G, R>)>, seen: Seq<Seq<char>>)
    requires
        properties_fault(s, seen) is None,
    ensures
        keys_unique(s),
        forall|i: int| 0 <= i < s.len() ==> !seen.contains(#[trigger] s[i].0@),
        properties_well_formed(s),
    decreases s,
{
    if s.len() > 0 {
        let rest = s.subrange(1, s.len() as int);
        let seen2 = seen.push(s[0].0@);
        lemma_fault_free_well_formed(s[0].1);
        lemma_properties_fault_free(rest, seen2);
        assert forall|i: int| 0 <= i < s.len() implies !seen.contains(#[trigger] s[i].0@) by {
            if i > 0 {
                assert(s[i] == rest[i - 1]);
                if seen.contains(s[i].0@) {
                    let k = choose|k: int| 0 <= k < seen.len() && seen[k] == s[i].0@;
                    assert(seen2[k] == s[i].0@);
                }
            }
        };
        assert forall|i: int, j: int| 0 <= i < j < s.len() implies #[trigger] s[i].0@ != #[trigger] s[j].0@ by {
            assert(s[j] == rest[j - 1]);
            if i == 0 {
                assert(seen2[seen.len() as int] == s[0].0@);
                assert(!seen2.contains(rest[j - 1].0@));
            } else {
                assert(s[i] == rest[i - 1]);
            }
        };
    }
}

/// A value whose walk meets no fault is well formed.
pub proof fn lemma_fault_free_well_formed<G, R>(v: JsValue<G, R>)
    requires
        plan_fault(v) is None,
    ensures
        well_formed(v),
    decreases v,
{
    match v {
        JsValue::Array(items) => {
            lemma_elements_fault_free(items@);
        },
        JsValue::Object(props) => {
            lemma_properties_fault_free(props@, seq![]);
        },
        _ => {},
    }
}

/// The elements of `v` in reverse order.
pub(crate) fn reversed<T>(v: Vec<T>) -> (r: Vec<T>)
    ensures
        r@.len() == v@.len(),
        forall|i: int| 0 <= i < v@.len() ==> r@[i] == v@[v@.len() - 1 - i],
{
    let ghost orig = v@;
    let mut v = v;
    let mut r: Vec<T> = Vec::new();
    while v.len() > 0
        invariant
            v@ == orig.subrange(0, v@.len() as int),
            r@.len() + v@.len() == orig.len(),
            forall|i: int| 0 <= i < r@.len() ==> r@[i] == orig[orig.len() - 1 - i],
        decreases v@.len(),
    {
        let x = v.pop().unwrap();
        r.push(x);
    }
    r
}

/// Appends the plan that builds `v` to `out`.
fn plan_into<G, R>(v: JsValue<G, R>, out: &mut Vec<BuildStep<G, R>>) -> (r: Result<(), ValueError>)
    ensures
        match plan_fault(v) {
            None => r is Ok && final(out)@ == old(out)@ + plan_of(v),
            Some(f) => r is Err && fault_reported(f, r->Err_0),
        },
    decreases v,
{
    let ghost v0 = v;
    match v {
        JsValue::Undefined => out.push(BuildStep::Undefined),
        JsValue::Null => out.push(BuildStep::Null),
        JsValue::Bool(b) => out.push(BuildStep::Bool(b)),
        JsValue::Int(i) => out.push(BuildStep::Int(i)),
        JsValue::Float(f) => out.push(BuildStep::Float(f)),
        JsValue::String(s) => out.push(BuildStep::String(s)),
        JsValue::Date(d) => out.push(BuildStep::Date(d)),
        JsValue::BigInt(b) => out.push(BuildStep::BigInt(b)),
        JsValue::Raw(g) => out.push(BuildStep::Guest(g)),
        JsValue::Exception(g) => out.push(BuildStep::Guest(g)),
        JsValue::Resource(res) => out.push(BuildStep::Resource(res)),
        JsValue::Array(items) => {
            if items.len() > MAX_ARRAY_LEN {
                return Err(ValueError::Internal(String::from_str("Could not append element to array")));
            }
            let ghost s = items@;
            let ghost start = old(out)@;
            out.push(BuildStep::NewArray);
            assert(s.subrange(0, s.len() as int) =~= s);
            let mut rest = reversed(items);
            let mut i: usize = 0;
            while rest.len() > 0
                invariant
                    i + rest@.len() == s.len(),
                    s.len() <= MAX_ARRAY_LEN,
                    forall|j: int| 0 <= j < rest@.len() ==> rest@[j] == s[s.len() - 1 - j],
                    elements_fault(s) == elements_fault(s.subrange(i as int, s.len() as int)),
                    start + plan_of(v0) == out@ + elements_plan(s.subrange(i as int, s.len() as int), i as nat),
                    v0 == JsValue::<G, R>::Array(items),
                    v0 == v,
                    s == items@,
                decreases rest@.len(),
            {
                let e = rest.pop().unwrap();
                let ghost tail = s.subrange(i as int, s.len() as int);
                assert(e == tail[0]);
                assert(tail.subrange(1, tail.len() as int) =~= s.subrange(i + 1, s.len() as int));
                assert(decreases_to!(v0 => e)) by {
                    assert(decreases_to!(v0 => v0->Array_0));
                    assert(decreases_to!(v0->Array_0 => v0->Array_0@));
                    assert(decreases_to!(v0->Array_0@ => v0->Array_0@[i as int]));
                };
                match plan_into(e, out) {
                    Ok(()) => {},
                    Err(err) => {
                        return Err(err);
                    },
                }
                out.push(BuildStep::DefineIndex(i as u32));
                i = i + 1;
            }
            assert(s.subrange(i as int, s.len() as int) =~= Seq::<JsValue<G, R>>::empty());
        },
        JsValue::Object(props) => {
            let count = props.len();
            let ghost s = props@;
            let ghost start = old(out)@;
            out.push(BuildStep::NewObject);
            assert(s.subrange(0, s.len() as int) =~= s);
            let mut rest = reversed(props);
            let mut seen: Vec<String> = Vec::new();
            let mut i: usize = 0;
            assert(key_views(seen@) =~= Seq::<Seq<char>>::empty());
            while rest.len() > 0
                invariant
                    i + rest@.len() == s.len(),
                    s.len() == count,
                    forall|j: int| 0 <= j < rest@.len() ==> rest@[j] == s[s.len() - 1 - j],
                    properties_fault(s, seq![]) == properties_fault(
                        s.subrange(i as int, s.len() as int),
                        key_views(seen@),
                    ),
                    start + plan_of(v0) == out@ + properties_plan(s.subrange(i as int, s.len() as int)),
                    v0 == JsValue::<G, R>::Object(props),
                    v0 == v,
                    s == props@,
                decreases rest@.len(),
            {
                let (key, e) = rest.pop().unwrap();
                let ghost tail = s.subrange(i as int, s.len() as int);
                assert((key, e) == tail[0]);
                assert(tail.subrange(1, tail.len() as int) =~= s.subrange(i + 1, s.len() as int));
                match nul_position(key.as_str()) {
                    Some(p) => {
                        return Err(ValueError::StringWithZeroBytes(p));
                    },
                    None => {},
                }
                if contains_key(&seen, &key) {
                    return Err(ValueError::Internal(String::from_str("Duplicate property key in object")));
                }
                assert(decreases_to!(v0 => e)) by {
                    assert(decreases_to!(v0 => v0->Object_0));
                    assert(decreases_to!(v0->Object_0 => v0->Object_0@));
                    assert(decreases_to!(v0->Object_0@ => v0->Object_0@[i as int]));
                    assert(decreases_to!(v0->Object_0@[i as int] => v0->Object_0@[i as int].1));
                };
                match plan_into(e, out) {
                    Ok(()) => {},
                    Err(err) => {
                        return Err(err);
                    },
                }
                let ghost before = seen@;
                seen.push(key.clone());
                assert(key_views(seen@) =~= key_views(before).push(key@));
                out.push(BuildStep::DefineKey(key));
                i = i + 1;
            }
            assert(s.subrange(i as int, s.len() as int) =~= Seq::<(String, JsValue<G, R>)>::empty());
        },
    }
    Ok(())
}

/// The build plan for a host value, or the error met first while walking it:
/// a NUL byte in an object key, a key repeated within one object, or an
/// array too long for guest indices. A value that serializes is well formed.
pub fn serialize_value<G, R>(value: JsValue<G, R>) -> (r: Result<Vec<BuildStep<G, R>>, ValueError>)
    ensures
        match plan_fault(value) {
            None => r is Ok && r->Ok_0@ == plan_of(value),
            Some(f) => r is Err && fault_reported(f, r->Err_0),
        },
        r is Ok ==> well_formed(value),
{
    proof {
        if plan_fault(value) is None {
            lemma_fault_free_well_formed(value);
        }
    }
    let mut out: Vec<BuildStep<G, R>> = Vec::new();
    match plan_into(value, &mut out) {
        Ok(()) => {
            assert(out@ =~= plan_of(value));
            Ok(out)
        },
        Err(e) => Err(e),
    }
}

} // verus!
