//! The value model exchanged with the guest runtime.

use vstd::prelude::*;
use crate::bigint::{BigIntOrI64, JsBigInt, bigint_inner, big_i64_of, big_u64_of, big_i128_of, big_u128_of};
use vstd::arithmetic::power2::{pow2, lemma_pow2_unfold, lemma_pow2_adds, lemma_pow2_strictly_increases, lemma2_to64, lemma2_to64_rest};

verus! {

/// A value that crosses the boundary between host and guest.
///
/// `G` is the host's owning handle on one guest reference (used for functions,
/// exceptions and guest objects kept unconverted); `R` is the host's shared
/// resource cell embedded in the guest heap. Each `G` owns exactly one guest
/// reference, so cloning a value duplicates it and dropping a value releases it.
#[derive(Debug, PartialEq)]
pub enum JsValue<G, R> {
    Undefined,
    Null,
    Bool(bool),
    Int(i32),
    /// A double, held as its IEEE-754 binary64 bit pattern.
    Float(u64),
    String(String),
    Array(Vec<JsValue<G, R>>),
    /// The own enumerable properties of a plain object, each key once.
    Object(Vec<(String, JsValue<G, R>)>),
    Resource(R),
    Raw(G),
    Exception(G),
    /// A date, as milliseconds since the Unix epoch.
    Date(i64),
    BigInt(JsBigInt),
}

impl<G: Clone, R: Clone> Clone for JsValue<G, R> {
    /// A copy of the value; each guest reference and resource inside is
    /// cloned as its own type clones.
    fn clone(&self) -> (r: JsValue<G, R>)
        ensures
            variant_name(r) == variant_name(*self),
            (self is Undefined || self is Null || self is Bool || self is Int || self is Float
                || self is Date) ==> r == *self,
            self is String ==> r->String_0@ == self->String_0@,
            self is Array ==> r->Array_0@.len() == self->Array_0@.len(),
            self is Object ==> r->Object_0@.len() == self->Object_0@.len() && forall|j: int|
                0 <= j < self->Object_0@.len() ==> #[trigger] r->Object_0@[j].0@ == self->Object_0@[j].0@,
        decreases self,
    {
        match self {
            JsValue::Undefined => JsValue::Undefined,
            JsValue::Null => JsValue::Null,
            JsValue::Bool(b) => JsValue::Bool(*b),
            JsValue::Int(i) => JsValue::Int(*i),
            JsValue::Float(f) => JsValue::Float(*f),
            JsValue::String(s) => JsValue::String(s.clone()),
            JsValue::Date(d) => JsValue::Date(*d),
            JsValue::BigInt(b) => JsValue::BigInt(b.clone()),
            JsValue::Raw(g) => JsValue::Raw(g.clone()),
            JsValue::Exception(g) => JsValue::Exception(g.clone()),
            JsValue::Resource(r) => JsValue::Resource(r.clone()),
            JsValue::Array(items) => {
                let mut out: Vec<JsValue<G, R>> = Vec::new();
                let mut i: usize = 0;
                while i < items.len()
                    invariant
                        i <= items@.len(),
                        out@.len() == i,
                        *self == JsValue::<G, R>::Array(*items),
                    decreases items@.len() - i,
                {
                    proof {
                        assert(decreases_to!(*self => self->Array_0));
                        assert(decreases_to!(*items => items@));
                        assert(decreases_to!(items@ => items@[i as int]));
                    }
                    out.push(items[i].clone());
                    i = i + 1;
                }
                JsValue::Array(out)
            },
            JsValue::Object(props) => {
                let mut out: Vec<(String, JsValue<G, R>)> = Vec::new();
                let mut i: usize = 0;
                while i < props.len()
                    invariant
                        i <= props@.len(),
                        out@.len() == i,
                        forall|j: int| 0 <= j < i ==> #[trigger] out@[j].0@ == props@[j].0@,
                        *self == JsValue::<G, R>::Object(*props),
                    decreases props@.len() - i,
                {
                    proof {
                        assert(decreases_to!(*self => self->Object_0));
                        assert(decreases_to!(*props => props@));
                        assert(decreases_to!(props@ => props@[i as int]));
                        assert(decreases_to!(props@[i as int] => props@[i as int].1));
                    }
                    let key = props[i].0.clone();
                    let value = props[i].1.clone();
                    out.push((key, value));
                    i = i + 1;
                }
                JsValue::Object(out)
            },
        }
    }
}

/// Error during value conversion.
#[derive(Clone, Debug, PartialEq, Eq)]
pub enum ValueError {
    /// A guest string that is not valid UTF-8; the payload is the length of
    /// its longest valid prefix.
    InvalidString(usize),
    /// A string that holds a NUL byte where the runtime needs a C string; the
    /// payload is the byte position of the first one.
    StringWithZeroBytes(usize),
    /// Internal error.
    Internal(String),
    /// Received an unexpected type that could not be converted.
    UnexpectedType,
}

/// The name of a value's variant.
pub open spec fn variant_name<G, R>(v: JsValue<G, R>) -> Seq<char> {
    match v {
        JsValue::Undefined => "undefined"@,
        JsValue::Null => "null"@,
        JsValue::Bool(_) => "boolean"@,
        JsValue::Int(_) => "int"@,
        JsValue::Float(_) => "float"@,
        JsValue::String(_) => "string"@,
        JsValue::Array(_) => "array"@,
        JsValue::Object(_) => "object"@,
        JsValue::Resource(_) => "resource"@,
        JsValue::Raw(_) => "raw"@,
        JsValue::Exception(_) => "exception"@,
        JsValue::Date(_) => "date"@,
        JsValue::BigInt(_) => "bigint"@,
    }
}

/// No key occurs twice.
pub open spec fn keys_unique<V>(props: Seq<(String, V)>) -> bool {
    forall|i: int, j: int|
        0 <= i < j < props.len() ==> #[trigger] props[i].0@ != #[trigger] props[j].0@
}

/// Every object inside `v` has each key once: the invariant of the value
/// model, which objects read from the guest and values that serialize meet.
pub open spec fn well_formed<G, R>(v: JsValue<G, R>) -> bool
    decreases v,
{
    match v {
        JsValue::Array(items) => elements_well_formed(items@),
        JsValue::Object(props) => keys_unique(props@) && properties_well_formed(props@),
        _ => true,
    }
}

/// Every element of `s` is well formed.
pub open spec fn elements_well_formed<G, R>(s: Seq<JsValue<G, R>>) -> bool
    decreases s,
{
    s.len() == 0 || (well_formed(s[0]) && elements_well_formed(s.subrange(1, s.len() as int)))
}

/// Every property value of `s` is well formed.
pub open spec fn properties_well_formed<G, R>(s: Seq<(String, JsValue<G, R>)>) -> bool
    decreases s,
{
    s.len() == 0 || (well_formed(s[0].1) && properties_well_formed(s.subrange(1, s.len() as int)))
}

/// The message of a value error, where it does not quote a number.
pub open spec fn value_error_message(e: ValueError) -> Seq<char> {
    match e {
        ValueError::InvalidString(_) => "Value conversion failed - invalid non-utf8 string"@,
        ValueError::StringWithZeroBytes(_) => "String contains \\0 bytes"@,
        ValueError::Internal(d) => "Value conversion failed - internal error: "@ + d@,
        ValueError::UnexpectedType => "Could not convert - received unexpected type"@,
    }
}

/// `d` is the message of `e`.
pub open spec fn value_error_text(e: ValueError, d: Seq<char>) -> bool {
    if e is InvalidString {
        exists|t: String|
            vstd::string::to_string_from_display_ensures::<usize>(&e->InvalidString_0, t) && d
                == value_error_message(e) + ": invalid utf-8 from index "@ + t@
    } else {
        d == value_error_message(e)
    }
}

/// `Ok` with the number where there is one, else `UnexpectedType`.
pub open spec fn ok_or_unexpected<T>(v: Option<T>) -> Result<T, ValueError> {
    match v {
        Some(x) => Ok(x),
        None => Err(ValueError::UnexpectedType),
    }
}

/// The position of the highest set bit of a positive number.
pub open spec fn highest_bit(x: nat) -> nat
    decreases x,
{
    if x <= 1 {
        0
    } else {
        1 + highest_bit(x / 2)
    }
}

/// The IEEE-754 binary64 bit pattern of a 32-bit unsigned integer, which a
/// double holds exactly: zero is all zero bits; otherwise, for the position
/// `p` of the highest set bit, the exponent field is `1023 + p` and the
/// fraction field holds the bits below it, moved to the top of its 52 bits.
pub open spec fn f64_bits_of_u32(x: u32) -> u64 {
    if x == 0 {
        0
    } else {
        let p = highest_bit(x as nat);
        ((1023 + p) * pow2(52) + (x - pow2(p)) * pow2((52 - p) as nat)) as u64
    }
}

proof fn lemma_highest_bit_bounds(x: nat)
    requires
        x >= 1,
    ensures
        pow2(highest_bit(x)) <= x < pow2(highest_bit(x) + 1),
    decreases x,
{
    lemma_pow2_unfold(highest_bit(x) + 1);
    if x > 1 {
        lemma_highest_bit_bounds(x / 2);
        lemma_pow2_unfold(highest_bit(x / 2) + 1);
        lemma_pow2_unfold(highest_bit(x / 2) + 2);
    } else {
        lemma2_to64();
    }
}

/// The bit pattern of the double equal to `x`.
fn u32_to_f64_bits(x: u32) -> (r: u64)
    ensures
        r == f64_bits_of_u32(x),
{
    if x == 0 {
        return 0;
    }
    let mut t: u32 = x;
    let mut p: u64 = 0;
    let mut pw: u64 = 1;
    proof {
        lemma2_to64();
    }
    while t > 1
        invariant
            1 <= t <= x,
            highest_bit(x as nat) == p + highest_bit(t as nat),
            pw == pow2(p as nat),
            pw as nat * t as nat <= x,
            p <= 32,
        decreases t,
    {
        proof {
            lemma_pow2_unfold((p + 1) as nat);
            lemma_highest_bit_bounds(t as nat);
            assert(pw * 2 * (t / 2) <= pw * t) by (nonlinear_arith)
                requires t >= 2;
            assert(pw * 2 <= pw * t) by (nonlinear_arith)
                requires t >= 2;
            if p >= 32 {
                if p > 32 {
                    lemma_pow2_strictly_increases(32, p as nat);
                }
                lemma2_to64();
            }
        }
        t = t / 2;
        p = p + 1;
        pw = pw * 2;
    }
    proof {
        lemma_highest_bit_bounds(x as nat);
        if p >= 32 {
            if p > 32 {
                lemma_pow2_strictly_increases(32, p as nat);
            }
            lemma2_to64();
        }
        lemma_pow2_adds(p as nat, (52 - p) as nat);
        lemma2_to64_rest();
    }
    let mut scale: u64 = 1;
    let mut k: u64 = 0;
    while k < 52 - p
        invariant
            p < 32,
            k <= 52 - p,
            scale == pow2(k as nat),
            pow2(52) == 0x10000000000000,
            pow2(p as nat) * pow2((52 - p) as nat) == pow2(52),
        decreases 52 - p - k,
    {
        proof {
            lemma_pow2_unfold((k + 1) as nat);
            lemma_pow2_strictly_increases((k + 1) as nat, 53);
            lemma2_to64_rest();
        }
        scale = scale * 2;
        k = k + 1;
    }
    proof {
        assert((x - pw) * scale < pow2(52)) by (nonlinear_arith)
            requires
                x - pw < pw,
                pw * scale == pow2(52),
                scale > 0;
    }
    (1023 + p) * 0x10000000000000 + (x as u64 - pw) * scale
}

impl ValueError {
    /// The error's message. An invalid string also gives the position of its
    /// first invalid byte.
    pub fn to_string(&self) -> (r: String)
        ensures
            value_error_text(*self, r@),
    {
        match self {
            ValueError::InvalidString(n) => {
                let t = n.to_string();
                let r = String::from_str("Value conversion failed - invalid non-utf8 string").concat(
                    ": invalid utf-8 from index ",
                ).concat(t.as_str());
                r
            },
            ValueError::StringWithZeroBytes(_) => String::from_str("String contains \\0 bytes"),
            ValueError::Internal(d) => String::from_str("Value conversion failed - internal error: ").concat(
                d.as_str(),
            ),
            ValueError::UnexpectedType => String::from_str("Could not convert - received unexpected type"),
        }
    }
}

impl<G, R> JsValue<G, R> {
    /// The name of the value's variant.
    pub fn value_type(&self) -> (r: &'static str)
        ensures
            r@ == variant_name(*self),
    {
        proof {
            reveal_strlit("undefined");
            reveal_strlit("null");
            reveal_strlit("boolean");
            reveal_strlit("int");
            reveal_strlit("float");
            reveal_strlit("string");
            reveal_strlit("array");
            reveal_strlit("object");
            reveal_strlit("resource");
            reveal_strlit("raw");
            reveal_strlit("exception");
            reveal_strlit("date");
            reveal_strlit("bigint");
        }
        match self {
            JsValue::Undefined => "undefined",
            JsValue::Null => "null",
            JsValue::Bool(_) => "boolean",
            JsValue::Int(_) => "int",
            JsValue::Float(_) => "float",
            JsValue::String(_) => "string",
            JsValue::Array(_) => "array",
            JsValue::Object(_) => "object",
            JsValue::Resource(_) => "resource",
            JsValue::Raw(_) => "raw",
            JsValue::Exception(_) => "exception",
            JsValue::Date(_) => "date",
            JsValue::BigInt(_) => "bigint",
        }
    }

    /// The text of a string value; `None` for any other variant.
    pub fn as_str(&self) -> (r: Option<&str>)
        ensures
            match *self {
                JsValue::String(s) => r is Some && r->0@ == s@,
                _ => r is None,
            },
    {
        match self {
            JsValue::String(s) => Some(s.as_str()),
            _ => None,
        }
    }

    /// The string of a string value; `None` for any other variant.
    pub fn into_string(self) -> (r: Option<String>)
        ensures
            match self {
                JsValue::String(s) => r == Some(s),
                _ => r is None,
            },
    {
        match self {
            JsValue::String(s) => Some(s),
            _ => None,
        }
    }

    /// The double equal to `x`.
    pub fn from_u32(x: u32) -> (r: JsValue<G, R>)
        ensures
            r == JsValue::<G, R>::Float(f64_bits_of_u32(x)),
    {
        JsValue::Float(u32_to_f64_bits(x))
    }

    /// The boolean of a boolean value, else `UnexpectedType`.
    pub fn to_bool(&self) -> (r: Result<bool, ValueError>)
        ensures
            match *self {
                JsValue::Bool(b) => r == Ok::<bool, ValueError>(b),
                _ => r == Err::<bool, ValueError>(ValueError::UnexpectedType),
            },
    {
        match self {
            JsValue::Bool(b) => Ok(*b),
            _ => Err(ValueError::UnexpectedType),
        }
    }

    /// The integer of an int value, else `UnexpectedType`.
    pub fn to_i32(&self) -> (r: Result<i32, ValueError>)
        ensures
            match *self {
                JsValue::Int(i) => r == Ok::<i32, ValueError>(i),
                _ => r == Err::<i32, ValueError>(ValueError::UnexpectedType),
            },
    {
        match self {
            JsValue::Int(i) => Ok(*i),
            _ => Err(ValueError::UnexpectedType),
        }
    }

    /// The number of an int or big-integer value as an `i64`, else
    /// `UnexpectedType`.
    pub fn to_i64(&self) -> (r: Result<i64, ValueError>)
        ensures
            match *self {
                JsValue::Int(i) => r == Ok::<i64, ValueError>(i as i64),
                JsValue::BigInt(b) => r == match b.inner {
                    BigIntOrI64::Int(x) => Ok::<i64, ValueError>(x),
                    BigIntOrI64::BigInt(n) => ok_or_unexpected(big_i64_of(n)),
                },
                _ => r == Err::<i64, ValueError>(ValueError::UnexpectedType),
            },
    {
        match self {
            JsValue::Int(i) => Ok(*i as i64),
            JsValue::BigInt(b) => match b.as_i64() {
                Some(v) => Ok(v),
                None => Err(ValueError::UnexpectedType),
            },
            _ => Err(ValueError::UnexpectedType),
        }
    }

    /// The number of an int or big-integer value as a `u64`, else
    /// `UnexpectedType`; an int is cast as it is.
    pub fn to_u64(&self) -> (r: Result<u64, ValueError>)
        ensures
            match *self {
                JsValue::Int(i) => r == Ok::<u64, ValueError>(i as u64),
                JsValue::BigInt(b) => r == match b.inner {
                    BigIntOrI64::Int(x) => ok_or_unexpected(if x >= 0 { Some(x as u64) } else { None }),
                    BigIntOrI64::BigInt(n) => ok_or_unexpected(big_u64_of(n)),
                },
                _ => r == Err::<u64, ValueError>(ValueError::UnexpectedType),
            },
    {
        match self {
            JsValue::Int(i) => Ok(*i as u64),
            JsValue::BigInt(b) => match b.as_u64() {
                Some(v) => Ok(v),
                None => Err(ValueError::UnexpectedType),
            },
            _ => Err(ValueError::UnexpectedType),
        }
    }

    /// The number of an int or big-integer value as an `i128`, else
    /// `UnexpectedType`.
    pub fn to_i128(&self) -> (r: Result<i128, ValueError>)
        ensures
            match *self {
                JsValue::Int(i) => r == Ok::<i128, ValueError>(i as i128),
                JsValue::BigInt(b) => r == match b.inner {
                    BigIntOrI64::Int(x) => Ok::<i128, ValueError>(x as i128),
                    BigIntOrI64::BigInt(n) => ok_or_unexpected(big_i128_of(n)),
                },
                _ => r == Err::<i128, ValueError>(ValueError::UnexpectedType),
            },
    {
        match self {
            JsValue::Int(i) => Ok(*i as i128),
            JsValue::BigInt(b) => match b.as_i128() {
                Some(v) => Ok(v),
                None => Err(ValueError::UnexpectedType),
            },
            _ => Err(ValueError::UnexpectedType),
        }
    }

    /// The number of an int or big-integer value as a `u128`, else
    /// `UnexpectedType`; an int is cast as it is.
    pub fn to_u128(&self) -> (r: Result<u128, ValueError>)
        ensures
            match *self {
                JsValue::Int(i) => r == Ok::<u128, ValueError>(i as u128),
                JsValue::BigInt(b) => r == match b.inner {
                    BigIntOrI64::Int(x) => ok_or_unexpected(if x >= 0 { Some(x as u128) } else { None }),
                    BigIntOrI64::BigInt(n) => ok_or_unexpected(big_u128_of(n)),
                },
                _ => r == Err::<u128, ValueError>(ValueError::UnexpectedType),
            },
    {
        match self {
            JsValue::Int(i) => Ok(*i as u128),
            JsValue::BigInt(b) => match b.as_u128() {
                Some(v) => Ok(v),
                None => Err(ValueError::UnexpectedType),
            },
            _ => Err(ValueError::UnexpectedType),
        }
    }

    /// The number of an int or big-integer value as an arbitrary-precision
    /// integer, else `UnexpectedType`.
    pub fn into_bigint(self) -> (r: Result<num_bigint::BigInt, ValueError>)
        ensures
            match self {
                JsValue::Int(_) => r is Ok,
                JsValue::BigInt(b) => r is Ok && (b.inner is BigInt ==> r->Ok_0 == b.inner->BigInt_0),
                _ => r == Err::<num_bigint::BigInt, ValueError>(ValueError::UnexpectedType),
            },
    {
        match self {
            JsValue::Int(i) => Ok(JsBigInt::from_i64(i as i64).into_bigint()),
            JsValue::BigInt(b) => Ok(b.into_bigint()),
            _ => Err(ValueError::UnexpectedType),
        }
    }
}

impl<G, R> From<bool> for JsValue<G, R> {
    fn from(v: bool) -> (r: JsValue<G, R>)
        ensures
            r == JsValue::<G, R>::Bool(v),
    {
        JsValue::Bool(v)
    }
}

impl<G, R> vstd::std_specs::convert::FromSpecImpl<bool> for JsValue<G, R> {
    open spec fn obeys_from_spec() -> bool {
        true
    }

    open spec fn from_spec(v: bool) -> JsValue<G, R> {
        JsValue::Bool(v)
    }
}

impl<G, R> From<i32> for JsValue<G, R> {
    fn from(v: i32) -> (r: JsValue<G, R>)
        ensures
            r == JsValue::<G, R>::Int(v),
    {
        JsValue::Int(v)
    }
}

impl<G, R> vstd::std_specs::convert::FromSpecImpl<i32> for JsValue<G, R> {
    open spec fn obeys_from_spec() -> bool {
        true
    }

    open spec fn from_spec(v: i32) -> JsValue<G, R> {
        JsValue::Int(v)
    }
}

impl<G, R> From<String> for JsValue<G, R> {
    fn from(v: String) -> (r: JsValue<G, R>)
        ensures
            r == JsValue::<G, R>::String(v),
    {
        JsValue::String(v)
    }
}

impl<G, R> vstd::std_specs::convert::FromSpecImpl<String> for JsValue<G, R> {
    open spec fn obeys_from_spec() -> bool {
        true
    }

    open spec fn from_spec(v: String) -> JsValue<G, R> {
        JsValue::String(v)
    }
}

impl<G, R> From<i8> for JsValue<G, R> {
    fn from(v: i8) -> (r: JsValue<G, R>)
        ensures
            r == JsValue::<G, R>::Int(v as i32),
    {
        JsValue::Int(v as i32)
    }
}

impl<G, R> vstd::std_specs::convert::FromSpecImpl<i8> for JsValue<G, R> {
    open spec fn obeys_from_spec() -> bool {
        true
    }

    open spec fn from_spec(v: i8) -> JsValue<G, R> {
        JsValue::Int(v as i32)
    }
}

impl<G, R> From<i16> for JsValue<G, R> {
    fn from(v: i16) -> (r: JsValue<G, R>)
        ensures
            r == JsValue::<G, R>::Int(v as i32),
    {
        JsValue::Int(v as i32)
    }
}

impl<G, R> vstd::std_specs::convert::FromSpecImpl<i16> for JsValue<G, R> {
    open spec fn obeys_from_spec() -> bool {
        true
    }

    open spec fn from_spec(v: i16) -> JsValue<G, R> {
        JsValue::Int(v as i32)
    }
}

impl<G, R> From<u8> for JsValue<G, R> {
    fn from(v: u8) -> (r: JsValue<G, R>)
        ensures
            r == JsValue::<G, R>::Int(v as i32),
    {
        JsValue::Int(v as i32)
    }
}

impl<G, R> vstd::std_specs::convert::FromSpecImpl<u8> for JsValue<G, R> {
    open spec fn obeys_from_spec() -> bool {
        true
    }

    open spec fn from_spec(v: u8) -> JsValue<G, R> {
        JsValue::Int(v as i32)
    }
}

impl<G, R> From<u16> for JsValue<G, R> {
    fn from(v: u16) -> (r: JsValue<G, R>)
        ensures
            r == JsValue::<G, R>::Int(v as i32),
    {
        JsValue::Int(v as i32)
    }
}

impl<G, R> vstd::std_specs::convert::FromSpecImpl<u16> for JsValue<G, R> {
    open spec fn obeys_from_spec() -> bool {
        true
    }

    open spec fn from_spec(v: u16) -> JsValue<G, R> {
        JsValue::Int(v as i32)
    }
}

impl<G, R> From<i64> for JsValue<G, R> {
    fn from(v: i64) -> (r: JsValue<G, R>)
        ensures
            r == JsValue::<G, R>::BigInt((JsBigInt { inner: BigIntOrI64::Int(v) })),
    {
        JsValue::BigInt(JsBigInt::from_i64(v))
    }
}

impl<G, R> vstd::std_specs::convert::FromSpecImpl<i64> for JsValue<G, R> {
    open spec fn obeys_from_spec() -> bool {
        true
    }

    open spec fn from_spec(v: i64) -> JsValue<G, R> {
        JsValue::BigInt(JsBigInt { inner: BigIntOrI64::Int(v) })
    }
}

impl<G, R> From<u32> for JsValue<G, R> {
    fn from(v: u32) -> (r: JsValue<G, R>)
        ensures
            r == JsValue::<G, R>::Float(f64_bits_of_u32(v)),
    {
        JsValue::from_u32(v)
    }
}

impl<G, R> vstd::std_specs::convert::FromSpecImpl<u32> for JsValue<G, R> {
    open spec fn obeys_from_spec() -> bool {
        true
    }

    open spec fn from_spec(v: u32) -> JsValue<G, R> {
        JsValue::Float(f64_bits_of_u32(v))
    }
}

/// A big integer; on the fast path where the number fits in an `i64`.
impl<G, R> From<u64> for JsValue<G, R> {
    fn from(v: u64) -> (r: JsValue<G, R>)
        ensures
            r is BigInt,
            v <= i64::MAX ==> r->BigInt_0.inner == BigIntOrI64::Int(v as i64),
            v > i64::MAX ==> r->BigInt_0.inner is BigInt,
    {
        JsValue::BigInt(JsBigInt::from_u64(v))
    }
}

impl<G, R> vstd::std_specs::convert::FromSpecImpl<u64> for JsValue<G, R> {
    open spec fn obeys_from_spec() -> bool {
        false
    }

    open spec fn from_spec(v: u64) -> JsValue<G, R> {
        JsValue::Undefined
    }
}

/// A big integer; on the fast path where the number fits in an `i64`.
impl<G, R> From<i128> for JsValue<G, R> {
    fn from(v: i128) -> (r: JsValue<G, R>)
        ensures
            r is BigInt,
            i64::MIN <= v <= i64::MAX ==> r->BigInt_0.inner == BigIntOrI64::Int(v as i64),
            !(i64::MIN <= v <= i64::MAX) ==> r->BigInt_0.inner is BigInt,
    {
        JsValue::BigInt(JsBigInt::from_i128(v))
    }
}

impl<G, R> vstd::std_specs::convert::FromSpecImpl<i128> for JsValue<G, R> {
    open spec fn obeys_from_spec() -> bool {
        false
    }

    open spec fn from_spec(v: i128) -> JsValue<G, R> {
        JsValue::Undefined
    }
}

/// A big integer; on the fast path where the number fits in an `i64`.
impl<G, R> From<u128> for JsValue<G, R> {
    fn from(v: u128) -> (r: JsValue<G, R>)
        ensures
            r is BigInt,
            v <= i64::MAX ==> r->BigInt_0.inner == BigIntOrI64::Int(v as i64),
            v > i64::MAX ==> r->BigInt_0.inner is BigInt,
    {
        JsValue::BigInt(JsBigInt::from_u128(v))
    }
}

impl<G, R> vstd::std_specs::convert::FromSpecImpl<u128> for JsValue<G, R> {
    open spec fn obeys_from_spec() -> bool {
        false
    }

    open spec fn from_spec(v: u128) -> JsValue<G, R> {
        JsValue::Undefined
    }
}

/// A big integer; on the fast path where the number fits in an `i64`.
impl<G, R> From<num_bigint::BigInt> for JsValue<G, R> {
    fn from(v: num_bigint::BigInt) -> (r: JsValue<G, R>)
        ensures
            r == JsValue::<G, R>::BigInt((JsBigInt { inner: bigint_inner(v) })),
    {
        JsValue::BigInt(JsBigInt::from_bigint(v))
    }
}

impl<G, R> vstd::std_specs::convert::FromSpecImpl<num_bigint::BigInt> for JsValue<G, R> {
    open spec fn obeys_from_spec() -> bool {
        true
    }

    open spec fn from_spec(v: num_bigint::BigInt) -> JsValue<G, R> {
        JsValue::BigInt(JsBigInt { inner: bigint_inner(v) })
    }
}

impl<'a, G, R> From<&'a str> for JsValue<G, R> {
    fn from(v: &'a str) -> (r: JsValue<G, R>)
        ensures
            r is String && r->String_0@ == v@,
    {
        JsValue::String(String::from_str(v))
    }
}

impl<'a, G, R> vstd::std_specs::convert::FromSpecImpl<&'a str> for JsValue<G, R> {
    open spec fn obeys_from_spec() -> bool {
        false
    }

    open spec fn from_spec(v: &'a str) -> JsValue<G, R> {
        JsValue::Undefined
    }
}

/// `null` for `None`; the converted value for `Some`.
impl<G, R, T> From<Option<T>> for JsValue<G, R> where T: Into<JsValue<G, R>> {
    fn from(v: Option<T>) -> (r: JsValue<G, R>)
        ensures
            v is None ==> r == JsValue::<G, R>::Null,
            v is Some ==> call_ensures(<T as Into<JsValue<G, R>>>::into, (v->0,), r),
    {
        match v {
            Some(x) => x.into(),
            None => JsValue::Null,
        }
    }
}

impl<G, R, T> vstd::std_specs::convert::FromSpecImpl<Option<T>> for JsValue<G, R> where T: Into<JsValue<G, R>> {
    open spec fn obeys_from_spec() -> bool {
        false
    }

    open spec fn from_spec(v: Option<T>) -> JsValue<G, R> {
        JsValue::Undefined
    }
}

/// An array of the converted items, in order.
impl<G, R, T> From<Vec<T>> for JsValue<G, R> where T: Into<JsValue<G, R>> {
    fn from(v: Vec<T>) -> (r: JsValue<G, R>)
        ensures
            r is Array && r->Array_0@.len() == v@.len(),
            forall|i: int| 0 <= i < v@.len() ==> call_ensures(<T as Into<JsValue<G, R>>>::into, (#[trigger] v@[i],), r->Array_0@[i]),
    {
        let ghost items = v@;
        let mut rest = crate::serialize::reversed(v);
        let mut out: Vec<JsValue<G, R>> = Vec::new();
        while rest.len() > 0
            invariant
                out@.len() + rest@.len() == items.len(),
                forall|j: int| 0 <= j < rest@.len() ==> rest@[j] == items[items.len() - 1 - j],
                forall|j: int| 0 <= j < out@.len() ==> call_ensures(<T as Into<JsValue<G, R>>>::into, (#[trigger] items[j],), out@[j]),
            decreases rest@.len(),
        {
            let x = rest.pop().unwrap();
            let ghost k = out@.len() as int;
            assert(x == items[k]);
            let y: JsValue<G, R> = x.into();
            out.push(y);
        }
        JsValue::Array(out)
    }
}

impl<G, R, T> vstd::std_specs::convert::FromSpecImpl<Vec<T>> for JsValue<G, R> where T: Into<JsValue<G, R>> {
    open spec fn obeys_from_spec() -> bool {
        false
    }

    open spec fn from_spec(v: Vec<T>) -> JsValue<G, R> {
        JsValue::Undefined
    }
}

} // verus!
