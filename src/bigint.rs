//! Integers of arbitrary size, with a fast path for those that fit in 64 bits.

use vstd::prelude::*;

verus! {

#[verifier::external_type_specification]
#[verifier::external_body]
pub struct ExNumBigInt(num_bigint::BigInt);

/// Relies on `Clone for num_bigint::BigInt`, which copies the digits.
pub assume_specification[ <num_bigint::BigInt as Clone>::clone ](b: &num_bigint::BigInt) -> num_bigint::BigInt;

/// Relies on `num_bigint::BigInt::from(i64)`, which builds the same number.
#[verifier::external_body]
fn big_from_i64(v: i64) -> num_bigint::BigInt {
    num_bigint::BigInt::from(v)
}

/// Relies on `num_bigint::BigInt::from(u64)`, which builds the same number.
#[verifier::external_body]
fn big_from_u64(v: u64) -> num_bigint::BigInt {
    num_bigint::BigInt::from(v)
}

/// Relies on `num_bigint::BigInt::from(i128)`, which builds the same number.
#[verifier::external_body]
fn big_from_i128(v: i128) -> num_bigint::BigInt {
    num_bigint::BigInt::from(v)
}

/// Relies on `num_bigint::BigInt::from(u128)`, which builds the same number.
#[verifier::external_body]
fn big_from_u128(v: u128) -> num_bigint::BigInt {
    num_bigint::BigInt::from(v)
}

/// What `num_traits::ToPrimitive::to_i64` gives for a number: the number,
/// where it fits in an `i64`.
pub uninterp spec fn big_i64_of(b: num_bigint::BigInt) -> Option<i64>;

/// What `num_traits::ToPrimitive::to_u64` gives for a number.
pub uninterp spec fn big_u64_of(b: num_bigint::BigInt) -> Option<u64>;

/// What `num_traits::ToPrimitive::to_i128` gives for a number.
pub uninterp spec fn big_i128_of(b: num_bigint::BigInt) -> Option<i128>;

/// What `num_traits::ToPrimitive::to_u128` gives for a number.
pub uninterp spec fn big_u128_of(b: num_bigint::BigInt) -> Option<u128>;

/// What `num_bigint::BigInt::to_str_radix(10)` gives for a number: its
/// decimal digits, after a `-` when it is negative.
pub uninterp spec fn big_decimal_of(b: num_bigint::BigInt) -> Seq<char>;

/// Relies on `num_traits::ToPrimitive::to_i64` for `num_bigint::BigInt`,
/// which depends on the number alone.
#[verifier::external_body]
fn big_to_i64(v: &num_bigint::BigInt) -> (r: Option<i64>)
    ensures
        r == big_i64_of(*v),
{
    num_traits::ToPrimitive::to_i64(v)
}

/// Relies on `num_traits::ToPrimitive::to_u64` for `num_bigint::BigInt`,
/// which depends on the number alone.
#[verifier::external_body]
fn big_to_u64(v: &num_bigint::BigInt) -> (r: Option<u64>)
    ensures
        r == big_u64_of(*v),
{
    num_traits::ToPrimitive::to_u64(v)
}

/// Relies on `num_traits::ToPrimitive::to_i128` for `num_bigint::BigInt`,
/// which depends on the number alone.
#[verifier::external_body]
fn big_to_i128(v: &num_bigint::BigInt) -> (r: Option<i128>)
    ensures
        r == big_i128_of(*v),
{
    num_traits::ToPrimitive::to_i128(v)
}

/// Relies on `num_traits::ToPrimitive::to_u128` for `num_bigint::BigInt`,
/// which depends on the number alone.
#[verifier::external_body]
fn big_to_u128(v: &num_bigint::BigInt) -> (r: Option<u128>)
    ensures
        r == big_u128_of(*v),
{
    num_traits::ToPrimitive::to_u128(v)
}

/// Relies on `num_bigint::BigInt::to_str_radix(10)`, which depends on the
/// number alone.
#[verifier::external_body]
fn big_to_decimal(v: &num_bigint::BigInt) -> (r: String)
    ensures
        r@ == big_decimal_of(*v),
{
    v.to_str_radix(10)
}

/// Relies on `num_bigint::BigInt::parse_bytes(_, 10)`, which accepts any run
/// of ASCII decimal digits after an optional sign (and also `_` separators
/// between digits, and a leading `+`).
#[verifier::external_body]
fn big_parse_decimal(digits: &[u8]) -> (r: Option<num_bigint::BigInt>)
    ensures
        decimal_value(digits@) is Some ==> r is Some,
{
    num_bigint::BigInt::parse_bytes(digits, 10)
}

/// `d` holds ASCII decimal digits only.
pub open spec fn all_digits(d: Seq<u8>) -> bool {
    forall|i: int| 0 <= i < d.len() ==> 48 <= #[trigger] d[i] <= 57
}

/// The number written by the ASCII decimal digits `d`.
pub open spec fn digits_value(d: Seq<u8>) -> int
    decreases d.len(),
{
    if d.len() == 0 {
        0
    } else {
        digits_value(d.drop_last()) * 10 + (d.last() - 48)
    }
}

/// The number of digits of `t` after its optional leading `-`.
pub open spec fn digit_count(t: Seq<u8>) -> int {
    if t.len() > 1 && t[0] == 45 {
        t.len() - 1
    } else {
        t.len() as int
    }
}

/// The number written by `t`: decimal digits with an optional leading `-`.
pub open spec fn decimal_value(t: Seq<u8>) -> Option<int> {
    if t.len() > 1 && t[0] == 45 && all_digits(t.subrange(1, t.len() as int)) {
        Some(-digits_value(t.subrange(1, t.len() as int)))
    } else if t.len() > 0 && all_digits(t) {
        Some(digits_value(t))
    } else {
        None
    }
}

/// `10^e`.
pub open spec fn pow10(e: nat) -> int
    decreases e,
{
    if e == 0 {
        1
    } else {
        10 * pow10((e - 1) as nat)
    }
}

proof fn lemma_digits_bound(d: Seq<u8>)
    requires
        all_digits(d),
    ensures
        0 <= digits_value(d) < pow10(d.len()),
    decreases d.len(),
{
    if d.len() > 0 {
        let p = d.drop_last();
        assert(all_digits(p)) by {
            assert forall|i: int| 0 <= i < p.len() implies 48 <= #[trigger] p[i] <= 57 by {
                assert(p[i] == d[i]);
            };
        };
        lemma_digits_bound(p);
        assert(48 <= d[d.len() - 1] <= 57);
    }
}

proof fn lemma_pow10_positive(e: nat)
    ensures
        pow10(e) > 0,
    decreases e,
{
    if e > 0 {
        lemma_pow10_positive((e - 1) as nat);
    }
}

proof fn lemma_pow10_monotone(a: nat, b: nat)
    requires
        a <= b,
    ensures
        0 < pow10(a) <= pow10(b),
    decreases b,
{
    if a < b {
        lemma_pow10_monotone(a, (b - 1) as nat);
    } else {
        lemma_pow10_positive(a);
    }
}

/// The `i64` written by `t` in decimal, where `t` is at most 19 digits long
/// after an optional `-` and the number fits; `None` otherwise.
fn parse_small_decimal(t: &[u8]) -> (r: Option<i64>)
    ensures
        r is Some ==> decimal_value(t@) == Some(r->0 as int),
        decimal_value(t@) is Some && digit_count(t@) <= 19 && i64::MIN <= decimal_value(t@)->0
            <= i64::MAX ==> r == Some(decimal_value(t@)->0 as i64),
{
    let negative = t.len() > 1 && t[0] == 45u8;
    let start: usize = if negative { 1 } else { 0 };
    if t.len() == start || t.len() - start > 19 {
        return None;
    }
    let ghost d = t@.subrange(start as int, t@.len() as int);
    let mut acc: i128 = 0;
    let mut i: usize = start;
    proof {
        reveal_with_fuel(pow10, 20);
    }
    while i < t.len()
        invariant
            negative == (t@.len() > 1 && t@[0] == 45),
            start == (if negative { 1usize } else { 0usize }),
            start <= i <= t@.len(),
            t@.len() - start <= 19,
            d == t@.subrange(start as int, t@.len() as int),
            all_digits(t@.subrange(start as int, i as int)),
            acc == digits_value(t@.subrange(start as int, i as int)),
            0 <= acc < pow10((i - start) as nat),
            pow10(19) == 10000000000000000000,
        decreases t@.len() - i,
    {
        let c = t[i];
        if c < 48u8 || c > 57u8 {
            proof {
                assert(!all_digits(t@)) by {
                    assert(!(48 <= t@[i as int] <= 57));
                };
                if negative {
                    let tail = t@.subrange(1, t@.len() as int);
                    assert(!all_digits(tail)) by {
                        assert(tail[i - 1] == t@[i as int]);
                    };
                }
            }
            return None;
        }
        let ghost prev = t@.subrange(start as int, i as int);
        let ghost next = t@.subrange(start as int, i + 1);
        proof {
            assert(next.drop_last() =~= prev);
            assert(next.last() == c);
            assert forall|k: int| 0 <= k < next.len() implies 48 <= #[trigger] next[k] <= 57 by {
                if k < prev.len() {
                    assert(next[k] == prev[k]);
                }
            };
            assert(pow10((i + 1 - start) as nat) == 10 * pow10((i - start) as nat));
            lemma_pow10_monotone((i + 1 - start) as nat, 19);
        }
        acc = acc * 10 + (c - 48u8) as i128;
        i = i + 1;
    }
    proof {
        assert(t@.subrange(start as int, t@.len() as int) == d);
        if negative {
            assert(t@.subrange(1, t@.len() as int) == d);
        } else {
            assert(t@ =~= d);
        }
    }
    let v: i128 = if negative { -acc } else { acc };
    if v < i64::MIN as i128 || v > i64::MAX as i128 {
        None
    } else {
        Some(v as i64)
    }
}

/// The representation of `b`: on the fast path where it fits in an `i64`.
pub open spec fn bigint_inner(b: num_bigint::BigInt) -> BigIntOrI64 {
    match big_i64_of(b) {
        Some(small) => BigIntOrI64::Int(small),
        None => BigIntOrI64::BigInt(b),
    }
}

/// Whether `t` is decimal digits with an optional leading `-`.
fn is_decimal(t: &[u8]) -> (r: bool)
    ensures
        r == decimal_value(t@) is Some,
{
    let negative = t.len() > 1 && t[0] == 45u8;
    let start: usize = if negative { 1 } else { 0 };
    if t.len() == start {
        return false;
    }
    let mut i: usize = start;
    while i < t.len()
        invariant
            negative == (t@.len() > 1 && t@[0] == 45),
            start == (if negative { 1usize } else { 0usize }),
            start < t@.len(),
            start <= i <= t@.len(),
            forall|k: int| start <= k < i ==> 48 <= #[trigger] t@[k] <= 57,
        decreases t@.len() - i,
    {
        if t[i] < 48u8 || t[i] > 57u8 {
            proof {
                assert(!all_digits(t@)) by {
                    assert(!(48 <= t@[i as int] <= 57));
                };
                if negative {
                    let tail = t@.subrange(1, t@.len() as int);
                    assert(!all_digits(tail)) by {
                        assert(tail[i - 1] == t@[i as int]);
                    };
                }
            }
            return false;
        }
        i = i + 1;
    }
    proof {
        if negative {
            let tail = t@.subrange(1, t@.len() as int);
            assert forall|k: int| 0 <= k < tail.len() implies 48 <= #[trigger] tail[k] <= 57 by {
                assert(tail[k] == t@[k + 1]);
            };
        } else {
            assert forall|k: int| 0 <= k < t@.len() implies 48 <= #[trigger] t@[k] <= 57 by {};
        }
    }
    true
}

/// Either representation of a big integer.
#[derive(Clone, Debug, PartialEq, Eq)]
pub enum BigIntOrI64 {
    Int(i64),
    BigInt(num_bigint::BigInt),
}

/// A guest `BigInt` value. Numbers that fit in an `i64` are always kept on the
/// fast path, so two equal numbers have equal representations.
#[derive(Clone, Debug, PartialEq, Eq)]
pub struct JsBigInt {
    pub inner: BigIntOrI64,
}

impl JsBigInt {
    /// The number `v`, on the fast path.
    pub fn from_i64(v: i64) -> (r: JsBigInt)
        ensures
            r.inner == BigIntOrI64::Int(v),
    {
        JsBigInt { inner: BigIntOrI64::Int(v) }
    }

    /// Wraps an arbitrary-precision integer, moving it to the fast path when it
    /// fits in an `i64`.
    pub fn from_bigint(v: num_bigint::BigInt) -> (r: JsBigInt)
        ensures
            r.inner == bigint_inner(v),
    {
        match big_to_i64(&v) {
            Some(small) => JsBigInt { inner: BigIntOrI64::Int(small) },
            None => JsBigInt { inner: BigIntOrI64::BigInt(v) },
        }
    }

    /// The number `v`: on the fast path when it is at most `i64::MAX`.
    pub fn from_u64(v: u64) -> (r: JsBigInt)
        ensures
            v <= i64::MAX ==> r.inner == BigIntOrI64::Int(v as i64),
            v > i64::MAX ==> r.inner is BigInt,
    {
        if v <= i64::MAX as u64 {
            JsBigInt { inner: BigIntOrI64::Int(v as i64) }
        } else {
            JsBigInt { inner: BigIntOrI64::BigInt(big_from_u64(v)) }
        }
    }

    /// The number `v`: on the fast path when it fits in an `i64`.
    pub fn from_i128(v: i128) -> (r: JsBigInt)
        ensures
            i64::MIN <= v <= i64::MAX ==> r.inner == BigIntOrI64::Int(v as i64),
            !(i64::MIN <= v <= i64::MAX) ==> r.inner is BigInt,
    {
        if i64::MIN as i128 <= v && v <= i64::MAX as i128 {
            JsBigInt { inner: BigIntOrI64::Int(v as i64) }
        } else {
            JsBigInt { inner: BigIntOrI64::BigInt(big_from_i128(v)) }
        }
    }

    /// The number `v`: on the fast path when it is at most `i64::MAX`.
    pub fn from_u128(v: u128) -> (r: JsBigInt)
        ensures
            v <= i64::MAX ==> r.inner == BigIntOrI64::Int(v as i64),
            v > i64::MAX ==> r.inner is BigInt,
    {
        if v <= i64::MAX as u128 {
            JsBigInt { inner: BigIntOrI64::Int(v as i64) }
        } else {
            JsBigInt { inner: BigIntOrI64::BigInt(big_from_u128(v)) }
        }
    }

    /// The number as an `i64`, where it fits in one.
    pub fn as_i64(&self) -> (r: Option<i64>)
        ensures
            self.inner is Int ==> r == Some(self.inner->Int_0),
            self.inner is BigInt ==> r == big_i64_of(self.inner->BigInt_0),
    {
        match &self.inner {
            BigIntOrI64::Int(v) => Some(*v),
            BigIntOrI64::BigInt(b) => big_to_i64(b),
        }
    }

    /// The number as a `u64`, where it fits in one.
    pub fn as_u64(&self) -> (r: Option<u64>)
        ensures
            self.inner is Int ==> r == (if self.inner->Int_0 >= 0 {
                Some(self.inner->Int_0 as u64)
            } else {
                None
            }),
            self.inner is BigInt ==> r == big_u64_of(self.inner->BigInt_0),
    {
        match &self.inner {
            BigIntOrI64::Int(v) => if *v >= 0 {
                Some(*v as u64)
            } else {
                None
            },
            BigIntOrI64::BigInt(b) => big_to_u64(b),
        }
    }

    /// The number as an `i128`, where it fits in one.
    pub fn as_i128(&self) -> (r: Option<i128>)
        ensures
            self.inner is Int ==> r == Some(self.inner->Int_0 as i128),
            self.inner is BigInt ==> r == big_i128_of(self.inner->BigInt_0),
    {
        match &self.inner {
            BigIntOrI64::Int(v) => Some(*v as i128),
            BigIntOrI64::BigInt(b) => big_to_i128(b),
        }
    }

    /// The number as a `u128`, where it fits in one.
    pub fn as_u128(&self) -> (r: Option<u128>)
        ensures
            self.inner is Int ==> r == (if self.inner->Int_0 >= 0 {
                Some(self.inner->Int_0 as u128)
            } else {
                None
            }),
            self.inner is BigInt ==> r == big_u128_of(self.inner->BigInt_0),
    {
        match &self.inner {
            BigIntOrI64::Int(v) => if *v >= 0 {
                Some(*v as u128)
            } else {
                None
            },
            BigIntOrI64::BigInt(b) => big_to_u128(b),
        }
    }

    /// The number as an arbitrary-precision integer.
    pub fn into_bigint(self) -> (r: num_bigint::BigInt)
        ensures
            self.inner is BigInt ==> r == self.inner->BigInt_0,
    {
        match self.inner {
            BigIntOrI64::Int(v) => big_from_i64(v),
            BigIntOrI64::BigInt(b) => b,
        }
    }

    /// The decimal text of a number off the fast path, as handed to the
    /// guest's `BigInt` constructor; `None` on the fast path, where the guest
    /// builds the number from the `i64` itself.
    pub fn decimal_text(&self) -> (r: Option<String>)
        ensures
            self.inner is Int ==> r is None,
            self.inner is BigInt ==> r is Some && r->0@ == big_decimal_of(self.inner->BigInt_0),
    {
        match &self.inner {
            BigIntOrI64::Int(_) => None,
            BigIntOrI64::BigInt(b) => Some(big_to_decimal(b)),
        }
    }

    /// Reads the decimal text that the guest gives for a big integer: a
    /// number of at most 19 digits that fits in an `i64` lands on the fast
    /// path; any other is parsed into an arbitrary-precision integer. `None`
    /// exactly where the text is not decimal digits after an optional `-`.
    pub fn parse_decimal(digits: &[u8]) -> (r: Option<JsBigInt>)
        ensures
            r is Some <==> decimal_value(digits@) is Some,
            decimal_value(digits@) is Some && digit_count(digits@) <= 19 && i64::MIN
                <= decimal_value(digits@)->0 <= i64::MAX ==> r == Some(
                JsBigInt { inner: BigIntOrI64::Int(decimal_value(digits@)->0 as i64) },
            ),
    {
        if !is_decimal(digits) {
            return None;
        }
        match parse_small_decimal(digits) {
            Some(v) => Some(JsBigInt { inner: BigIntOrI64::Int(v) }),
            None => match big_parse_decimal(digits) {
                Some(b) => Some(JsBigInt::from_bigint(b)),
                None => None,
            },
        }
    }
}

impl From<i64> for JsBigInt {
    fn from(v: i64) -> (r: JsBigInt)
        ensures
            r.inner == BigIntOrI64::Int(v),
    {
        JsBigInt::from_i64(v)
    }
}

impl vstd::std_specs::convert::FromSpecImpl<i64> for JsBigInt {
    open spec fn obeys_from_spec() -> bool {
        true
    }

    open spec fn from_spec(v: i64) -> JsBigInt {
        JsBigInt { inner: BigIntOrI64::Int(v) }
    }
}

/// On the fast path where the number fits in an `i64`.
impl From<num_bigint::BigInt> for JsBigInt {
    fn from(v: num_bigint::BigInt) -> (r: JsBigInt)
        ensures
            r.inner == bigint_inner(v),
    {
        JsBigInt::from_bigint(v)
    }
}

impl vstd::std_specs::convert::FromSpecImpl<num_bigint::BigInt> for JsBigInt {
    open spec fn obeys_from_spec() -> bool {
        true
    }

    open spec fn from_spec(v: num_bigint::BigInt) -> JsBigInt {
        JsBigInt { inner: bigint_inner(v) }
    }
}

} // verus!
