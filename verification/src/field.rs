//! Arbitrary-precision integers, by way of `num_bigint::BigInt`.
//!
//! A [`Big`] carries the `BigInt` together with the integer it stands for;
//! every operation is one `BigInt` operation whose contract states the
//! resulting integer.

use vstd::prelude::*;

use num_bigint::{BigInt, Sign};

use vstd::arithmetic::power::pow;
use vstd::arithmetic::power2::pow2;

verus! {

#[verifier::external_type_specification]
#[verifier::external_body]
pub struct ExBigInt(BigInt);

/// An arbitrary-precision integer together with the value it stands for.
pub struct Big {
    inner: BigInt,
    val: Ghost<int>,
}

impl View for Big {
    type V = int;

    closed spec fn view(&self) -> int {
        self.val@
    }
}

/// The unsigned little-endian value of a byte sequence.
pub open spec fn le_value(b: Seq<u8>) -> nat
    decreases b.len(),
{
    if b.len() == 0 {
        0
    } else {
        b[0] as nat + 256 * le_value(b.drop_first())
    }
}

/// The remainder of `a` by `m` rounded toward zero, as `%` gives it: it has
/// the sign of `a`.
pub open spec fn trunc_rem(a: int, m: int) -> int {
    if a >= 0 {
        a % m
    } else {
        -((-a) % m)
    }
}

/// `BigInt::from(i64)`: the integer `v`.
#[verifier::external_body]
pub(crate) fn big_from_i64(v: i64) -> (r: Big)
    ensures
        r@ == v as int,
{
    Big { inner: BigInt::from(v), val: Ghost(v as int) }
}

/// `BigInt::from_bytes_le(Sign::Plus, b)`: the unsigned little-endian value
/// of `b`.
#[verifier::external_body]
pub(crate) fn big_from_bytes_le(b: &[u8]) -> (r: Big)
    ensures
        r@ == le_value(b@),
{
    Big { inner: BigInt::from_bytes_le(Sign::Plus, b), val: Ghost(le_value(b@) as int) }
}

/// `&a << n` on `BigInt`: `a` times two to the `n`.
#[verifier::external_body]
pub(crate) fn big_shl(a: &Big, n: usize) -> (r: Big)
    ensures
        r@ == a@ * pow2(n as nat),
{
    Big { inner: &a.inner << n, val: Ghost(a@ * pow2(n as nat)) }
}

/// `&a + &b` on `BigInt`: the exact sum.
#[verifier::external_body]
pub(crate) fn big_add(a: &Big, b: &Big) -> (r: Big)
    ensures
        r@ == a@ + b@,
{
    Big { inner: &a.inner + &b.inner, val: Ghost(a@ + b@) }
}

/// `&a - &b` on `BigInt`: the exact difference.
#[verifier::external_body]
pub(crate) fn big_sub(a: &Big, b: &Big) -> (r: Big)
    ensures
        r@ == a@ - b@,
{
    Big { inner: &a.inner - &b.inner, val: Ghost(a@ - b@) }
}

/// `&a * &b` on `BigInt`: the exact product.
#[verifier::external_body]
pub(crate) fn big_mul(a: &Big, b: &Big) -> (r: Big)
    ensures
        r@ == a@ * b@,
{
    Big { inner: &a.inner * &b.inner, val: Ghost(a@ * b@) }
}

/// `&a / &b` on `BigInt`, which rounds toward zero; stated here for a
/// non-negative `a` and a positive `b`, where it is the floor.
#[verifier::external_body]
pub(crate) fn big_div(a: &Big, b: &Big) -> (r: Big)
    requires
        a@ >= 0,
        b@ > 0,
    ensures
        r@ == a@ / b@,
{
    Big { inner: &a.inner / &b.inner, val: Ghost(a@ / b@) }
}

/// `&a % &m` on `BigInt`: the remainder with the sign of `a`. A zero `m`
/// panics; the contract asks for a positive one.
#[verifier::external_body]
pub(crate) fn big_rem(a: &Big, m: &Big) -> (r: Big)
    requires
        m@ > 0,
    ensures
        r@ == trunc_rem(a@, m@),
{
    Big { inner: &a.inner % &m.inner, val: Ghost(trunc_rem(a@, m@)) }
}

/// `BigInt::modpow`: `base` to the `exp`, reduced into `[0, m)` for a positive
/// `m`. A negative exponent or a zero modulus panics.
#[verifier::external_body]
pub(crate) fn big_modpow(base: &Big, exp: &Big, m: &Big) -> (r: Big)
    requires
        exp@ >= 0,
        m@ > 0,
    ensures
        r@ == pow(base@, exp@ as nat) % m@,
{
    Big { inner: base.inner.modpow(&exp.inner, &m.inner), val: Ghost(pow(base@, exp@ as nat) % m@) }
}

/// `BigInt == BigInt`: equality of the integers.
#[verifier::external_body]
pub(crate) fn big_eq(a: &Big, b: &Big) -> (r: bool)
    ensures
        r == (a@ == b@),
{
    a.inner == b.inner
}

/// `BigInt < BigInt`: the order of the integers.
#[verifier::external_body]
pub(crate) fn big_lt(a: &Big, b: &Big) -> (r: bool)
    ensures
        r == (a@ < b@),
{
    a.inner < b.inner
}

} // verus!
