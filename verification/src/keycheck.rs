//! Ed25519 public-key validation for the verifier's trust boundary.
//!
//! Rejects, fail-closed and before signature verification:
//!
//!   1. non-canonical encodings (y-coordinate >= p, a duplicate encoding of a
//!      valid point) and points not on the curve;
//!   2. small-order points (order dividing the cofactor 8, the identity
//!      among them).
//!
//! The arithmetic is RFC 8032 Appendix A in extended homogeneous coordinates
//! over GF(p), p = 2^255 - 19; small order is derived as `[8]P == identity`.

use vstd::prelude::*;

use vstd::arithmetic::div_mod::{lemma_fundamental_div_mod, lemma_fundamental_div_mod_converse, lemma_mod_bound};
use vstd::arithmetic::power::pow;
use vstd::arithmetic::power2::{lemma2_to64, lemma_pow2_strictly_increases, lemma_pow2_unfold, pow2};

use crate::field::{
    big_add, big_div, big_eq, big_from_bytes_le, big_from_i64, big_lt, big_modpow, big_mul, big_rem,
    big_shl, big_sub, le_value, trunc_rem, Big,
};

verus! {

/// Raised when an Ed25519 public key is non-canonical, off-curve, or
/// small-order.
#[derive(Debug, Clone, Copy, PartialEq, Eq, Structural)]
pub enum WeakKeyError {
    NotOnCurve,
    SmallOrder,
}

impl WeakKeyError {
    pub open spec fn message(&self) -> Seq<char> {
        match self {
            WeakKeyError::NotOnCurve => "public key is not a canonical on-curve Ed25519 point"@,
            WeakKeyError::SmallOrder => "public key is a small-order Ed25519 point"@,
        }
    }

    /// The error's message.
    pub fn to_string(&self) -> (r: String)
        ensures
            r@ == self.message(),
    {
        match self {
            WeakKeyError::NotOnCurve => String::from_str(
                "public key is not a canonical on-curve Ed25519 point",
            ),
            WeakKeyError::SmallOrder => String::from_str("public key is a small-order Ed25519 point"),
        }
    }
}

// ---------------------------------------------------------------------------
// The field and the curve constants
// ---------------------------------------------------------------------------

pub open spec fn field_p() -> int {
    pow2(255) - 19
}

/// Reduction into `[0, p)`.
pub open spec fn modp(x: int) -> int {
    x % field_p()
}

pub open spec fn modpow_p(b: int, e: int) -> int {
    pow(modp(b), e as nat) % field_p()
}

/// The inverse by Fermat's little theorem: `b^(p-2) mod p`.
pub open spec fn modinv_p(b: int) -> int {
    modpow_p(b, field_p() - 2)
}

/// `d = -121665 / 121666 mod p`.
pub open spec fn curve_d() -> int {
    modp(-121665 * modinv_p(121666))
}

/// `sqrt(-1) = 2^((p-1)/4) mod p`.
pub open spec fn sqrt_m1() -> int {
    modpow_p(2, (field_p() - 1) / 4)
}

pub proof fn lemma_field_p_pos()
    ensures
        field_p() > 8,
{
    lemma2_to64();
    lemma_pow2_strictly_increases(5, 255);
}

struct Consts {
    p: Big,
    d: Big,
    sqrt_m1: Big,
}

impl Consts {
    spec fn ok(&self) -> bool {
        &&& self.p@ == field_p()
        &&& self.d@ == curve_d()
        &&& self.sqrt_m1@ == sqrt_m1()
    }
}

proof fn lemma_floor_mod(a: int, p: int)
    requires
        p > 0,
    ensures
        trunc_rem(a, p) < 0 ==> trunc_rem(a, p) + p == a % p,
        trunc_rem(a, p) >= 0 ==> trunc_rem(a, p) == a % p,
{
    if a < 0 {
        let r = (-a) % p;
        let q = (-a) / p;
        lemma_fundamental_div_mod(-a, p);
        lemma_mod_bound(-a, p);
        if r > 0 {
            assert(a == (-q - 1) * p + (p - r)) by (nonlinear_arith)
                requires
                    -a == p * q + r,
            ;
            lemma_fundamental_div_mod_converse(a, p, -q - 1, p - r);
        } else {
            assert(a == (-q) * p + 0) by (nonlinear_arith)
                requires
                    -a == p * q + r,
                    r == 0,
            ;
            lemma_fundamental_div_mod_converse(a, p, -q, 0);
        }
    }
}

/// Reduction into `[0, p)`: the remainder, plus `p` when negative.
fn modp_exec(x: &Big, p: &Big) -> (r: Big)
    requires
        p@ == field_p(),
    ensures
        r@ == modp(x@),
        0 <= r@ < field_p(),
{
    proof {
        lemma_field_p_pos();
        lemma_floor_mod(x@, field_p());
        lemma_mod_bound(x@, field_p());
    }
    let r = big_rem(x, p);
    let zero = big_from_i64(0);
    if big_lt(&r, &zero) {
        big_add(&r, p)
    } else {
        r
    }
}

fn modpow_exec(base: &Big, exp: &Big, p: &Big) -> (r: Big)
    requires
        p@ == field_p(),
        exp@ >= 0,
    ensures
        r@ == modpow_p(base@, exp@),
        0 <= r@ < field_p(),
{
    proof {
        lemma_field_p_pos();
        lemma_mod_bound(pow(modp(base@), exp@ as nat), field_p());
    }
    let b = modp_exec(base, p);
    big_modpow(&b, exp, p)
}

fn modinv_exec(base: &Big, p: &Big) -> (r: Big)
    requires
        p@ == field_p(),
    ensures
        r@ == modinv_p(base@),
{
    proof {
        lemma_field_p_pos();
    }
    let two = big_from_i64(2);
    let e = big_sub(p, &two);
    modpow_exec(base, &e, p)
}

fn consts() -> (c: Consts)
    ensures
        c.ok(),
{
    proof {
        lemma_field_p_pos();
    }
    let one = big_from_i64(1);
    let shifted = big_shl(&one, 255);
    let nineteen = big_from_i64(19);
    let p = big_sub(&shifted, &nineteen);
    let inv = modinv_exec(&big_from_i64(121666), &p);
    let m = big_mul(&big_from_i64(-121665), &inv);
    let d = modp_exec(&m, &p);
    let two = big_from_i64(2);
    let four = big_from_i64(4);
    let pm1 = big_sub(&p, &one);
    let e = big_div(&pm1, &four);
    let sq = modpow_exec(&two, &e, &p);
    Consts { p, d, sqrt_m1: sq }
}

// ---------------------------------------------------------------------------
// Decoding
// ---------------------------------------------------------------------------

/// The x-coordinate for `y` with the given sign bit (RFC 8032 5.1.3), or
/// `None` where `y` is non-canonical or no such point exists.
pub open spec fn recover_x_spec(y: int, sign: bool) -> Option<int> {
    let p = field_p();
    if y >= p {
        None
    } else {
        let yy = y * y;
        let x2 = modp((yy - 1) * modinv_p(curve_d() * yy + 1));
        if x2 == 0 {
            if sign {
                None
            } else {
                Some(0)
            }
        } else {
            let x0 = modpow_p(x2, (p + 3) / 8);
            let x1 = if modp(x0 * x0 - x2) != 0 {
                modp(x0 * sqrt_m1())
            } else {
                x0
            };
            if modp(x1 * x1 - x2) != 0 {
                None
            } else if (x1 % 2 == 1) != sign {
                Some(p - x1)
            } else {
                Some(x1)
            }
        }
    }
}

proof fn lemma_field_p_odd()
    ensures
        field_p() % 2 == 1,
{
    lemma_pow2_unfold(255);
    let k = pow2(254);
    lemma_fundamental_div_mod_converse(2 * k - 19, 2, k - 10, 1);
}

proof fn lemma_mod_of_difference(a: int, b: int, p: int)
    requires
        p > 0,
        (a - b) % p == 0,
        0 <= b < p,
    ensures
        a % p == b,
{
    lemma_fundamental_div_mod(a - b, p);
    let q = (a - b) / p;
    assert(a == q * p + b) by (nonlinear_arith)
        requires
            a - b == p * q + 0,
    ;
    lemma_fundamental_div_mod_converse(a, p, q, b);
}

proof fn lemma_negated_square(x: int, p: int)
    requires
        p > 0,
    ensures
        ((p - x) * (p - x)) % p == (x * x) % p,
{
    let q = (x * x) / p;
    let r = (x * x) % p;
    lemma_fundamental_div_mod(x * x, p);
    lemma_mod_bound(x * x, p);
    assert((p - x) * (p - x) == (p - 2 * x + q) * p + r) by (nonlinear_arith)
        requires
            x * x == p * q + r,
    ;
    lemma_fundamental_div_mod_converse((p - x) * (p - x), p, p - 2 * x + q, r);
}

/// What a recovered x-coordinate satisfies: it lies in `[0, p)`, its square
/// is `(y^2 - 1) / (d y^2 + 1)` modulo p (with the division done as the
/// library does it, by `modinv_p`), and its parity is the sign bit (a zero x
/// only with a clear sign bit); `y` itself lies in `[0, p)`.
pub proof fn lemma_recovered_x(y: int, sign: bool)
    requires
        y >= 0,
    ensures
        recover_x_spec(y, sign) matches Some(x) ==> {
            &&& y < field_p()
            &&& 0 <= x < field_p()
            &&& modp(x * x) == modp((y * y - 1) * modinv_p(curve_d() * (y * y) + 1))
            &&& x == 0 ==> !sign
            &&& x != 0 ==> (x % 2 == 1) == sign
        },
{
    let p = field_p();
    lemma_field_p_pos();
    lemma_field_p_odd();
    if let Some(x) = recover_x_spec(y, sign) {
        let yy = y * y;
        let x2 = modp((yy - 1) * modinv_p(curve_d() * yy + 1));
        lemma_mod_bound((yy - 1) * modinv_p(curve_d() * yy + 1), p);
        if x2 == 0 {
            assert(modp(0int * 0int) == 0) by (nonlinear_arith)
                requires
                    p > 0,
                    modp(0int * 0int) == (0int * 0int) % p,
            ;
        } else {
            let x0 = modpow_p(x2, (p + 3) / 8);
            lemma_mod_bound(pow(modp(x2), ((p + 3) / 8) as nat), p);
            let x1 = if modp(x0 * x0 - x2) != 0 {
                modp(x0 * sqrt_m1())
            } else {
                x0
            };
            lemma_mod_bound(x0 * sqrt_m1(), p);
            assert(0 <= x1 < p);
            assert(modp(x1 * x1 - x2) == 0);
            lemma_mod_of_difference(x1 * x1, x2, p);
            if x1 == 0 {
                assert(x1 * x1 == 0) by (nonlinear_arith)
                    requires
                        x1 == 0,
                ;
                assert((0 - x2) % p == 0);
                lemma_mod_of_difference(0, x2, p);
                assert(0int % p == 0);
            }
            assert(x1 != 0);
            if (x1 % 2 == 1) != sign {
                lemma_negated_square(x1, p);
                assert(x == p - x1);
                assert((p - x1) % 2 != x1 % 2);
            }
        }
    }
}

/// A point in extended homogeneous coordinates (X, Y, Z, T).
pub type PointSpec = (int, int, int, int);

/// The y-coordinate encoded by a 32-byte key: its little-endian value with
/// bit 255 cleared.
pub open spec fn key_y(pk: Seq<u8>) -> int {
    le_value(pk.update(31, (pk[31] % 128) as u8)) as int
}

/// The sign bit of a 32-byte key: bit 255.
pub open spec fn key_sign(pk: Seq<u8>) -> bool {
    pk[31] >= 128
}

/// The point a key decodes to, or `None` where it is not 32 bytes, not
/// canonical, or not on the curve.
pub open spec fn decode_spec(pk: Seq<u8>) -> Option<PointSpec> {
    if pk.len() != 32 {
        None
    } else {
        match recover_x_spec(key_y(pk), key_sign(pk)) {
            None => None,
            Some(x) => Some((x, key_y(pk), 1, modp(x * key_y(pk)))),
        }
    }
}

/// Point addition in extended coordinates (RFC 8032 5.1.4).
pub open spec fn add_spec(pp: PointSpec, q: PointSpec) -> PointSpec {
    let a = modp((pp.1 - pp.0) * (q.1 - q.0));
    let b = modp((pp.1 + pp.0) * (q.1 + q.0));
    let c = modp(2 * pp.3 * q.3 * curve_d());
    let d = modp(2 * pp.2 * q.2);
    let e = b - a;
    let f = d - c;
    let g = d + c;
    let h = b + a;
    (modp(e * f), modp(g * h), modp(f * g), modp(e * h))
}

/// `[8]P` by three doublings.
pub open spec fn mul8_spec(pp: PointSpec) -> PointSpec {
    let p2 = add_spec(pp, pp);
    let p4 = add_spec(p2, p2);
    add_spec(p4, p4)
}

/// Whether a point is the identity: affine (0, 1), i.e. X == 0 and Y == Z.
pub open spec fn is_identity_spec(pp: PointSpec) -> bool {
    modp(pp.0) == 0 && modp(pp.1 - pp.2) == 0
}

/// Whether `pk` decodes to a point whose order divides 8.
pub open spec fn spec_small_order(pk: Seq<u8>) -> bool {
    match decode_spec(pk) {
        None => false,
        Some(pt) => is_identity_spec(mul8_spec(pt)),
    }
}

/// The key gate's verdict on `pk`.
pub open spec fn spec_key_check(pk: Seq<u8>) -> Result<(), WeakKeyError> {
    if decode_spec(pk) is None {
        Err(WeakKeyError::NotOnCurve)
    } else if spec_small_order(pk) {
        Err(WeakKeyError::SmallOrder)
    } else {
        Ok(())
    }
}

struct Point {
    x: Big,
    y: Big,
    z: Big,
    t: Big,
}

impl View for Point {
    type V = PointSpec;

    closed spec fn view(&self) -> PointSpec {
        (self.x@, self.y@, self.z@, self.t@)
    }
}

fn recover_x(y: &Big, sign: bool, c: &Consts) -> (r: Option<Big>)
    requires
        c.ok(),
    ensures
        r matches Some(x) ==> recover_x_spec(y@, sign) == Some(x@),
        r is None ==> recover_x_spec(y@, sign) is None,
{
    let p = &c.p;
    if !big_lt(y, p) {
        return None;
    }
    let yy = big_mul(y, y);
    let one = big_from_i64(1);
    let num = big_sub(&yy, &one);
    let dyy = big_mul(&c.d, &yy);
    let den = big_add(&dyy, &one);
    let inv = modinv_exec(&den, p);
    let prod = big_mul(&num, &inv);
    let x2 = modp_exec(&prod, p);
    let zero = big_from_i64(0);
    if big_eq(&x2, &zero) {
        return if sign {
            None
        } else {
            Some(zero)
        };
    }
    proof {
        lemma_field_p_pos();
    }
    let three = big_from_i64(3);
    let eight = big_from_i64(8);
    let p3 = big_add(p, &three);
    let e = big_div(&p3, &eight);
    let mut x = modpow_exec(&x2, &e, p);
    let xx = big_mul(&x, &x);
    let diff = big_sub(&xx, &x2);
    let chk = modp_exec(&diff, p);
    if !big_eq(&chk, &zero) {
        let xs = big_mul(&x, &c.sqrt_m1);
        x = modp_exec(&xs, p);
    }
    let xx = big_mul(&x, &x);
    let diff = big_sub(&xx, &x2);
    let chk = modp_exec(&diff, p);
    if !big_eq(&chk, &zero) {
        return None;
    }
    let two = big_from_i64(2);
    let par = big_rem(&x, &two);
    let x_is_odd = big_eq(&par, &one);
    if x_is_odd != sign {
        x = big_sub(p, &x);
    }
    Some(x)
}

/// Decodes a 32-byte key to extended coordinates, or `None` if invalid.
fn decode(pk: &[u8], c: &Consts) -> (r: Option<Point>)
    requires
        c.ok(),
    ensures
        r matches Some(pt) ==> decode_spec(pk@) == Some(pt@),
        r is None ==> decode_spec(pk@) is None,
{
    if pk.len() != 32 {
        return None;
    }
    let mut masked: Vec<u8> = Vec::new();
    let mut k: usize = 0;
    while k < 32
        invariant
            k <= 32,
            pk@.len() == 32,
            masked@.len() == k,
            forall|j: int| 0 <= j < k ==> #[trigger] masked@[j] == pk@.update(31, (pk@[31] % 128) as u8)[j],
        decreases 32 - k,
    {
        if k == 31 {
            masked.push(pk[31] % 128);
        } else {
            masked.push(pk[k]);
        }
        k = k + 1;
    }
    assert(masked@ =~= pk@.update(31, (pk@[31] % 128) as u8));
    let sign = pk[31] >= 128;
    let y = big_from_bytes_le(masked.as_slice());
    let x = match recover_x(&y, sign, c) {
        Some(x) => x,
        None => {
            return None;
        },
    };
    let xy = big_mul(&x, &y);
    let t = modp_exec(&xy, &c.p);
    Some(Point { x, y, z: big_from_i64(1), t })
}

fn point_add(pp: &Point, q: &Point, c: &Consts) -> (r: Point)
    requires
        c.ok(),
    ensures
        r@ == add_spec(pp@, q@),
{
    let p = &c.p;
    let a = modp_exec(&big_mul(&big_sub(&pp.y, &pp.x), &big_sub(&q.y, &q.x)), p);
    let b = modp_exec(&big_mul(&big_add(&pp.y, &pp.x), &big_add(&q.y, &q.x)), p);
    let two = big_from_i64(2);
    let cc = modp_exec(&big_mul(&big_mul(&big_mul(&two, &pp.t), &q.t), &c.d), p);
    let dd = modp_exec(&big_mul(&big_mul(&two, &pp.z), &q.z), p);
    let e = big_sub(&b, &a);
    let f = big_sub(&dd, &cc);
    let g = big_add(&dd, &cc);
    let h = big_add(&b, &a);
    Point {
        x: modp_exec(&big_mul(&e, &f), p),
        y: modp_exec(&big_mul(&g, &h), p),
        z: modp_exec(&big_mul(&f, &g), p),
        t: modp_exec(&big_mul(&e, &h), p),
    }
}

fn mul8(pp: &Point, c: &Consts) -> (r: Point)
    requires
        c.ok(),
    ensures
        r@ == mul8_spec(pp@),
{
    let p2 = point_add(pp, pp, c);
    let p4a = point_add(&p2, &p2, c);
    let p4b = point_add(&p2, &p2, c);
    point_add(&p4a, &p4b, c)
}

fn is_identity(pp: &Point, c: &Consts) -> (b: bool)
    requires
        c.ok(),
    ensures
        b == is_identity_spec(pp@),
{
    let zero = big_from_i64(0);
    let x = modp_exec(&pp.x, &c.p);
    let yz = modp_exec(&big_sub(&pp.y, &pp.z), &c.p);
    big_eq(&x, &zero) && big_eq(&yz, &zero)
}

/// Whether `pk` decodes to a point whose order divides 8 (the identity
/// among them). Keys that do not decode are not small-order.
pub fn is_small_order(pk: &[u8]) -> (b: bool)
    ensures
        b == spec_small_order(pk@),
{
    let c = consts();
    match decode(pk, &c) {
        None => false,
        Some(point) => is_identity(&mul8(&point, &c), &c),
    }
}

/// `Err` if `pk` is non-canonical, off-curve, or small-order; `Ok(())` for a
/// canonical, on-curve, large-order public key.
pub fn check_ed25519_public_key(pk: &[u8]) -> (r: Result<(), WeakKeyError>)
    ensures
        r == spec_key_check(pk@),
{
    let c = consts();
    let point = match decode(pk, &c) {
        Some(pt) => pt,
        None => {
            return Err(WeakKeyError::NotOnCurve);
        },
    };
    if is_identity(&mul8(&point, &c), &c) {
        return Err(WeakKeyError::SmallOrder);
    }
    Ok(())
}

/// The key gate refuses a key as small-order exactly when it decodes to a
/// small-order point, accepts no key that does not decode, and refuses every
/// key that is not 32 bytes or whose y-coordinate is not below p (a
/// non-canonical encoding).
pub proof fn lemma_key_gate(pk: Seq<u8>)
    ensures
        spec_key_check(pk) == Err::<(), WeakKeyError>(WeakKeyError::SmallOrder) <==> spec_small_order(pk),
        spec_key_check(pk) is Ok ==> decode_spec(pk) is Some && !spec_small_order(pk),
        pk.len() != 32 ==> spec_key_check(pk) == Err::<(), WeakKeyError>(WeakKeyError::NotOnCurve),
        pk.len() == 32 && key_y(pk) >= field_p() ==> spec_key_check(pk) == Err::<(), WeakKeyError>(
            WeakKeyError::NotOnCurve,
        ),
{
}

} // verus!
