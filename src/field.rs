//! Arithmetic modulo a prime, on `Uint256` values, through `num_bigint`.
//!
//! The prime field of the virtual machine has modulus `2^251 + 17 * 2^192 + 1`;
//! the scalar field of the signature curve has the curve's group order as
//! modulus.
use ark_ff::BigInt;
use crate::uint::limb_base;
use crate::uint::Uint256;
use num_bigint::BigUint;
use vstd::arithmetic::power2::pow2;
use vstd::prelude::*;

verus! {

/// The modulus of the virtual machine's field, `2^251 + 17 * 2^192 + 1`.
pub open spec fn field_modulus() -> nat {
    (1 + limb_base() * (limb_base() * (limb_base() * 0x800000000000011))) as nat
}

/// The order of the signature curve's group (the scalar field's modulus).
pub open spec fn curve_order() -> nat {
    (0x1e66a241adc64d2f + limb_base() * (0xb781126dcae7b232 + limb_base() * (0xffffffffffffffff
        + limb_base() * 0x800000000000010))) as nat
}

/// `x` is a multiplicative inverse of `a` modulo `m`.
pub open spec fn is_inverse(a: int, x: int, m: int) -> bool {
    0 <= x < m && (a * x) % m == 1
}

/// The inverse of `a` in the field, or zero where there is none.
pub open spec fn inv_or_zero(a: int) -> nat {
    if exists|x: int| is_inverse(a, x, field_modulus() as int) {
        (choose|x: int| is_inverse(a, x, field_modulus() as int)) as nat
    } else {
        0
    }
}

/// Relies on `BigUint`'s `+` and `%`: the sum reduced modulo `m`. Values
/// pass to and from `BigUint` through `ark_ff::BigInt`'s limbs.
#[verifier::external_body]
fn mod_add(a: &Uint256, b: &Uint256, m: &Uint256) -> (r: Uint256)
    requires
        m.val() > 0,
    ensures
        r.val() == (a.val() + b.val()) % m.val(),
{
    let x = BigUint::from(BigInt::new([a.l0, a.l1, a.l2, a.l3]));
    let y = BigUint::from(BigInt::new([b.l0, b.l1, b.l2, b.l3]));
    let n = BigUint::from(BigInt::new([m.l0, m.l1, m.l2, m.l3]));
    let d = BigInt::<4>::try_from((x + y) % n).unwrap().0;
    Uint256 { l0: d[0], l1: d[1], l2: d[2], l3: d[3] }
}

/// Relies on `BigUint`'s `+`, `-` and `%`: `a - b` reduced modulo `m`, for `b < m`.
#[verifier::external_body]
fn mod_sub(a: &Uint256, b: &Uint256, m: &Uint256) -> (r: Uint256)
    requires
        b.val() < m.val(),
    ensures
        r.val() == (a.val() - b.val()) % (m.val() as int),
{
    let x = BigUint::from(BigInt::new([a.l0, a.l1, a.l2, a.l3]));
    let y = BigUint::from(BigInt::new([b.l0, b.l1, b.l2, b.l3]));
    let n = BigUint::from(BigInt::new([m.l0, m.l1, m.l2, m.l3]));
    let d = BigInt::<4>::try_from((x + &n - y) % n).unwrap().0;
    Uint256 { l0: d[0], l1: d[1], l2: d[2], l3: d[3] }
}

/// Relies on `BigUint`'s `*` and `%`: the product reduced modulo `m`.
#[verifier::external_body]
fn mod_mul(a: &Uint256, b: &Uint256, m: &Uint256) -> (r: Uint256)
    requires
        m.val() > 0,
    ensures
        r.val() == (a.val() * b.val()) % m.val(),
{
    let x = BigUint::from(BigInt::new([a.l0, a.l1, a.l2, a.l3]));
    let y = BigUint::from(BigInt::new([b.l0, b.l1, b.l2, b.l3]));
    let n = BigUint::from(BigInt::new([m.l0, m.l1, m.l2, m.l3]));
    let d = BigInt::<4>::try_from((x * y) % n).unwrap().0;
    Uint256 { l0: d[0], l1: d[1], l2: d[2], l3: d[3] }
}

/// Relies on `BigUint::modinv`: the inverse in `[0, m)` where one exists.
#[verifier::external_body]
fn mod_inverse(a: &Uint256, m: &Uint256) -> (r: Option<Uint256>)
    requires
        m.val() > 1,
    ensures
        r matches Some(x) ==> is_inverse(a.val() as int, x.val() as int, m.val() as int),
        r is None ==> forall|x: int| !is_inverse(a.val() as int, x, m.val() as int),
{
    let x = BigUint::from(BigInt::new([a.l0, a.l1, a.l2, a.l3]));
    let n = BigUint::from(BigInt::new([m.l0, m.l1, m.l2, m.l3]));
    x.modinv(&n).map(|v| {
        let d = BigInt::<4>::try_from(v).unwrap().0;
        Uint256 { l0: d[0], l1: d[1], l2: d[2], l3: d[3] }
    })
}

/// Relies on `BigUint`'s `>>`: the value shifted right by `n` bits.
#[verifier::external_body]
pub fn shr(a: &Uint256, n: usize) -> (r: Uint256)
    ensures
        r.val() == a.val() / pow2(n as nat),
{
    let x = BigUint::from(BigInt::new([a.l0, a.l1, a.l2, a.l3]));
    let d = BigInt::<4>::try_from(x >> n).unwrap().0;
    Uint256 { l0: d[0], l1: d[1], l2: d[2], l3: d[3] }
}

/// The field's modulus as a value.
pub fn modulus() -> (r: Uint256)
    ensures
        r.val() == field_modulus(),
{
    Uint256 { l0: 1, l1: 0, l2: 0, l3: 0x800000000000011 }
}

/// The curve's group order as a value.
pub fn order() -> (r: Uint256)
    ensures
        r.val() == curve_order(),
{
    Uint256 { l0: 0x1e66a241adc64d2f, l1: 0xb781126dcae7b232, l2: 0xffffffffffffffff, l3: 0x800000000000010 }
}

/// Whether `a` is below the field's modulus.
pub fn is_canonical(a: &Uint256) -> (r: bool)
    ensures
        r == (a.val() < field_modulus()),
{
    let m = modulus();
    a.l3 < m.l3 || (a.l3 == m.l3 && a.l2 == 0 && a.l1 == 0 && a.l0 == 0)
}

/// `a mod m`.
pub fn reduce(a: &Uint256, m: &Uint256) -> (r: Uint256)
    requires
        m.val() > 0,
    ensures
        r.val() == a.val() % m.val(),
{
    let z = Uint256::zero();
    mod_add(a, &z, m)
}

/// `a mod p`, as a field element.
pub open spec fn fe(a: int) -> nat {
    (a % field_modulus() as int) as nat
}

pub open spec fn fadd(a: nat, b: nat) -> nat {
    fe(a + b as int)
}

pub open spec fn fsub(a: nat, b: nat) -> nat {
    fe(a - b)
}

pub open spec fn fmul(a: nat, b: nat) -> nat {
    fe(a * b as int)
}

/// `a` has a multiplicative inverse in the field.
pub open spec fn invertible(a: int) -> bool {
    exists|x: int| is_inverse(a, x, field_modulus() as int)
}

pub fn felt_add(a: &Uint256, b: &Uint256) -> (r: Uint256)
    ensures
        r.val() == (a.val() + b.val()) % field_modulus(),
{
    mod_add(a, b, &modulus())
}

pub fn felt_sub(a: &Uint256, b: &Uint256) -> (r: Uint256)
    requires
        b.val() < field_modulus(),
    ensures
        r.val() == (a.val() - b.val()) % (field_modulus() as int),
{
    mod_sub(a, b, &modulus())
}

pub fn felt_mul(a: &Uint256, b: &Uint256) -> (r: Uint256)
    ensures
        r.val() == (a.val() * b.val()) % field_modulus(),
{
    mod_mul(a, b, &modulus())
}

/// The field inverse of `a`, or `None` where `a` has none.
pub fn felt_inverse(a: &Uint256) -> (r: Option<Uint256>)
    ensures
        r matches Some(x) ==> x.val() == inv_or_zero(a.val() as int) && is_inverse(
            a.val() as int,
            x.val() as int,
            field_modulus() as int,
        ),
        r is None ==> inv_or_zero(a.val() as int) == 0 && forall|x: int|
            !is_inverse(a.val() as int, x, field_modulus() as int),
{
    let m = modulus();
    let r = mod_inverse(a, &m);
    proof {
        if let Some(x) = r {
            let c = choose|y: int| is_inverse(a.val() as int, y, field_modulus() as int);
            lemma_inverse_unique(a.val() as int, x.val() as int, c, field_modulus() as int);
        }
    }
    r
}

/// The field inverse of `a`, or zero where there is none.
pub fn felt_inverse_or_zero(a: &Uint256) -> (r: Uint256)
    ensures
        r.val() == inv_or_zero(a.val() as int),
{
    match felt_inverse(a) {
        Some(x) => x,
        None => Uint256::zero(),
    }
}

/// An inverse modulo `m` is unique where it exists.
pub proof fn lemma_inverse_unique(a: int, x: int, y: int, m: int)
    requires
        is_inverse(a, x, m),
        is_inverse(a, y, m),
    ensures
        x == y,
{
    // x = x * (a * y) = (x * a) * y = y  (mod m)
    vstd::arithmetic::div_mod::lemma_mul_mod_noop_right(x, a * y, m);
    vstd::arithmetic::div_mod::lemma_mul_mod_noop_left(x * a, y, m);
    assert(x * (a * y) == (x * a) * y) by (nonlinear_arith);
    assert((x * a) % m == (a * x) % m) by (nonlinear_arith);
    assert(x * 1 == x);
    assert(1 * y == y);
    vstd::arithmetic::div_mod::lemma_small_mod(x as nat, m as nat);
    vstd::arithmetic::div_mod::lemma_small_mod(y as nat, m as nat);
}

} // verus!
