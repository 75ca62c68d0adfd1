//! Affine points of the signature curve `y^2 = x^3 + x + beta` over the
//! virtual machine's field, and the one fallible step of curve arithmetic
//! that both signature verification and trace generation use.
use crate::error::Error;
use crate::field::fadd;
use crate::field::felt_add;
use crate::field::felt_inverse;
use crate::field::felt_mul;
use crate::field::felt_sub;
use crate::field::field_modulus;
use crate::field::fmul;
use crate::field::fsub;
use crate::field::inv_or_zero;
use crate::field::invertible;
use crate::uint::Uint256;
use vstd::prelude::*;

verus! {

/// A point's coordinates as numbers.
pub type Xy = (nat, nat);

/// An affine point.
#[derive(Clone, Copy, Debug, PartialEq, Eq, Structural)]
pub struct Point {
    pub x: Uint256,
    pub y: Uint256,
}

impl Point {
    pub open spec fn xy(self) -> Xy {
        (self.x.val(), self.y.val())
    }

    /// Both coordinates are field elements.
    pub open spec fn wf(self) -> bool {
        self.x.val() < field_modulus() && self.y.val() < field_modulus()
    }
}

/// The curve's `beta`.
pub open spec fn beta_spec() -> Uint256 {
    Uint256 { l0: 0xf4cdfcb99cee9e89, l1: 0x609ad26c15c915c1, l2: 0x150e596d72f7a8c5, l3: 0x6f21413efbe40de }
}

/// The curve's generator.
pub open spec fn generator_spec() -> Point {
    Point {
        x: Uint256 { l0: 0x3d723d8bc943cfca, l1: 0xdeacfd9b0d1819e0, l2: 0x7beced415a40f0c7, l3: 0x1ef15c18599971b },
        y: Uint256 { l0: 0x2873000c36e8dc1f, l1: 0xde53ecd11abe43a3, l2: 0xb7be4801df46ec62, l3: 0x5668060aa49730 },
    }
}

/// The shift point, added before each multiplication so that no partial sum
/// is the identity.
pub open spec fn shift_spec() -> Point {
    Point {
        x: Uint256 { l0: 0x551fde4050ca6804, l1: 0x716b0b1022947733, l2: 0xee1b87eb599f16, l3: 0x49ee3eba8c16007 },
        y: Uint256 { l0: 0xd0405d266e10268a, l1: 0x4e621062c0e056c1, l2: 0xf346d49d06ea0ed3, l3: 0x3ca0cfe4b3bc6dd },
    }
}

pub fn beta() -> (r: Uint256)
    ensures
        r == beta_spec(),
{
    Uint256 { l0: 0xf4cdfcb99cee9e89, l1: 0x609ad26c15c915c1, l2: 0x150e596d72f7a8c5, l3: 0x6f21413efbe40de }
}

pub fn generator() -> (r: Point)
    ensures
        r == generator_spec(),
        r.wf(),
{
    Point {
        x: Uint256 { l0: 0x3d723d8bc943cfca, l1: 0xdeacfd9b0d1819e0, l2: 0x7beced415a40f0c7, l3: 0x1ef15c18599971b },
        y: Uint256 { l0: 0x2873000c36e8dc1f, l1: 0xde53ecd11abe43a3, l2: 0xb7be4801df46ec62, l3: 0x5668060aa49730 },
    }
}

pub fn shift_point() -> (r: Point)
    ensures
        r == shift_spec(),
        r.wf(),
{
    Point {
        x: Uint256 { l0: 0x551fde4050ca6804, l1: 0x716b0b1022947733, l2: 0xee1b87eb599f16, l3: 0x49ee3eba8c16007 },
        y: Uint256 { l0: 0xd0405d266e10268a, l1: 0x4e621062c0e056c1, l2: 0xf346d49d06ea0ed3, l3: 0x3ca0cfe4b3bc6dd },
    }
}

/// `x^3 + x + beta`, the square of a point's `y` for its `x`.
pub open spec fn curve_rhs(x: nat) -> nat {
    fadd(fadd(fmul(x, fmul(x, x)), x), beta_spec().val())
}

/// `x^3 + x + beta`.
pub fn curve_rhs_of(x: &Uint256) -> (r: Uint256)
    ensures
        r.val() == curve_rhs(x.val()),
{
    felt_add(&felt_add(&felt_mul(x, &felt_mul(x, x)), x), &beta())
}

/// The slope of the chord through `p` and `q`.
pub open spec fn chord_slope(p: Xy, q: Xy) -> nat {
    fmul(fsub(p.1, q.1), inv_or_zero(fsub(p.0, q.0) as int))
}

/// The slope of the tangent at `p`.
pub open spec fn tangent_slope(p: Xy) -> nat {
    fmul(fadd(fmul(3, fmul(p.0, p.0)), 1), inv_or_zero(fmul(2, p.1) as int))
}

/// The third point on the line of slope `s` through `p` and `q`, reflected.
pub open spec fn apply_slope(p: Xy, q: Xy, s: nat) -> Xy {
    let x = fsub(fsub(fmul(s, s), p.0), q.0);
    (x, fsub(fmul(s, fsub(p.0, x)), p.1))
}

/// `p + q` for points with distinct `x`.
pub open spec fn add_spec(p: Xy, q: Xy) -> Xy {
    apply_slope(p, q, chord_slope(p, q))
}

/// `2 p` for a point with nonzero `y`.
pub open spec fn double_spec(p: Xy) -> Xy {
    apply_slope(p, p, tangent_slope(p))
}

/// `-p`.
pub open spec fn neg_spec(p: Xy) -> Xy {
    (p.0, fsub(0, p.1))
}

/// The sum of `p` and `q`, with the chord's slope and the inverse of
/// `p.x - q.x`; degenerate where `p.x - q.x` has no inverse (equal `x`).
pub fn ec_add(p: &Point, q: &Point) -> (r: Result<(Point, Uint256, Uint256), Error>)
    requires
        p.wf(),
        q.wf(),
    ensures
        r is Ok <==> invertible(fsub(p.x.val(), q.x.val()) as int),
        r matches Err(e) ==> e == Error::DegenerateECOperation,
        r matches Ok(t) ==> {
            &&& t.0.wf()
            &&& t.0.xy() == add_spec(p.xy(), q.xy())
            &&& t.1.val() == chord_slope(p.xy(), q.xy())
            &&& t.2.val() == inv_or_zero(fsub(p.x.val(), q.x.val()) as int)
        },
{
    let dx = felt_sub(&p.x, &q.x);
    let inv = match felt_inverse(&dx) {
        Some(i) => i,
        None => return Err(Error::DegenerateECOperation),
    };
    let slope = felt_mul(&felt_sub(&p.y, &q.y), &inv);
    let r = apply(p, q, &slope);
    Ok((r, slope, inv))
}

/// `2 p` with the tangent's slope; degenerate where `2 p.y` has no inverse.
pub fn ec_double(p: &Point) -> (r: Result<(Point, Uint256), Error>)
    requires
        p.wf(),
    ensures
        r is Ok <==> invertible(fmul(2, p.y.val()) as int),
        r matches Err(e) ==> e == Error::DegenerateECOperation,
        r matches Ok(t) ==> {
            &&& t.0.wf()
            &&& t.0.xy() == double_spec(p.xy())
            &&& t.1.val() == tangent_slope(p.xy())
        },
{
    let two = Uint256::from_u64(2);
    let three = Uint256::from_u64(3);
    let one = Uint256::from_u64(1);
    let den = felt_mul(&two, &p.y);
    let inv = match felt_inverse(&den) {
        Some(i) => i,
        None => return Err(Error::DegenerateECOperation),
    };
    let num = felt_add(&felt_mul(&three, &felt_mul(&p.x, &p.x)), &one);
    let slope = felt_mul(&num, &inv);
    let r = apply(p, p, &slope);
    Ok((r, slope))
}

/// `-p`.
pub fn ec_neg(p: &Point) -> (r: Point)
    requires
        p.wf(),
    ensures
        r.wf(),
        r.xy() == neg_spec(p.xy()),
{
    Point { x: p.x, y: felt_sub(&Uint256::zero(), &p.y) }
}

fn apply(p: &Point, q: &Point, s: &Uint256) -> (r: Point)
    requires
        p.wf(),
        q.wf(),
    ensures
        r.wf(),
        r.xy() == apply_slope(p.xy(), q.xy(), s.val()),
{
    let x = felt_sub(&felt_sub(&felt_mul(s, s), &p.x), &q.x);
    let y = felt_sub(&felt_mul(s, &felt_sub(&p.x, &x)), &p.y);
    Point { x, y }
}

} // verus!
