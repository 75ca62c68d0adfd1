//! The ECDSA builtin's witness: signature verification, and the
//! bit-serial double-and-add steps that the circuit constrains.
use crate::curve::add_spec;
use crate::curve::chord_slope;
use crate::curve::curve_rhs;
use crate::curve::curve_rhs_of;
use crate::curve::double_spec;
use crate::curve::ec_add;
use crate::curve::ec_double;
use crate::curve::ec_neg;
use crate::curve::generator;
use crate::curve::generator_spec;
use crate::curve::neg_spec;
use crate::curve::Point;
use crate::curve::shift_point;
use crate::curve::shift_spec;
use crate::curve::tangent_slope;
use crate::curve::Xy;
use crate::error::Error;
use crate::field::curve_order;
use crate::field::fadd;
use crate::field::fe;
use crate::field::felt_add;
use crate::field::felt_inverse;
use crate::field::felt_mul;
use crate::field::felt_sub;
use crate::field::field_modulus;
use crate::field::fmul;
use crate::field::fsub;
use crate::field::inv_or_zero;
use crate::field::invertible;
use crate::field::is_canonical;
use crate::field::is_inverse;
use crate::field::modulus;
use crate::field::order;
use crate::field::reduce;
use crate::field::shr;
use crate::public_input::EcdsaInstance;
use crate::uint::Uint256;
use vstd::arithmetic::power2::pow2;
use vstd::prelude::*;

verus! {

/// Steps of every multiplication and doubling chain.
pub const CHAIN_STEPS: usize = 256;
/// Scalars must lie below `2^SCALAR_BITS`.
pub const SCALAR_BITS: usize = 251;

/// One row of a scalar multiplication.
#[derive(Clone, Copy, Debug)]
pub struct EcMultPartialStep {
    pub partial_sum: Point,
    pub fixed_point: Point,
    pub suffix: Uint256,
    pub slope: Uint256,
    pub x_diff_inv: Uint256,
}

/// One row of a doubling chain.
#[derive(Clone, Copy, Debug)]
pub struct DoublingStep {
    pub point: Point,
    pub slope: Uint256,
}

/// The numbers of a multiplication row.
pub struct StepView {
    pub partial_sum: Xy,
    pub fixed_point: Xy,
    pub suffix: nat,
    pub slope: nat,
    pub x_diff_inv: nat,
}

impl EcMultPartialStep {
    pub open spec fn view(self) -> StepView {
        StepView {
            partial_sum: self.partial_sum.xy(),
            fixed_point: self.fixed_point.xy(),
            suffix: self.suffix.val(),
            slope: self.slope.val(),
            x_diff_inv: self.x_diff_inv.val(),
        }
    }
}

/// A scalar the circuit accepts: nonzero and below `2^251`.
pub open spec fn scalar_ok(m: nat) -> bool {
    0 < m < pow2(SCALAR_BITS as nat)
}

/// Bit `i` of `m`.
pub open spec fn bit(m: nat, i: nat) -> bool {
    (m / pow2(i)) % 2 == 1
}

/// One double-and-add iteration on (partial sum, fixed point) for a bit.
pub open spec fn mult_iteration(s: (Xy, Xy), b: bool) -> Result<(Xy, Xy), Error> {
    let (ps, pt) = s;
    if !invertible(fsub(ps.0, pt.0) as int) || !invertible(fmul(2, pt.1) as int) {
        Err(Error::DegenerateECOperation)
    } else {
        Ok((if b { add_spec(ps, pt) } else { ps }, double_spec(pt)))
    }
}

/// (partial sum, fixed point) before iteration `i` of the trace of `m * point + shift`.
pub open spec fn mult_state(m: nat, point: Xy, shift: Xy, i: nat) -> Result<(Xy, Xy), Error>
    decreases i,
{
    if i == 0 {
        Ok((shift, point))
    } else {
        match mult_state(m, point, shift, (i - 1) as nat) {
            Err(e) => Err(e),
            Ok(s) => mult_iteration(s, bit(m, (i - 1) as nat)),
        }
    }
}

/// Row `i` of the trace of `m * point + shift`.
pub open spec fn step_spec(m: nat, point: Xy, shift: Xy, i: nat) -> StepView {
    let (ps, pt) = mult_state(m, point, shift, i)->Ok_0;
    StepView {
        partial_sum: ps,
        fixed_point: pt,
        suffix: fe((m / pow2(i)) as int),
        slope: if bit(m, i) { chord_slope(ps, pt) } else { 0 },
        x_diff_inv: inv_or_zero(fsub(ps.0, pt.0) as int),
    }
}

/// The trace of `m * point + shift` succeeds: the scalar is accepted and no
/// iteration is degenerate.
pub open spec fn mult_steps_ok(m: nat, point: Xy, shift: Xy) -> bool {
    scalar_ok(m) && mult_state(m, point, shift, CHAIN_STEPS as nat) is Ok
}

/// Double-and-add as the circuit runs it, while bits remain.
pub open spec fn air_mult(m: nat, point: Xy, partial: Xy) -> Result<Xy, Error>
    decreases m,
{
    if m == 0 {
        Ok(partial)
    } else {
        match mult_iteration((partial, point), m % 2 == 1) {
            Err(e) => Err(e),
            Ok((ps, pt)) => air_mult(m / 2, pt, ps),
        }
    }
}

/// `m * point + shift` as the circuit computes it, or why it cannot.
pub open spec fn mimic_spec(m: nat, point: Xy, shift: Xy) -> Result<Xy, Error> {
    if scalar_ok(m) {
        air_mult(m, point, shift)
    } else {
        Err(Error::ScalarOutOfRange)
    }
}

/// The point before step `i` of a doubling chain.
pub open spec fn doubling_state(p: Xy, i: nat) -> Result<Xy, Error>
    decreases i,
{
    if i == 0 {
        Ok(p)
    } else {
        match doubling_state(p, (i - 1) as nat) {
            Err(e) => Err(e),
            Ok(q) => if invertible(fmul(2, q.1) as int) {
                Ok(double_spec(q))
            } else {
                Err(Error::DegenerateECOperation)
            },
        }
    }
}

proof fn lemma_mult_err_persists(m: nat, point: Xy, shift: Xy, i: nat, k: nat)
    requires
        i <= k,
        mult_state(m, point, shift, i) is Err,
    ensures
        mult_state(m, point, shift, k) == mult_state(m, point, shift, i),
    decreases k - i,
{
    if i < k {
        lemma_mult_err_persists(m, point, shift, i, (k - 1) as nat);
    }
}

proof fn lemma_doubling_err_persists(p: Xy, i: nat, k: nat)
    requires
        i <= k,
        doubling_state(p, i) is Err,
    ensures
        doubling_state(p, k) == doubling_state(p, i),
    decreases k - i,
{
    if i < k {
        lemma_doubling_err_persists(p, i, (k - 1) as nat);
    }
}

/// From any state the trace reaches, the circuit's double-and-add of the
/// bits not yet used ends where it ends from the start.
proof fn lemma_air_mult_from_state(m: nat, point: Xy, shift: Xy, i: nat)
    requires
        mult_state(m, point, shift, i) is Ok,
    ensures
        air_mult(m, point, shift) == air_mult(
            m / pow2(i),
            mult_state(m, point, shift, i)->Ok_0.1,
            mult_state(m, point, shift, i)->Ok_0.0,
        ),
    decreases i,
{
    vstd::arithmetic::power2::lemma_pow2_pos(i);
    if i == 0 {
        vstd::arithmetic::power2::lemma2_to64();
        vstd::arithmetic::div_mod::lemma_fundamental_div_mod_converse_div(m as int, 1, m as int, 0);
    } else {
        let j = (i - 1) as nat;
        if mult_state(m, point, shift, j) is Err {
            assert(mult_state(m, point, shift, i) is Err);
        }
        lemma_air_mult_from_state(m, point, shift, j);
        let ps = mult_state(m, point, shift, j)->Ok_0.0;
        let pt = mult_state(m, point, shift, j)->Ok_0.1;
        let q = m / pow2(j);
        vstd::arithmetic::power2::lemma_pow2_pos(j);
        vstd::arithmetic::power2::lemma_pow2_adds(j, 1);
        vstd::arithmetic::power2::lemma2_to64();
        vstd::arithmetic::div_mod::lemma_div_denominator(m as int, pow2(j) as int, 2);
        assert(pow2(i) == pow2(j) * 2);
        assert(q / 2 == m / pow2(i));
        assert(mult_state(m, point, shift, i) == mult_iteration((ps, pt), q % 2 == 1));
        if q == 0 {
            assert(air_mult(0, pt, ps) == Ok::<Xy, Error>(ps));
            assert(mult_state(m, point, shift, i)->Ok_0.0 == ps);
        }
    }
}

/// A trace of 256 rows that meets no degenerate step ends where the
/// circuit's double-and-add ends: its last recorded partial sum is
/// `m * point + shift` as the circuit computes it.
pub proof fn lemma_chain_ends_at_mimic(m: nat, point: Xy, shift: Xy)
    requires
        mult_steps_ok(m, point, shift),
    ensures
        mult_state(m, point, shift, (CHAIN_STEPS - 1) as nat) is Ok,
        mimic_spec(m, point, shift) == Ok::<Xy, Error>(mult_state(m, point, shift, (CHAIN_STEPS - 1) as nat)->Ok_0.0),
{
    let last = (CHAIN_STEPS - 1) as nat;
    if mult_state(m, point, shift, last) is Err {
        lemma_mult_err_persists(m, point, shift, last, CHAIN_STEPS as nat);
    }
    lemma_air_mult_from_state(m, point, shift, CHAIN_STEPS as nat);
    vstd::arithmetic::power2::lemma_pow2_strictly_increases(SCALAR_BITS as nat, last);
    vstd::arithmetic::power2::lemma_pow2_strictly_increases(SCALAR_BITS as nat, CHAIN_STEPS as nat);
    vstd::arithmetic::div_mod::lemma_basic_div(m as int, pow2(last) as int);
    vstd::arithmetic::div_mod::lemma_basic_div(m as int, pow2(CHAIN_STEPS as nat) as int);
    assert(!bit(m, last));
    let st = mult_state(m, point, shift, last)->Ok_0;
    assert(mult_state(m, point, shift, CHAIN_STEPS as nat) == mult_iteration(st, bit(m, last)));
    assert(air_mult(0, mult_state(m, point, shift, CHAIN_STEPS as nat)->Ok_0.1, mult_state(m, point, shift, CHAIN_STEPS as nat)->Ok_0.0) == Ok::<Xy, Error>(st.0));
}

/// Whether `0 < m < 2^251`.
fn check_scalar(m: &Uint256) -> (r: bool)
    ensures
        r == scalar_ok(m.val()),
{
    let high = shr(m, SCALAR_BITS);
    proof {
        vstd::arithmetic::power2::lemma_pow2_pos(SCALAR_BITS as nat);
        vstd::arithmetic::div_mod::lemma_div_is_ordered_by_denominator(m.val() as int, 1, pow2(SCALAR_BITS as nat) as int);
        if m.val() >= pow2(SCALAR_BITS as nat) {
            vstd::arithmetic::div_mod::lemma_div_is_ordered(pow2(SCALAR_BITS as nat) as int, m.val() as int, pow2(SCALAR_BITS as nat) as int);
            vstd::arithmetic::div_mod::lemma_div_by_self(pow2(SCALAR_BITS as nat) as int);
        } else {
            vstd::arithmetic::div_mod::lemma_basic_div(m.val() as int, pow2(SCALAR_BITS as nat) as int);
        }
    }
    !m.is_zero() && high.is_zero()
}

/// The rows of `m * point + shift`: 256 iterations, each recording the
/// partial sum, the doubled base, `m >> i`, the chord slope where bit `i`
/// is set (zero otherwise) and the inverse of the `x` difference.
pub fn gen_ec_mult_steps(m: &Uint256, point: Point, shift: Point) -> (r: Result<Vec<EcMultPartialStep>, Error>)
    requires
        point.wf(),
        shift.wf(),
    ensures
        r is Ok <==> mult_steps_ok(m.val(), point.xy(), shift.xy()),
        r matches Err(e) ==> if scalar_ok(m.val()) {
            mult_state(m.val(), point.xy(), shift.xy(), CHAIN_STEPS as nat) == Err::<(Xy, Xy), Error>(e)
        } else {
            e == Error::ScalarOutOfRange
        },
        r matches Ok(v) ==> v@.len() == CHAIN_STEPS && forall|i: int|
            0 <= i < CHAIN_STEPS ==> #[trigger] v@[i].view() == step_spec(m.val(), point.xy(), shift.xy(), i as nat),
{
    if !check_scalar(m) {
        return Err(Error::ScalarOutOfRange);
    }
    let ghost mv = m.val();
    let mut partial_sum = shift;
    let mut fixed = point;
    let mut res: Vec<EcMultPartialStep> = Vec::new();
    let mut i: usize = 0;
    while i < CHAIN_STEPS
        invariant
            i <= CHAIN_STEPS,
            mv == m.val(),
            scalar_ok(mv),
            partial_sum.wf(),
            fixed.wf(),
            mult_state(mv, point.xy(), shift.xy(), i as nat) == Ok::<(Xy, Xy), Error>((partial_sum.xy(), fixed.xy())),
            res@.len() == i,
            forall|j: int| 0 <= j < i ==> #[trigger] res@[j].view() == step_spec(mv, point.xy(), shift.xy(), j as nat),
        decreases CHAIN_STEPS - i,
    {
        let suffix = shr(m, i);
        let b = suffix.is_odd();
        let added = ec_add(&partial_sum, &fixed);
        let doubled = ec_double(&fixed);
        let ((sum, slope, inv), (dbl, _)) = match (added, doubled) {
            (Ok(a), Ok(d)) => (a, d),
            _ => {
                proof {
                    let k = (i + 1) as nat;
                    assert((k - 1) as nat == i as nat);
                    assert(mult_state(mv, point.xy(), shift.xy(), k) == Err::<(Xy, Xy), Error>(Error::DegenerateECOperation));
                    lemma_mult_err_persists(mv, point.xy(), shift.xy(), k, CHAIN_STEPS as nat);
                }
                return Err(Error::DegenerateECOperation);
            },
        };
        let step = EcMultPartialStep {
            partial_sum,
            fixed_point: fixed,
            suffix: reduce(&suffix, &modulus()),
            slope: if b { slope } else { Uint256::zero() },
            x_diff_inv: inv,
        };
        res.push(step);
        if b {
            partial_sum = sum;
        }
        fixed = dbl;
        i = i + 1;
    }
    Ok(res)
}

/// `m * point + shift` by the circuit's double-and-add, stopping after the
/// highest set bit of `m`.
pub fn mimic_ec_mult_air(m: &Uint256, point: Point, shift: Point) -> (r: Result<Point, Error>)
    requires
        point.wf(),
        shift.wf(),
    ensures
        r matches Ok(p) ==> p.wf() && mimic_spec(m.val(), point.xy(), shift.xy()) == Ok::<Xy, Error>(p.xy()),
        r matches Err(e) ==> mimic_spec(m.val(), point.xy(), shift.xy()) == Err::<Xy, Error>(e),
{
    if !check_scalar(m) {
        return Err(Error::ScalarOutOfRange);
    }
    let mut rest = *m;
    let mut partial_sum = shift;
    let mut fixed = point;
    while !rest.is_zero()
        invariant
            scalar_ok(m.val()),
            partial_sum.wf(),
            fixed.wf(),
            air_mult(m.val(), point.xy(), shift.xy()) == air_mult(rest.val(), fixed.xy(), partial_sum.xy()),
        decreases rest.val(),
    {
        let added = ec_add(&partial_sum, &fixed);
        let doubled = ec_double(&fixed);
        let ((sum, _, _), (dbl, _)) = match (added, doubled) {
            (Ok(a), Ok(d)) => (a, d),
            _ => {
                assert(air_mult(rest.val(), fixed.xy(), partial_sum.xy()) == Err::<Xy, Error>(Error::DegenerateECOperation));
                return Err(Error::DegenerateECOperation);
            },
        };
        if rest.is_odd() {
            partial_sum = sum;
        }
        fixed = dbl;
        rest = shr(&rest, 1);
        proof {
            vstd::arithmetic::power2::lemma2_to64();
        }
    }
    Ok(partial_sum)
}

/// 256 rows of `p, 2p, 4p, ...`, each with its tangent slope.
pub fn doubling_steps(p: Point) -> (r: Result<Vec<DoublingStep>, Error>)
    requires
        p.wf(),
    ensures
        r is Ok <==> doubling_state(p.xy(), CHAIN_STEPS as nat) is Ok,
        r matches Err(e) ==> doubling_state(p.xy(), CHAIN_STEPS as nat) == Err::<Xy, Error>(e),
        r matches Ok(v) ==> v@.len() == CHAIN_STEPS && forall|i: int|
            0 <= i < CHAIN_STEPS ==> {
                let q = doubling_state(p.xy(), i as nat)->Ok_0;
                &&& (#[trigger] v@[i]).point.xy() == q
                &&& v@[i].slope.val() == tangent_slope(q)
            },
{
    let mut cur = p;
    let mut res: Vec<DoublingStep> = Vec::new();
    let mut i: usize = 0;
    while i < CHAIN_STEPS
        invariant
            i <= CHAIN_STEPS,
            cur.wf(),
            doubling_state(p.xy(), i as nat) == Ok::<Xy, Error>(cur.xy()),
            res@.len() == i,
            forall|j: int| 0 <= j < i ==> {
                let q = doubling_state(p.xy(), j as nat)->Ok_0;
                &&& (#[trigger] res@[j]).point.xy() == q
                &&& res@[j].slope.val() == tangent_slope(q)
            },
        decreases CHAIN_STEPS - i,
    {
        let (next, slope) = match ec_double(&cur) {
            Ok(d) => d,
            Err(e) => {
                proof {
                    lemma_doubling_err_persists(p.xy(), (i + 1) as nat, CHAIN_STEPS as nat);
                }
                return Err(e);
            },
        };
        res.push(DoublingStep { point: cur, slope });
        cur = next;
        i = i + 1;
    }
    Ok(res)
}

/// The points `G, 2 G, 4 G, ...` (256 of them) split into their `x` and
/// their `y` coordinates: the values that the circuit's periodic columns of
/// generator points take.
pub fn generator_points() -> (r: Result<(Vec<Uint256>, Vec<Uint256>), Error>)
    ensures
        r is Ok <==> doubling_state(generator_spec().xy(), CHAIN_STEPS as nat) is Ok,
        r matches Ok(c) ==> c.0@.len() == CHAIN_STEPS && c.1@.len() == CHAIN_STEPS && forall|i: int|
            0 <= i < CHAIN_STEPS ==> (#[trigger] c.0@[i].val(), c.1@[i].val()) == doubling_state(
                generator_spec().xy(),
                i as nat,
            )->Ok_0,
{
    let steps = doubling_steps(generator())?;
    let mut xs: Vec<Uint256> = Vec::new();
    let mut ys: Vec<Uint256> = Vec::new();
    let mut i: usize = 0;
    while i < steps.len()
        invariant
            steps@.len() == CHAIN_STEPS,
            i <= CHAIN_STEPS,
            xs@.len() == i,
            ys@.len() == i,
            forall|j: int| 0 <= j < CHAIN_STEPS ==> (#[trigger] steps@[j]).point.xy() == doubling_state(generator_spec().xy(), j as nat)->Ok_0,
            forall|j: int| 0 <= j < i ==> (#[trigger] xs@[j].val(), ys@[j].val()) == steps@[j].point.xy(),
        decreases CHAIN_STEPS - i,
    {
        xs.push(steps[i].point.x);
        ys.push(steps[i].point.y);
        i = i + 1;
    }
    Ok((xs, ys))
}

/// Whether `x(w (z G + r q) - shift) == r` for the candidate key `q`, or why
/// the circuit's arithmetic cannot decide it.
pub open spec fn check_candidate_spec(z: nat, r: nat, w: nat, q: Xy) -> Result<bool, Error> {
    let s = shift_spec().xy();
    match mimic_spec(z, generator_spec().xy(), neg_spec(s)) {
        Err(e) => Err(e),
        Ok(zg) => match mimic_spec(r, q, s) {
            Err(e) => Err(e),
            Ok(rq) => if !invertible(fsub(zg.0, rq.0) as int) {
                Err(Error::DegenerateECOperation)
            } else {
                match mimic_spec(w, add_spec(zg, rq), s) {
                    Err(e) => Err(e),
                    Ok(wb) => if !invertible(fsub(wb.0, s.0) as int) {
                        Err(Error::DegenerateECOperation)
                    } else {
                        Ok(add_spec(wb, neg_spec(s)).0 == r)
                    },
                }
            },
        },
    }
}

/// The two `y` for an `x` whose `y^2` is `y * y`: the smaller one first.
pub open spec fn candidates(y: nat) -> (nat, nat) {
    let n = fsub(0, y);
    if y < n { (y, n) } else { (n, y) }
}

/// The public key whose `x` is `x` and that the signature `(r, w)` of `z`
/// verifies against, trying the smaller `y` first.
pub open spec fn verify_spec(z: nat, r: nat, w: nat, x: nat, y: nat) -> Result<Xy, Error> {
    let (y1, y0) = candidates(y);
    match check_candidate_spec(z, r, w, (x, y1)) {
        Err(e) => Err(e),
        Ok(ok) => if ok {
            Ok((x, y1))
        } else {
            match check_candidate_spec(z, r, w, (x, y0)) {
                Err(e) => Err(e),
                Ok(ok) => if ok { Ok((x, y0)) } else { Err(Error::InvalidSignature) },
            }
        },
    }
}

fn check_candidate(z: &Uint256, r: &Uint256, w: &Uint256, q: Point) -> (res: Result<bool, Error>)
    requires
        r.val() < field_modulus(),
        q.wf(),
    ensures
        res == check_candidate_spec(z.val(), r.val(), w.val(), q.xy()),
{
    let shift = shift_point();
    let zg = mimic_ec_mult_air(z, generator(), ec_neg(&shift))?;
    let rq = mimic_ec_mult_air(r, q, shift)?;
    let (b, _, _) = ec_add(&zg, &rq)?;
    let wb = mimic_ec_mult_air(w, b, shift)?;
    let (d, _, _) = ec_add(&wb, &ec_neg(&shift))?;
    Ok(d.x.same(r))
}

proof fn lemma_modulus_odd()
    ensures
        field_modulus() % 2 == 1,
{
    let k = crate::uint::limb_base() * (crate::uint::limb_base() * 0x800000000000011);
    let h = 0x8000000000000000int * k;
    assert(field_modulus() == 2 * h + 1) by (nonlinear_arith)
        requires
            field_modulus() == 1 + crate::uint::limb_base() * k,
            crate::uint::limb_base() == 2 * 0x8000000000000000int,
            h == 0x8000000000000000int * k;
    vstd::arithmetic::div_mod::lemma_mod_multiples_vanish(h, 1, 2);
}

/// For `0 < y < p`, `y` is below `-y` exactly when `2 y mod p` is even.
proof fn lemma_candidate_order(y: nat)
    requires
        0 < y < field_modulus(),
    ensures
        fsub(0, y) == field_modulus() - y,
        (y < fsub(0, y)) == (fadd(y, y) % 2 == 0),
{
    let p = field_modulus() as int;
    vstd::arithmetic::div_mod::lemma_fundamental_div_mod_converse_mod(0 - y, p, -1, p - y);
    lemma_modulus_odd();
    if 2 * y < p {
        vstd::arithmetic::div_mod::lemma_small_mod((2 * y) as nat, p as nat);
    } else {
        vstd::arithmetic::div_mod::lemma_fundamental_div_mod_converse_mod(2 * y as int, p, 1, 2 * y as int - p);
    }
}

/// The public key that the signature verifies against.
fn verify(z: &Uint256, r: &Uint256, w: &Uint256, x: &Uint256, y: &Uint256) -> (res: Result<Point, Error>)
    requires
        r.val() < field_modulus(),
        x.val() < field_modulus(),
        y.val() < field_modulus(),
    ensures
        res matches Ok(p) ==> p.wf() && verify_spec(z.val(), r.val(), w.val(), x.val(), y.val()) == Ok::<Xy, Error>(p.xy()),
        res matches Err(e) ==> verify_spec(z.val(), r.val(), w.val(), x.val(), y.val()) == Err::<Xy, Error>(e),
{
    let neg_y = felt_sub(&Uint256::zero(), y);
    let two_y = felt_add(y, y);
    let y_first = !y.is_zero() && !two_y.is_odd();
    proof {
        assert(neg_y.val() == fsub(0, y.val()));
        assert(two_y.val() == fadd(y.val(), y.val()));
        if y.val() > 0 {
            lemma_candidate_order(y.val());
        } else {
            vstd::arithmetic::div_mod::lemma_small_mod(0, field_modulus());
        }
    }
    let (y1, y0) = if y_first { (*y, neg_y) } else { (neg_y, *y) };
    assert(y1.val() == candidates(y.val()).0 && y0.val() == candidates(y.val()).1);
    let q1 = Point { x: *x, y: y1 };
    if check_candidate(z, r, w, q1)? {
        return Ok(q1);
    }
    let q0 = Point { x: *x, y: y0 };
    if check_candidate(z, r, w, q0)? {
        return Ok(q0);
    }
    Err(Error::InvalidSignature)
}

/// The witness of one signature.
#[derive(Clone, Debug)]
pub struct InstanceTrace {
    pub instance: EcdsaInstance,
    /// The public key `Q`.
    pub pubkey: Point,
    pub pubkey_doubling_steps: Vec<DoublingStep>,
    pub w: Uint256,
    pub w_inv: Uint256,
    pub r: Uint256,
    pub r_inv: Uint256,
    pub r_point_slope: Uint256,
    pub r_point_x_diff_inv: Uint256,
    /// The message hash `z`.
    pub message: Uint256,
    pub message_inv: Uint256,
    /// `B = z G + r Q`.
    pub b: Point,
    pub b_slope: Uint256,
    pub b_x_diff_inv: Uint256,
    pub b_doubling_steps: Vec<DoublingStep>,
    /// The rows of `z G` (from `-shift`).
    pub zg_steps: Vec<EcMultPartialStep>,
    /// The rows of `r Q` (from `shift`).
    pub rq_steps: Vec<EcMultPartialStep>,
    /// The rows of `w B` (from `shift`).
    pub wb_steps: Vec<EcMultPartialStep>,
}

/// The instance's key `q` leads to a witness with no degenerate step: the
/// three multiplications and the two doubling chains all succeed, and the
/// message, `r` and `w` have field inverses.
pub open spec fn witness_ok(z: nat, r: nat, w: nat, q: Xy) -> bool {
    let s = shift_spec().xy();
    let g = generator_spec().xy();
    let zg = mimic_spec(z, g, neg_spec(s))->Ok_0;
    let rq = mimic_spec(r, q, s)->Ok_0;
    let b = add_spec(zg, rq);
    &&& mult_steps_ok(z, g, neg_spec(s))
    &&& mult_steps_ok(r, q, s)
    &&& mult_steps_ok(w, b, s)
    &&& doubling_state(q, CHAIN_STEPS as nat) is Ok
    &&& doubling_state(b, CHAIN_STEPS as nat) is Ok
    &&& invertible(z as int)
    &&& invertible(r as int)
    &&& invertible(w as int)
}

/// `v` is the trace of `m * point + shift`, and its last partial sum is what
/// the circuit's double-and-add computes.
pub open spec fn chain_matches(v: Seq<EcMultPartialStep>, m: nat, point: Xy, shift: Xy) -> bool {
    &&& v.len() == CHAIN_STEPS
    &&& forall|i: int| 0 <= i < CHAIN_STEPS ==> #[trigger] v[i].view() == step_spec(m, point, shift, i as nat)
    &&& mimic_spec(m, point, shift) == Ok::<Xy, Error>(v[CHAIN_STEPS - 1].partial_sum.xy())
}

/// `v` is the doubling chain of `p`.
pub open spec fn doublings_match(v: Seq<DoublingStep>, p: Xy) -> bool {
    &&& v.len() == CHAIN_STEPS
    &&& doubling_state(p, CHAIN_STEPS as nat) is Ok
    &&& forall|i: int| 0 <= i < CHAIN_STEPS ==> {
        let q = doubling_state(p, i as nat)->Ok_0;
        &&& (#[trigger] v[i]).point.xy() == q
        &&& v[i].slope.val() == tangent_slope(q)
    }
}

impl InstanceTrace {
    /// Verifies the instance's signature and builds its witness. `pubkey_y`
    /// is a square root of `x^3 + x + beta` for the key's `x`, as a
    /// square-root routine of the field found it (`None` where it found none).
    #[verifier::rlimit(100)]
    #[verifier::spinoff_prover]
    pub fn new(instance: EcdsaInstance, pubkey_y: Option<Uint256>) -> (res: Result<InstanceTrace, Error>)
        ensures
            ({
                let z = instance.message.val() % field_modulus();
                let x = instance.pubkey_x.val() % field_modulus();
                let r = instance.signature.r.val() % field_modulus();
                let w = instance.signature.w.val() % curve_order();
                let root = pubkey_y matches Some(y) && y.val() < field_modulus() && fmul(y.val(), y.val()) == curve_rhs(x);
                &&& w == 0 ==> res == Err::<InstanceTrace, Error>(Error::ScalarOutOfRange)
                &&& w != 0 && !root ==> res == Err::<InstanceTrace, Error>(Error::PointNotOnCurve)
                &&& res is Ok <==> w != 0 && root && verify_spec(z, r, w, x, pubkey_y->Some_0.val()) is Ok
                    && witness_ok(z, r, w, verify_spec(z, r, w, x, pubkey_y->Some_0.val())->Ok_0)
                &&& w != 0 && root ==> match verify_spec(z, r, w, x, pubkey_y->Some_0.val()) {
                    Err(e) => res == Err::<InstanceTrace, Error>(e),
                    Ok(q) => res matches Ok(t) ==> t.pubkey.xy() == q,
                }
                &&& res matches Ok(t) ==> {
                    let s = shift_spec().xy();
                    let g = generator_spec().xy();
                    let zg = mimic_spec(z, g, neg_spec(s))->Ok_0;
                    let rq = mimic_spec(r, t.pubkey.xy(), s)->Ok_0;
                    &&& t.instance == instance
                    &&& t.message.val() == z
                    &&& t.r.val() == r
                    &&& t.w.val() == w
                    &&& is_inverse(z as int, t.message_inv.val() as int, field_modulus() as int)
                    &&& is_inverse(r as int, t.r_inv.val() as int, field_modulus() as int)
                    &&& is_inverse(w as int, t.w_inv.val() as int, field_modulus() as int)
                    &&& t.b.xy() == add_spec(zg, rq)
                    &&& t.b_slope.val() == chord_slope(zg, rq)
                    &&& t.b_x_diff_inv.val() == inv_or_zero(fsub(zg.0, rq.0) as int)
                    &&& is_inverse(fsub(zg.0, rq.0) as int, t.b_x_diff_inv.val() as int, field_modulus() as int)
                    &&& is_inverse(
                        fsub(t.wb_steps@[CHAIN_STEPS - 1].partial_sum.x.val(), s.0) as int,
                        t.r_point_x_diff_inv.val() as int,
                        field_modulus() as int,
                    )
                    &&& chain_matches(t.zg_steps@, z, g, neg_spec(s))
                    &&& chain_matches(t.rq_steps@, r, t.pubkey.xy(), s)
                    &&& chain_matches(t.wb_steps@, w, t.b.xy(), s)
                    &&& doublings_match(t.pubkey_doubling_steps@, t.pubkey.xy())
                    &&& doublings_match(t.b_doubling_steps@, t.b.xy())
                    &&& t.r_point_slope.val() == chord_slope(t.wb_steps@[CHAIN_STEPS - 1].partial_sum.xy(), neg_spec(s))
                    &&& t.r_point_x_diff_inv.val() == inv_or_zero(
                        fsub(t.wb_steps@[CHAIN_STEPS - 1].partial_sum.x.val(), s.0) as int)
                    &&& add_spec(t.wb_steps@[CHAIN_STEPS - 1].partial_sum.xy(), neg_spec(s)).0 == r
                }
            }),
    {
        let p = modulus();
        let message = reduce(&instance.message, &p);
        let pubkey_x = reduce(&instance.pubkey_x, &p);
        let r = reduce(&instance.signature.r, &p);
        let w = reduce(&instance.signature.w, &order());
        if w.is_zero() {
            return Err(Error::ScalarOutOfRange);
        }
        let y = match pubkey_y {
            Some(y) => y,
            None => return Err(Error::PointNotOnCurve),
        };
        if !is_canonical(&y) || !felt_mul(&y, &y).same(&curve_rhs_of(&pubkey_x)) {
            return Err(Error::PointNotOnCurve);
        }
        let pubkey = verify(&message, &r, &w, &pubkey_x, &y)?;
        proof {
            let z = message.val();
            let q = pubkey.xy();
            let sp = shift_spec().xy();
            let g = generator_spec().xy();
            assert(check_candidate_spec(z, r.val(), w.val(), q) == Ok::<bool, Error>(true));
            if witness_ok(z, r.val(), w.val(), q) {
                let zg = mimic_spec(z, g, neg_spec(sp))->Ok_0;
                let rq = mimic_spec(r.val(), q, sp)->Ok_0;
                lemma_chain_ends_at_mimic(z, g, neg_spec(sp));
                lemma_chain_ends_at_mimic(r.val(), q, sp);
                lemma_chain_ends_at_mimic(w.val(), add_spec(zg, rq), sp);
            }
        }

        let shift = shift_point();
        let neg_shift = ec_neg(&shift);
        let generator = generator();
        let zg = mimic_ec_mult_air(&message, generator, neg_shift)?;
        let qr = mimic_ec_mult_air(&r, pubkey, shift)?;
        let (b, b_slope, b_x_diff_inv) = ec_add(&zg, &qr)?;
        let b_doubling_steps = doubling_steps(b)?;
        let wb = mimic_ec_mult_air(&w, b, shift)?;

        let zg_steps = gen_ec_mult_steps(&message, generator, neg_shift)?;
        let rq_steps = gen_ec_mult_steps(&r, pubkey, shift)?;
        let wb_steps = gen_ec_mult_steps(&w, b, shift)?;
        proof {
            let last = (CHAIN_STEPS - 1) as nat;
            lemma_chain_ends_at_mimic(message.val(), generator.xy(), neg_shift.xy());
            lemma_chain_ends_at_mimic(r.val(), pubkey.xy(), shift.xy());
            lemma_chain_ends_at_mimic(w.val(), b.xy(), shift.xy());
            assert(zg_steps@[last as int].view() == step_spec(message.val(), generator.xy(), neg_shift.xy(), last));
            assert(rq_steps@[last as int].view() == step_spec(r.val(), pubkey.xy(), shift.xy(), last));
            assert(wb_steps@[last as int].view() == step_spec(w.val(), b.xy(), shift.xy(), last));
        }
        if !zg_steps[CHAIN_STEPS - 1].partial_sum.x.same(&zg.x) || !zg_steps[CHAIN_STEPS - 1].partial_sum.y.same(&zg.y)
            || !rq_steps[CHAIN_STEPS - 1].partial_sum.x.same(&qr.x) || !rq_steps[CHAIN_STEPS - 1].partial_sum.y.same(&qr.y)
            || !wb_steps[CHAIN_STEPS - 1].partial_sum.x.same(&wb.x) || !wb_steps[CHAIN_STEPS - 1].partial_sum.y.same(&wb.y) {
            return Err(Error::InternalConsistencyFailure);
        }

        let (w_inv, r_inv, message_inv) = match (felt_inverse(&w), felt_inverse(&r), felt_inverse(&message)) {
            (Some(a), Some(b), Some(c)) => (a, b, c),
            _ => return Err(Error::InternalConsistencyFailure),
        };
        let pubkey_doubling_steps = doubling_steps(pubkey)?;
        let (r_point, r_point_slope, r_point_x_diff_inv) = ec_add(&wb, &neg_shift)?;
        if !r_point.x.same(&r) {
            return Err(Error::InternalConsistencyFailure);
        }
        Ok(InstanceTrace {
            instance,
            pubkey,
            pubkey_doubling_steps,
            w,
            w_inv,
            r,
            r_inv,
            r_point_slope,
            r_point_x_diff_inv,
            message,
            message_inv,
            b,
            b_slope,
            b_x_diff_inv,
            b_doubling_steps,
            zg_steps,
            rq_steps,
            wb_steps,
        })
    }
}

} // verus!
