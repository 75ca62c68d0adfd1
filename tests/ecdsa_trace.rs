use binary::curve::ec_add;
use binary::curve::ec_double;
use binary::curve::ec_neg;
use binary::curve::generator;
use binary::curve::shift_point;
use binary::curve::Point;
use binary::ecdsa::doubling_steps;
use binary::ecdsa::gen_ec_mult_steps;
use binary::ecdsa::generator_points;
use binary::ecdsa::mimic_ec_mult_air;
use binary::ecdsa::InstanceTrace;
use binary::error::Error;
use binary::public_input::EcdsaInstance;
use binary::public_input::Signature;
use binary::uint::Uint256;

fn u(l0: u64, l1: u64, l2: u64, l3: u64) -> Uint256 {
    Uint256 { l0, l1, l2, l3 }
}

fn message() -> Uint256 {
    u(0xf2a74de452e6b439, 0x6513270e269e0d37, 0xc5c7fd0a6a3a450, 0x348fc20128b2f33)
}

fn sig_r() -> Uint256 {
    u(0xd2d677c8b10db213, 0x7155393c1d578555, 0xd7e86f61ab73e226, 0x3bff93fbda6d68f)
}

fn sig_w() -> Uint256 {
    u(0xc68352b764a442d9, 0xb3061fed89bdfb4, 0x725d91e8e259a7fb, 0x30ee1a8783457dd)
}

fn pubkey_x() -> Uint256 {
    u(0x5fba0053c4c8597, 0xecd039c0497eb574, 0xec6361c9ee9f437e, 0x68ce8f14b29ff11)
}

fn pubkey_y() -> Uint256 {
    u(0xc81ccc447d651b76, 0x938c2e5b70e153d1, 0x61bbde137df96ff7, 0x2c82baca219652f)
}

fn instance(r: Uint256) -> EcdsaInstance {
    EcdsaInstance { index: 0, pubkey_x: pubkey_x(), message: message(), signature: Signature { r, w: sig_w() } }
}

fn minus_shift(p: &Point) -> Point {
    ec_add(p, &ec_neg(&shift_point())).unwrap().0
}

#[test]
fn valid_instance_gives_full_trace() {
    let t = InstanceTrace::new(instance(sig_r()), Some(pubkey_y())).unwrap();
    assert_eq!(t.pubkey, Point { x: pubkey_x(), y: pubkey_y() });
    assert_eq!(t.zg_steps.len(), 256);
    assert_eq!(t.rq_steps.len(), 256);
    assert_eq!(t.wb_steps.len(), 256);
    assert_eq!(t.pubkey_doubling_steps.len(), 256);
    assert_eq!(t.b_doubling_steps.len(), 256);
    // last partial sum minus the shift point is the plain product
    let rq = minus_shift(&t.rq_steps[255].partial_sum);
    assert_eq!(rq.x, u(0x7de94f49c0f493af, 0xd6a870425d2b8856, 0xa84049218862fa0a, 0x4787ee7240d0c77));
    assert_eq!(rq.y, u(0xd745aed070226750, 0x604205679dbf9e5e, 0x385c0f2a3659993a, 0x3f441e68898e25b));
    let zg = ec_add(&t.zg_steps[255].partial_sum, &shift_point()).unwrap().0;
    assert_eq!(zg.x, u(0x86ec1ef3aee20d23, 0x69ed19772fc5fc24, 0x1c14c4a4a29ece74, 0x209246371e465d1));
    assert_eq!(zg.y, u(0x6089194764e71063, 0xec608c6110adca21, 0x9d233efdf9bb8fe, 0x2b6a98b6ffa159a));
    assert_eq!(t.b.x, u(0x5288b0c5563b24f2, 0x5b340d11a20fc9b6, 0xbe94a04dfc328d90, 0x1125eed3d4fcb3));
    // the first row starts from the shifted sum and the generator
    assert_eq!(t.zg_steps[0].partial_sum, ec_neg(&shift_point()));
    assert_eq!(t.zg_steps[0].fixed_point, generator());
    assert_eq!(t.zg_steps[0].suffix, message());
    assert_eq!(t.zg_steps[1].suffix, u(0xf953a6f229735a1c, 0x32899387134f069b, 0x862e3fe85351d228, 0x1a47e1009459799));
    assert_eq!(t.zg_steps[1].fixed_point, ec_double(&generator()).unwrap().0);
    assert_eq!(t.pubkey_doubling_steps[0].point, t.pubkey);
    assert_eq!(t.b_doubling_steps[0].point, t.b);
    assert_eq!(t.message, message());
    assert_eq!(t.r, sig_r());
    assert_eq!(t.w, sig_w());
}

#[test]
fn other_root_gives_same_key() {
    // the negated root is the same pair of candidates
    let neg = ec_neg(&Point { x: pubkey_x(), y: pubkey_y() }).y;
    let t = InstanceTrace::new(instance(sig_r()), Some(neg)).unwrap();
    assert_eq!(t.pubkey.y, pubkey_y());
}

#[test]
fn wrong_signature_is_invalid() {
    let mut r = sig_r();
    r.l0 ^= 2;
    assert_eq!(InstanceTrace::new(instance(r), Some(pubkey_y())).unwrap_err(), Error::InvalidSignature);
}

#[test]
fn wrong_root_is_not_on_curve() {
    let mut y = pubkey_y();
    y.l0 ^= 1;
    assert_eq!(InstanceTrace::new(instance(sig_r()), Some(y)).unwrap_err(), Error::PointNotOnCurve);
    assert_eq!(InstanceTrace::new(instance(sig_r()), None).unwrap_err(), Error::PointNotOnCurve);
}

#[test]
fn zero_scalars_are_out_of_range() {
    let mut i = instance(sig_r());
    i.signature.w = Uint256::zero();
    assert_eq!(InstanceTrace::new(i, Some(pubkey_y())).unwrap_err(), Error::ScalarOutOfRange);
    let g = generator();
    let s = shift_point();
    assert_eq!(gen_ec_mult_steps(&Uint256::zero(), g, s).unwrap_err(), Error::ScalarOutOfRange);
    let wide = u(0, 0, 0, 0x800000000000000);
    assert_eq!(mimic_ec_mult_air(&wide, g, s).unwrap_err(), Error::ScalarOutOfRange);
}

#[test]
fn small_scalar_steps() {
    let g = generator();
    let s = shift_point();
    // 3 G + shift
    let steps = gen_ec_mult_steps(&Uint256::from_u64(3), g, s).unwrap();
    let expected = ec_add(&ec_add(&s, &g).unwrap().0, &ec_double(&g).unwrap().0).unwrap().0;
    assert_eq!(steps[255].partial_sum, expected);
    assert_eq!(mimic_ec_mult_air(&Uint256::from_u64(3), g, s).unwrap(), expected);
    assert_eq!(steps[2].slope, Uint256::zero());
    assert_eq!(steps[1].suffix, Uint256::from_u64(1));
    let d = doubling_steps(g).unwrap();
    assert_eq!(d[1].point, ec_double(&g).unwrap().0);
    assert_eq!(d[0].slope, ec_double(&g).unwrap().1);
}

#[test]
fn adding_a_point_to_itself_is_degenerate() {
    let g = generator();
    assert_eq!(ec_add(&g, &g).unwrap_err(), Error::DegenerateECOperation);
    // the first row adds g to the partial sum g
    assert_eq!(gen_ec_mult_steps(&Uint256::from_u64(1), g, g).unwrap_err(), Error::DegenerateECOperation);
}

#[test]
fn generator_points_double_each_time() {
    let (xs, ys) = generator_points().unwrap();
    assert_eq!(xs.len(), 256);
    assert_eq!(ys.len(), 256);
    assert_eq!(Point { x: xs[0], y: ys[0] }, generator());
    let g2 = ec_double(&generator()).unwrap().0;
    assert_eq!(Point { x: xs[1], y: ys[1] }, g2);
    assert_eq!(Point { x: xs[2], y: ys[2] }, ec_double(&g2).unwrap().0);
}
