use binary::field::felt_add;
use binary::field::felt_inverse;
use binary::field::felt_inverse_or_zero;
use binary::field::felt_mul;
use binary::field::felt_sub;
use binary::field::is_canonical;
use binary::field::modulus;
use binary::field::order;
use binary::field::reduce;
use binary::field::shr;
use binary::uint::Uint256;

fn n(v: u64) -> Uint256 {
    Uint256::from_u64(v)
}

fn p_minus(v: u64) -> Uint256 {
    felt_sub(&Uint256::zero(), &n(v))
}

#[test]
fn addition_wraps_at_the_modulus() {
    assert_eq!(felt_add(&n(2), &n(3)), n(5));
    assert_eq!(felt_add(&p_minus(1), &n(3)), n(2));
    assert_eq!(p_minus(1), Uint256 { l0: 0, l1: 0, l2: 0, l3: 0x800000000000011 });
}

#[test]
fn subtraction_wraps_below_zero() {
    assert_eq!(felt_sub(&n(7), &n(3)), n(4));
    assert_eq!(felt_add(&felt_sub(&n(3), &n(7)), &n(4)), Uint256::zero());
}

#[test]
fn multiplication_reduces() {
    assert_eq!(felt_mul(&n(6), &n(7)), n(42));
    assert_eq!(felt_mul(&p_minus(1), &p_minus(1)), n(1));
}

#[test]
fn inverse_of_three() {
    let i = felt_inverse(&n(3)).unwrap();
    assert_eq!(felt_mul(&i, &n(3)), n(1));
    assert_ne!(i, n(3));
    assert_eq!(felt_inverse(&Uint256::zero()), None);
    assert_eq!(felt_inverse_or_zero(&Uint256::zero()), Uint256::zero());
}

#[test]
fn reduction_and_shift() {
    let big = Uint256 { l0: 5, l1: 0, l2: 0, l3: 0x800000000000011 };
    assert_eq!(reduce(&big, &modulus()), n(4));
    assert!(!is_canonical(&big));
    assert!(is_canonical(&n(4)));
    assert_eq!(reduce(&modulus(), &order()).l3, 0);
    assert_eq!(shr(&Uint256 { l0: 0, l1: 1, l2: 0, l3: 0 }, 4), n(1 << 60));
    assert_eq!(shr(&n(0b1011), 1), n(0b101));
}
