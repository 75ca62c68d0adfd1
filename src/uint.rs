//! A 256-bit unsigned integer held as four little-endian 64-bit limbs, and
//! the reading of little-endian integers from byte strings.
use vstd::arithmetic::div_mod::lemma_fundamental_div_mod_converse_div;
use vstd::arithmetic::div_mod::lemma_fundamental_div_mod_converse_mod;
use vstd::arithmetic::power::pow;
use vstd::prelude::*;

verus! {

/// `2^64`, the weight of one limb.
pub open spec fn limb_base() -> nat {
    0x1_0000_0000_0000_0000
}

/// The value of a little-endian byte string.
pub open spec fn le_val(s: Seq<u8>) -> nat
    decreases s.len(),
{
    if s.len() == 0 {
        0
    } else {
        (s[0] + 256 * le_val(s.drop_first())) as nat
    }
}

/// The value of a big-endian byte string.
pub open spec fn be_val(s: Seq<u8>) -> nat {
    le_val(Seq::new(s.len(), |i: int| s[s.len() - 1 - i]))
}

/// A 256-bit unsigned integer; `l0` is the least significant limb. The
/// limbs are declared from the most significant down, so that the derived
/// order is the numeric one.
#[derive(Clone, Copy, Debug, PartialEq, Eq, Structural, PartialOrd, Ord)]
pub struct Uint256 {
    pub l3: u64,
    pub l2: u64,
    pub l1: u64,
    pub l0: u64,
}

impl Uint256 {
    pub open spec fn val(self) -> nat {
        (self.l0 + limb_base() * (self.l1 + limb_base() * (self.l2 + limb_base() * self.l3))) as nat
    }

    pub fn zero() -> (r: Self)
        ensures
            r.val() == 0,
    {
        Uint256 { l0: 0, l1: 0, l2: 0, l3: 0 }
    }

    pub fn from_u64(v: u64) -> (r: Self)
        ensures
            r.val() == v,
            r == (Uint256 { l0: v, l1: 0, l2: 0, l3: 0 }),
    {
        Uint256 { l0: v, l1: 0, l2: 0, l3: 0 }
    }

    /// Numeric equality.
    pub fn same(&self, o: &Self) -> (r: bool)
        ensures
            r == (self.val() == o.val()),
    {
        proof {
            if self.val() == o.val() {
                lemma_val_injective(*self, *o);
            }
        }
        self.l0 == o.l0 && self.l1 == o.l1 && self.l2 == o.l2 && self.l3 == o.l3
    }

    pub fn is_zero(&self) -> (r: bool)
        ensures
            r == (self.val() == 0),
    {
        let z = Uint256::zero();
        self.same(&z)
    }

    /// The least significant bit.
    pub fn is_odd(&self) -> (r: bool)
        ensures
            r == (self.val() % 2 == 1),
    {
        proof {
            lemma_low_limb(*self);
            let x = self.val() as int;
            vstd::arithmetic::div_mod::lemma_mod_mod(x, 2, 0x8000_0000_0000_0000);
        }
        self.l0 % 2 == 1
    }

    /// Reads 32 little-endian bytes starting at `at`.
    pub fn read_le(b: &Vec<u8>, at: usize) -> (r: Self)
        requires
            at + 32 <= b.len(),
        ensures
            r.val() == le_val(b@.subrange(at as int, at + 32)),
    {
        let l0 = read_u64_le(b, at);
        let l1 = read_u64_le(b, at + 8);
        let l2 = read_u64_le(b, at + 16);
        let l3 = read_u64_le(b, at + 24);
        proof {
            let s = b@.subrange(at as int, at + 32);
            lemma_pow256_8();
            lemma_le_val_split(s, 8);
            let s1 = s.subrange(8, 32);
            lemma_le_val_split(s1, 8);
            let s2 = s1.subrange(8, 24);
            lemma_le_val_split(s2, 8);
            assert(s.subrange(0, 8) =~= b@.subrange(at as int, at + 8));
            assert(s1.subrange(0, 8) =~= b@.subrange(at + 8, at + 16));
            assert(s2.subrange(0, 8) =~= b@.subrange(at + 16, at + 24));
            assert(s2.subrange(8, 16) =~= b@.subrange(at + 24, at + 32));
        }
        Uint256 { l0, l1, l2, l3 }
    }

    /// Reads 32 big-endian bytes.
    pub fn read_be(b: &Vec<u8>) -> (r: Self)
        requires
            b.len() == 32,
        ensures
            r.val() == be_val(b@),
    {
        let mut rev: Vec<u8> = Vec::new();
        let mut i: usize = 0;
        while i < 32
            invariant
                b.len() == 32,
                i <= 32,
                rev@.len() == i,
                forall|j: int| 0 <= j < i ==> rev@[j] == b@[31 - j],
            decreases 32 - i,
        {
            rev.push(b[31 - i]);
            i = i + 1;
        }
        let r = Self::read_le(&rev, 0);
        proof {
            assert(rev@.subrange(0, 32) =~= Seq::new(b@.len(), |i: int| b@[b@.len() - 1 - i]));
        }
        r
    }
}

/// Reads 8 little-endian bytes starting at `at`.
pub fn read_u64_le(b: &Vec<u8>, at: usize) -> (r: u64)
    requires
        at + 8 <= b.len(),
    ensures
        r == le_val(b@.subrange(at as int, at + 8)),
{
    let mut acc: u64 = 0;
    let mut k: usize = 8;
    proof {
        lemma_pow256_8();
        assert(b@.subrange(at + 8, at + 8).len() == 0);
        vstd::arithmetic::power::lemma_pow0(256);
    }
    while k > 0
        invariant
            at + 8 <= b.len(),
            k <= 8,
            acc == le_val(b@.subrange(at + k, at + 8)),
            acc < pow(256, (8 - k) as nat),
            pow(256, 8) == limb_base(),
        decreases k,
    {
        k = k - 1;
        proof {
            let s = b@.subrange(at + k, at + 8);
            assert(s.drop_first() =~= b@.subrange(at + k + 1, at + 8));
            vstd::arithmetic::power::lemma_pow_positive(256, (7 - k) as nat);
            vstd::arithmetic::power::lemma_pow_increases(256, (8 - k) as nat, 8);
            assert(pow(256, (8 - k) as nat) == 256 * pow(256, (7 - k) as nat)) by {
                vstd::arithmetic::power::lemma_pow_adds(256, 1, (7 - k) as nat);
                vstd::arithmetic::power::lemma_pow1(256);
            }
            assert(acc * 256 + 255 < 256 * pow(256, (7 - k) as nat) + 256) by (nonlinear_arith)
                requires acc < pow(256, (7 - k) as nat);
            assert(acc * 256 < 256 * pow(256, (7 - k) as nat)) by (nonlinear_arith)
                requires acc < pow(256, (7 - k) as nat);
        }
        acc = (b[at + k] as u64) + 256 * acc;
    }
    acc
}

pub proof fn lemma_pow256_8()
    ensures
        pow(256, 8) == limb_base(),
{
    reveal_with_fuel(pow, 9);
}

/// Splitting a little-endian byte string at `k`.
pub proof fn lemma_le_val_split(s: Seq<u8>, k: int)
    requires
        0 <= k <= s.len(),
    ensures
        le_val(s) == le_val(s.subrange(0, k)) + pow(256, k as nat) * le_val(s.subrange(k, s.len() as int)),
    decreases k,
{
    if k == 0 {
        assert(s.subrange(0, 0).len() == 0);
        assert(s.subrange(0, s.len() as int) =~= s);
        vstd::arithmetic::power::lemma_pow0(256);
    } else {
        let t = s.drop_first();
        lemma_le_val_split(t, k - 1);
        assert(s.subrange(0, k).drop_first() =~= t.subrange(0, k - 1));
        assert(t.subrange(k - 1, t.len() as int) =~= s.subrange(k, s.len() as int));
        vstd::arithmetic::power::lemma_pow_adds(256, 1, (k - 1) as nat);
        vstd::arithmetic::power::lemma_pow1(256);
        let a = le_val(t.subrange(0, k - 1)) as int;
        let p = pow(256, (k - 1) as nat) as int;
        let c = le_val(s.subrange(k, s.len() as int)) as int;
        assert(256 * (a + p * c) == 256 * a + (256 * p) * c) by (nonlinear_arith);
    }
}

/// The low limb is the value modulo `2^64`.
pub proof fn lemma_low_limb(a: Uint256)
    ensures
        a.val() as int % limb_base() as int == a.l0,
        a.val() as int / limb_base() as int == a.l1 + limb_base() * (a.l2 + limb_base() * a.l3),
{
    let x = a.val() as int;
    let q = a.l1 + limb_base() * (a.l2 + limb_base() * a.l3);
    assert(x == q * limb_base() + a.l0) by (nonlinear_arith)
        requires x == a.l0 + limb_base() * q;
    lemma_fundamental_div_mod_converse_mod(x, limb_base() as int, q, a.l0 as int);
    lemma_fundamental_div_mod_converse_div(x, limb_base() as int, q, a.l0 as int);
}

/// Distinct limbs give distinct values.
pub proof fn lemma_val_injective(a: Uint256, b: Uint256)
    requires
        a.val() == b.val(),
    ensures
        a == b,
{
    lemma_low_limb(a);
    lemma_low_limb(b);
    let qa = a.l2 + limb_base() * a.l3;
    let qb = b.l2 + limb_base() * b.l3;
    let ra = a.l1 + limb_base() * qa;
    assert(ra == qa * limb_base() + a.l1) by (nonlinear_arith)
        requires ra == a.l1 + limb_base() * qa;
    assert(ra == qb * limb_base() + b.l1) by (nonlinear_arith)
        requires ra == b.l1 + limb_base() * qb;
    lemma_fundamental_div_mod_converse_mod(ra, limb_base() as int, qa, a.l1 as int);
    lemma_fundamental_div_mod_converse_mod(ra, limb_base() as int, qb, b.l1 as int);
    lemma_fundamental_div_mod_converse_div(ra, limb_base() as int, qa, a.l1 as int);
    lemma_fundamental_div_mod_converse_div(ra, limb_base() as int, qb, b.l1 as int);
    assert(qa == a.l3 * limb_base() + a.l2) by (nonlinear_arith)
        requires qa == a.l2 + limb_base() * a.l3;
    assert(qa == b.l3 * limb_base() + b.l2) by (nonlinear_arith)
        requires qa == qb, qb == b.l2 + limb_base() * b.l3;
    lemma_fundamental_div_mod_converse_mod(qa, limb_base() as int, a.l3 as int, a.l2 as int);
    lemma_fundamental_div_mod_converse_mod(qa, limb_base() as int, b.l3 as int, b.l2 as int);
    lemma_fundamental_div_mod_converse_div(qa, limb_base() as int, a.l3 as int, a.l2 as int);
    lemma_fundamental_div_mod_converse_div(qa, limb_base() as int, b.l3 as int, b.l2 as int);
}

} // verus!
