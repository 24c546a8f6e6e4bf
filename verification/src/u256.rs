//! Unsigned 256-bit integers, as wide as the product of a scaled amount and a
//! cumulative borrow rate.
use vstd::arithmetic::div_mod::lemma_fundamental_div_mod_converse;
use vstd::arithmetic::power2::{lemma2_to64, lemma_pow2_adds, lemma_pow2_pos, lemma_pow2_unfold, pow2};
use vstd::prelude::*;

verus! {

/// The number that four little-endian 64-bit limbs stand for.
pub open spec fn limbs_value(limbs: Seq<u64>) -> nat {
    (limbs[0] + 0x1_0000_0000_0000_0000 * limbs[1] + 0x1_0000_0000_0000_0000_0000_0000_0000_0000
        * limbs[2] + 0x1_0000_0000_0000_0000_0000_0000_0000_0000_0000_0000_0000_0000
        * limbs[3]) as nat
}

/// One more than the largest 256-bit number.
pub open spec fn u256_modulus() -> nat {
    0x1_0000_0000_0000_0000_0000_0000_0000_0000_0000_0000_0000_0000_0000_0000_0000_0000nat
}

/// A 256-bit number as four limbs, the least significant first.
#[derive(Clone, Copy, PartialEq, Eq, Debug)]
pub struct U256(pub [u64; 4]);

/// Splits a double limb into its low and its high limb.
fn split(wide: u128) -> (r: (u64, u64))
    ensures
        r.0 + 0x1_0000_0000_0000_0000 * r.1 == wide,
{
    let low: u128 = wide % 0x1_0000_0000_0000_0000;
    let high: u128 = wide / 0x1_0000_0000_0000_0000;
    (low as u64, high as u64)
}

/// The sum of two limbs and a carry, as a limb and the next carry.
fn add_limbs(a: u64, b: u64, carry: u64) -> (r: (u64, u64))
    requires
        carry <= 1,
    ensures
        r.0 + 0x1_0000_0000_0000_0000 * r.1 == a + b + carry,
        r.1 <= 1,
{
    split(a as u128 + b as u128 + carry as u128)
}

/// The difference of two limbs less a borrow, as a limb and the next borrow.
fn sub_limbs(a: u64, b: u64, borrow: u64) -> (r: (u64, u64))
    requires
        borrow <= 1,
    ensures
        r.0 - 0x1_0000_0000_0000_0000 * r.1 == a - b - borrow,
        r.1 <= 1,
{
    let (low, high) = split(0x1_0000_0000_0000_0000u128 + a as u128 - b as u128 - borrow as u128);
    (low, 1 - high)
}

/// The product of two limbs plus a carry, as a limb and the next carry.
fn mul_limbs(a: u64, b: u64, carry: u64) -> (r: (u64, u64))
    ensures
        r.0 + 0x1_0000_0000_0000_0000 * r.1 == a * b + carry,
{
    assert(a * b <= 0xffff_ffff_ffff_ffff * 0xffff_ffff_ffff_ffff) by (nonlinear_arith)
        requires
            a <= 0xffff_ffff_ffff_ffff,
            b <= 0xffff_ffff_ffff_ffff,
    ;
    split(a as u128 * b as u128 + carry as u128)
}

impl U256 {
    /// The number itself.
    pub open spec fn value(self) -> nat {
        limbs_value(self.0@)
    }

    pub fn from_u128(n: u128) -> (r: U256)
        ensures
            r.value() == n,
    {
        let (low, high) = split(n);
        U256([low, high, 0, 0])
    }

    /// The number as a `u128`, if it fits.
    pub fn to_u128(&self) -> (r: Option<u128>)
        ensures
            r == (if self.value() <= u128::MAX {
                Some(self.value() as u128)
            } else {
                None
            }),
    {
        if self.0[2] == 0 && self.0[3] == 0 {
            Some(self.0[0] as u128 + 0x1_0000_0000_0000_0000u128 * self.0[1] as u128)
        } else {
            None
        }
    }

    pub fn less_than(&self, other: &U256) -> (r: bool)
        ensures
            r == (self.value() < other.value()),
    {
        if self.0[3] != other.0[3] {
            self.0[3] < other.0[3]
        } else if self.0[2] != other.0[2] {
            self.0[2] < other.0[2]
        } else if self.0[1] != other.0[1] {
            self.0[1] < other.0[1]
        } else {
            self.0[0] < other.0[0]
        }
    }

    /// Adds with a carry in and a carry out.
    fn add_carry(&self, other: &U256, carry: u64) -> (r: (U256, u64))
        requires
            carry <= 1,
        ensures
            r.0.value() + u256_modulus() * r.1 == self.value() + other.value() + carry,
            r.1 <= 1,
    {
        let (s0, c0) = add_limbs(self.0[0], other.0[0], carry);
        let (s1, c1) = add_limbs(self.0[1], other.0[1], c0);
        let (s2, c2) = add_limbs(self.0[2], other.0[2], c1);
        let (s3, c3) = add_limbs(self.0[3], other.0[3], c2);
        (U256([s0, s1, s2, s3]), c3)
    }

    fn minus(&self, other: &U256) -> (r: U256)
        requires
            other.value() <= self.value(),
        ensures
            r.value() == self.value() - other.value(),
    {
        let (d0, b0) = sub_limbs(self.0[0], other.0[0], 0);
        let (d1, b1) = sub_limbs(self.0[1], other.0[1], b0);
        let (d2, b2) = sub_limbs(self.0[2], other.0[2], b1);
        let (d3, b3) = sub_limbs(self.0[3], other.0[3], b2);
        let r = U256([d0, d1, d2, d3]);
        assert(r.value() - u256_modulus() * b3 == self.value() - other.value());
        r
    }

    fn times_limb(&self, limb: u64) -> (r: U256)
        requires
            self.value() * limb < u256_modulus(),
        ensures
            r.value() == self.value() * limb,
    {
        let (p0, c0) = mul_limbs(self.0[0], limb, 0);
        let (p1, c1) = mul_limbs(self.0[1], limb, c0);
        let (p2, c2) = mul_limbs(self.0[2], limb, c1);
        let (p3, c3) = mul_limbs(self.0[3], limb, c2);
        let r = U256([p0, p1, p2, p3]);
        proof {
            let (a0, a1, a2, a3) = (self.0[0] as int, self.0[1] as int, self.0[2] as int, self.0[3] as int);
            let w = limb as int;
            assert((a0 + 0x1_0000_0000_0000_0000 * a1
                + 0x1_0000_0000_0000_0000_0000_0000_0000_0000 * a2
                + 0x1_0000_0000_0000_0000_0000_0000_0000_0000_0000_0000_0000_0000 * a3) * w
                == a0 * w + 0x1_0000_0000_0000_0000 * (a1 * w)
                + 0x1_0000_0000_0000_0000_0000_0000_0000_0000 * (a2 * w)
                + 0x1_0000_0000_0000_0000_0000_0000_0000_0000_0000_0000_0000_0000 * (a3 * w))
                by (nonlinear_arith);
            assert(self.value() * limb == r.value() + u256_modulus() * c3);
        }
        r
    }

    /// Shifts left by one limb.
    fn shift_limb(&self) -> (r: U256)
        requires
            self.value() * 0x1_0000_0000_0000_0000 < u256_modulus(),
        ensures
            r.value() == self.value() * 0x1_0000_0000_0000_0000,
    {
        U256([0, self.0[0], self.0[1], self.0[2]])
    }

    /// The product, where it fits in 256 bits.
    pub fn times(&self, other: &U256) -> (r: U256)
        requires
            self.value() * other.value() < u256_modulus(),
        ensures
            r.value() == self.value() * other.value(),
    {
        let mut acc = U256([0, 0, 0, 0]);
        let mut i: usize = 4;
        let ghost a = self.value();
        let ghost mut high: nat = 0;
        proof {
            assert(a * 0 == 0) by (nonlinear_arith);
        }
        while i > 0
            invariant
                0 <= i <= 4,
                a == self.value(),
                a * other.value() < u256_modulus(),
                high == limbs_above(other.0@, i as int),
                acc.value() == a * high,
            decreases i,
        {
            i = i - 1;
            let limb = other.0[i];
            let ghost next = limbs_above(other.0@, i as int);
            proof {
                lemma_limbs_above(other.0@, i as int);
                assert(a * next == (a * high) * 0x1_0000_0000_0000_0000 + a * limb)
                    by (nonlinear_arith)
                    requires
                        next == high * 0x1_0000_0000_0000_0000 + limb,
                ;
                assert(a * next <= a * other.value()) by (nonlinear_arith)
                    requires
                        next <= other.value(),
                ;
                assert(0 <= a * limb) by (nonlinear_arith);
                assert(0 <= a * high) by (nonlinear_arith);
            }
            let shifted = acc.shift_limb();
            let product = self.times_limb(limb);
            let (sum, carry) = shifted.add_carry(&product, 0);
            acc = sum;
            proof {
                high = next;
                assert(carry == 0);
            }
        }
        proof {
            lemma_limbs_above(other.0@, 0);
        }
        acc
    }

    /// The quotient, rounded down.
    pub fn divided_by(&self, divisor: &U256) -> (r: U256)
        requires
            divisor.value() != 0,
        ensures
            r.value() == self.value() / divisor.value(),
    {
        let ghost n = self.value();
        let ghost d = divisor.value();
        let mut quotient = U256([0, 0, 0, 0]);
        let mut remainder = U256([0, 0, 0, 0]);
        let mut rest = *self;
        let mut step: u32 = 0;
        proof {
            lemma_division_starts(n, d);
        }
        while step < 256
            invariant
                step <= 256,
                n < u256_modulus(),
                d == divisor.value(),
                d != 0,
                remainder.value() < d,
                leading_bits_divided(
                    n,
                    d,
                    quotient.value(),
                    remainder.value(),
                    rest.value(),
                    step as nat,
                ),
            decreases 256 - step,
        {
            let (rest_next, bit) = rest.add_carry(&rest, 0);
            proof {
                lemma_division_step(
                    n,
                    d,
                    quotient.value(),
                    remainder.value(),
                    rest.value(),
                    step as nat,
                    bit as nat,
                    rest_next.value(),
                );
            }
            // Twice the remainder may need 257 bits: compare by halves.
            let gap = divisor.minus(&remainder);
            let (extended, _carry) = remainder.add_carry(&U256([0, 0, 0, 0]), bit);
            if extended.less_than(&gap) {
                let (doubled, _carry) = remainder.add_carry(&remainder, bit);
                let (twice, _carry) = quotient.add_carry(&quotient, 0);
                remainder = doubled;
                quotient = twice;
            } else {
                remainder = extended.minus(&gap);
                let (twice_and_one, _carry) = quotient.add_carry(&quotient, 1);
                quotient = twice_and_one;
            }
            rest = rest_next;
            step = step + 1;
        }
        proof {
            lemma_division_ends(n, d, quotient.value(), remainder.value(), rest.value());
        }
        quotient
    }
}

/// The number that the limbs from `from` up stand for.
spec fn limbs_above(limbs: Seq<u64>, from: int) -> nat
    decreases 4 - from,
{
    if from >= 4 {
        0
    } else {
        (limbs[from] + 0x1_0000_0000_0000_0000 * limbs_above(limbs, from + 1)) as nat
    }
}

proof fn lemma_limbs_above(limbs: Seq<u64>, from: int)
    requires
        0 <= from < 4,
    ensures
        limbs_above(limbs, from) == limbs_above(limbs, from + 1) * 0x1_0000_0000_0000_0000
            + limbs[from],
        limbs_above(limbs, from) <= limbs_value(limbs),
        from == 0 ==> limbs_above(limbs, from) == limbs_value(limbs),
{
    reveal_with_fuel(limbs_above, 5);
    assert(limbs_above(limbs, 4) == 0);
    assert(limbs_above(limbs, 3) == limbs[3]);
    assert(limbs_above(limbs, 2) == limbs[2] + 0x1_0000_0000_0000_0000 * limbs[3]);
    assert(limbs_above(limbs, 1) == limbs[1] + 0x1_0000_0000_0000_0000 * limbs_above(limbs, 2));
    assert(limbs_above(limbs, 0) == limbs[0] + 0x1_0000_0000_0000_0000 * limbs_above(limbs, 1));
}

/// Long division has reached quotient `q` and remainder `r` for the leading
/// `step` of the 256 bits of `n`, and `rest` holds the other bits, moved up.
#[verifier::opaque]
spec fn leading_bits_divided(n: nat, d: nat, q: nat, r: nat, rest: nat, step: nat) -> bool {
    n * pow2(step) == (q * d + r) * u256_modulus() + rest
}

proof fn lemma_division_starts(n: nat, d: nat)
    ensures
        leading_bits_divided(n, d, 0, 0, n, 0),
{
    reveal(leading_bits_divided);
    lemma2_to64();
    assert(n * pow2(0) == n);
    assert(0 * d == 0) by (nonlinear_arith);
}

proof fn lemma_division_step(
    n: nat,
    d: nat,
    q: nat,
    r: nat,
    rest: nat,
    step: nat,
    bit: nat,
    rest_next: nat,
)
    requires
        leading_bits_divided(n, d, q, r, rest, step),
        rest_next + u256_modulus() * bit == 2 * rest,
        step < 256,
        1 <= d,
        n < u256_modulus(),
    ensures
        2 * r + bit < d ==> leading_bits_divided(n, d, 2 * q, 2 * r + bit, rest_next, step + 1)
            && 2 * q < u256_modulus(),
        2 * r + bit >= d ==> leading_bits_divided(
            n,
            d,
            2 * q + 1,
            (2 * r + bit - d) as nat,
            rest_next,
            step + 1,
        ) && 2 * q + 1 < u256_modulus(),
{
    reveal(leading_bits_divided);
    let m = u256_modulus();
    let p = pow2(step);
    let lead = 2 * (q * d + r) + bit;
    lemma_pow2_unfold(step + 1);
    assert(n * (2 * p) == 2 * (n * p)) by (nonlinear_arith);
    assert(2 * ((q * d + r) * m + rest) == lead * m + rest_next) by (nonlinear_arith)
        requires
            lead == 2 * (q * d + r) + bit,
            rest_next + m * bit == 2 * rest,
    ;
    assert(n * pow2(step + 1) == lead * m + rest_next);
    lemma_modulus_is_power();
    lemma_pow2_adds(step + 1, (255 - step) as nat);
    let below = pow2((255 - step) as nat);
    lemma_pow2_pos((255 - step) as nat);
    assert(2 * p <= m) by (nonlinear_arith)
        requires
            (2 * p) * below == m,
            below >= 1,
    ;
    assert(lead <= n) by (nonlinear_arith)
        requires
            lead * m <= n * (2 * p),
            2 * p <= m,
            m > 0,
            n >= 0,
    ;
    assert((2 * q) * d == 2 * (q * d)) by (nonlinear_arith);
    assert((2 * q + 1) * d == 2 * (q * d) + d) by (nonlinear_arith);
    assert(2 * q <= (2 * q) * d) by (nonlinear_arith)
        requires
            d >= 1,
    ;
    assert(2 * q + 1 <= (2 * q + 1) * d) by (nonlinear_arith)
        requires
            d >= 1,
    ;
}

proof fn lemma_division_ends(n: nat, d: nat, q: nat, r: nat, rest: nat)
    requires
        leading_bits_divided(n, d, q, r, rest, 256),
        rest < u256_modulus(),
        r < d,
    ensures
        q == n / d,
{
    reveal(leading_bits_divided);
    lemma_modulus_is_power();
    let m = u256_modulus();
    let whole = q * d + r;
    assert(n == whole) by (nonlinear_arith)
        requires
            n * m == whole * m + rest,
            0 <= rest < m,
    ;
    lemma_fundamental_div_mod_converse(n as int, d as int, q as int, r as int);
}

proof fn lemma_modulus_is_power()
    ensures
        pow2(256) == u256_modulus(),
{
    lemma2_to64();
    lemma_pow2_adds(64, 64);
    lemma_pow2_adds(128, 128);
    assert(pow2(128) == 0x1_0000_0000_0000_0000_0000_0000_0000_0000) by (nonlinear_arith)
        requires
            pow2(64) == 0x1_0000_0000_0000_0000,
            pow2(128) == pow2(64) * pow2(64),
    ;
    assert(pow2(256) == u256_modulus()) by (nonlinear_arith)
        requires
            pow2(128) == 0x1_0000_0000_0000_0000_0000_0000_0000_0000,
            pow2(256) == pow2(128) * pow2(128),
    ;
}

} // verus!
