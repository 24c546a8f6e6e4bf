//! Unsigned fixed-point numbers with 68 integer bits and 60 fraction bits.
//!
//! A [`Fraction`] is the bit pattern of the `fixed` crate's `U68F60`. The
//! arithmetic is that crate's: each operation is a small function around one
//! call of it, whose contract says over the bits what the call computes.
use core::ops::{Add, Div, Mul, Sub};
use fixed::types::U68F60;
use vstd::prelude::*;
use vstd::std_specs::ops::{AddSpecImpl, DivSpecImpl, MulSpecImpl, SubSpecImpl};
use vstd::string::*;

use crate::decimal::{decimal, decimal4, push_decimal, push_decimal4};
use crate::meaning::{law_ratio_of_values, lemma_rounded_down};
use crate::reading::{gives_value, law_fractions_read_back};

verus! {

/// The bits of the number one: two to the number of fraction bits.
pub open spec fn one_bits() -> int {
    0x1000_0000_0000_0000
}

/// The bits of the quotient of two fractions, rounded down.
pub open spec fn quotient_bits(dividend: u128, divisor: u128) -> int {
    dividend * one_bits() / (divisor as int)
}

/// The integer part of a fraction.
pub open spec fn floor_of(bits: u128) -> int {
    bits as int / one_bits()
}

/// A fraction rounded up to an integer.
pub open spec fn ceil_of(bits: u128) -> int {
    (bits + one_bits() - 1) / one_bits()
}

/// A number of scaled bits rounded to the nearest integer, ties upwards.
pub open spec fn round_of(bits: int) -> int {
    (bits + one_bits() / 2) / one_bits()
}

/// A hundred times a fraction, rounded to the nearest integer.
pub open spec fn percent_of(bits: int) -> int {
    round_of(bits * 100)
}

/// The bits that a fraction is moved by before it is cut to four decimals:
/// half of the last decimal.
pub open spec fn display_rounding() -> int {
    one_bits() / 20_000
}

/// Whether a fraction can be moved by `display_rounding` without overflow.
pub open spec fn is_displayable(bits: u128) -> bool {
    bits + display_rounding() <= u128::MAX
}

/// A fraction in decimal with four decimals.
pub open spec fn fraction_text(bits: u128) -> Seq<char> {
    let moved = bits + display_rounding();
    let part = moved % one_bits();
    decimal((moved / one_bits()) as nat) + "."@ + decimal4(
        (part / 0x4000_0000 * 10_000 / 0x4000_0000) as nat,
    )
}

/// `U68F60 + U68F60` of the `fixed` crate: the sum of the bits, where it does
/// not overflow.
#[verifier::external_body]
fn fixed_add(a: u128, b: u128) -> (r: u128)
    requires
        a + b <= u128::MAX,
    ensures
        r == a + b,
{
    (U68F60::from_bits(a) + U68F60::from_bits(b)).to_bits()
}

/// `U68F60 - U68F60` of the `fixed` crate: the difference of the bits, where it
/// is not negative.
#[verifier::external_body]
fn fixed_sub(a: u128, b: u128) -> (r: u128)
    requires
        b <= a,
    ensures
        r == a - b,
{
    (U68F60::from_bits(a) - U68F60::from_bits(b)).to_bits()
}

/// `U68F60 * u128` of the `fixed` crate: the bits times the integer, where that
/// does not overflow.
#[verifier::external_body]
fn fixed_mul_int(a: u128, n: u128) -> (r: u128)
    requires
        a * n <= u128::MAX,
    ensures
        r == a * n,
{
    (U68F60::from_bits(a) * n).to_bits()
}

/// `U68F60 / u128` of the `fixed` crate: the bits divided by the integer,
/// rounded down, where the integer is not zero.
#[verifier::external_body]
fn fixed_div_int(a: u128, n: u128) -> (r: u128)
    requires
        n != 0,
    ensures
        r == a / n,
{
    (U68F60::from_bits(a) / n).to_bits()
}

/// `U68F60 / U68F60` of the `fixed` crate: the bits of the quotient, rounded
/// down, where the divisor is not zero and the quotient does not overflow.
#[verifier::external_body]
fn fixed_div(a: u128, b: u128) -> (r: u128)
    requires
        b != 0,
        quotient_bits(a, b) <= u128::MAX,
    ensures
        r == quotient_bits(a, b),
{
    (U68F60::from_bits(a) / U68F60::from_bits(b)).to_bits()
}

/// `U68F60::saturating_sub` of the `fixed` crate: the difference of the bits, or
/// zero where it would be negative.
#[verifier::external_body]
fn fixed_saturating_sub(a: u128, b: u128) -> (r: u128)
    ensures
        r == if b <= a {
            a - b
        } else {
            0
        },
{
    U68F60::from_bits(a).saturating_sub(U68F60::from_bits(b)).to_bits()
}

/// `U68F60::ceil` of the `fixed` crate: the bits of the next integer upwards,
/// where that does not overflow.
#[verifier::external_body]
fn fixed_ceil(a: u128) -> (r: u128)
    requires
        ceil_of(a) * one_bits() <= u128::MAX,
    ensures
        r == ceil_of(a) * one_bits(),
{
    U68F60::from_bits(a).ceil().to_bits()
}

/// `U68F60::round` of the `fixed` crate: the bits of the nearest integer, ties
/// away from zero, where that does not overflow.
#[verifier::external_body]
fn fixed_round(a: u128) -> (r: u128)
    requires
        round_of(a as int) * one_bits() <= u128::MAX,
    ensures
        r == round_of(a as int) * one_bits(),
{
    U68F60::from_bits(a).round().to_bits()
}

/// `U68F60::to_num::<u128>` of the `fixed` crate: the integer part.
#[verifier::external_body]
fn fixed_to_num(a: u128) -> (r: u128)
    ensures
        r == floor_of(a),
{
    U68F60::from_bits(a).to_num::<u128>()
}

/// `U68F60::checked_to_num::<u16>` of the `fixed` crate: the integer part, if it
/// fits.
#[verifier::external_body]
fn fixed_checked_to_num(a: u128) -> (r: Option<u16>)
    ensures
        r == (if floor_of(a) <= u16::MAX {
            Some(floor_of(a) as u16)
        } else {
            None
        }),
{
    U68F60::from_bits(a).checked_to_num::<u16>()
}

/// A fixed-point number: `bits` divided by `one_bits()`.
#[derive(Clone, Copy, PartialEq, Eq, PartialOrd, Ord, Debug, Structural)]
pub struct Fraction {
    pub bits: u128,
}

impl AddSpecImpl for Fraction {
    open spec fn obeys_add_spec() -> bool {
        true
    }

    open spec fn add_req(self, rhs: Fraction) -> bool {
        self.bits + rhs.bits <= u128::MAX
    }

    open spec fn add_spec(self, rhs: Fraction) -> Fraction {
        Fraction { bits: (self.bits + rhs.bits) as u128 }
    }
}

impl Add for Fraction {
    type Output = Fraction;

    fn add(self, rhs: Fraction) -> (r: Fraction)
        ensures
            r.bits == self.bits + rhs.bits,
    {
        Fraction { bits: fixed_add(self.bits, rhs.bits) }
    }
}

impl SubSpecImpl for Fraction {
    open spec fn obeys_sub_spec() -> bool {
        true
    }

    open spec fn sub_req(self, rhs: Fraction) -> bool {
        rhs.bits <= self.bits
    }

    open spec fn sub_spec(self, rhs: Fraction) -> Fraction {
        Fraction { bits: (self.bits - rhs.bits) as u128 }
    }
}

impl Sub for Fraction {
    type Output = Fraction;

    fn sub(self, rhs: Fraction) -> (r: Fraction)
        ensures
            r.bits == self.bits - rhs.bits,
    {
        Fraction { bits: fixed_sub(self.bits, rhs.bits) }
    }
}

impl MulSpecImpl<u128> for Fraction {
    open spec fn obeys_mul_spec() -> bool {
        true
    }

    open spec fn mul_req(self, rhs: u128) -> bool {
        self.bits * rhs <= u128::MAX
    }

    open spec fn mul_spec(self, rhs: u128) -> Fraction {
        Fraction { bits: (self.bits * rhs) as u128 }
    }
}

impl Mul<u128> for Fraction {
    type Output = Fraction;

    fn mul(self, rhs: u128) -> (r: Fraction)
        ensures
            r.bits == self.bits * rhs,
    {
        Fraction { bits: fixed_mul_int(self.bits, rhs) }
    }
}

impl DivSpecImpl<u128> for Fraction {
    open spec fn obeys_div_spec() -> bool {
        true
    }

    open spec fn div_req(self, rhs: u128) -> bool {
        rhs != 0
    }

    open spec fn div_spec(self, rhs: u128) -> Fraction {
        Fraction { bits: self.bits / rhs }
    }
}

impl Div<u128> for Fraction {
    type Output = Fraction;

    fn div(self, rhs: u128) -> (r: Fraction)
        ensures
            r.bits * rhs <= self.bits < (r.bits + 1) * rhs,
    {
        proof {
            lemma_rounded_down(self.bits as int, rhs as int);
        }
        Fraction { bits: fixed_div_int(self.bits, rhs) }
    }
}

impl DivSpecImpl for Fraction {
    open spec fn obeys_div_spec() -> bool {
        true
    }

    open spec fn div_req(self, rhs: Fraction) -> bool {
        rhs.bits != 0 && quotient_bits(self.bits, rhs.bits) <= u128::MAX
    }

    open spec fn div_spec(self, rhs: Fraction) -> Fraction {
        Fraction { bits: quotient_bits(self.bits, rhs.bits) as u128 }
    }
}

impl Div for Fraction {
    type Output = Fraction;

    fn div(self, rhs: Fraction) -> (r: Fraction)
        ensures
            r.bits * rhs.bits <= self.bits * 0x1000_0000_0000_0000 < (r.bits + 1) * rhs.bits,
    {
        proof {
            law_ratio_of_values(self.bits, rhs.bits);
            lemma_quotient_not_negative(self.bits, rhs.bits);
        }
        Fraction { bits: fixed_div(self.bits, rhs.bits) }
    }
}

/// A quotient of fractions is not negative.
pub proof fn lemma_quotient_not_negative(dividend: u128, divisor: u128)
    requires
        divisor != 0,
    ensures
        0 <= quotient_bits(dividend, divisor),
{
    vstd::arithmetic::div_mod::lemma_div_pos_is_pos(dividend * one_bits(), divisor as int);
}

impl Fraction {
    pub fn from_bits(bits: u128) -> (r: Fraction)
        ensures
            r.bits == bits,
    {
        Fraction { bits }
    }

    pub fn to_bits(self) -> (r: u128)
        ensures
            r == self.bits,
    {
        self.bits
    }

    /// The fraction zero.
    pub fn zero() -> (r: Fraction)
        ensures
            r.bits == 0,
    {
        Fraction { bits: 0 }
    }

    /// The difference, or zero where it would be negative.
    pub fn saturating_sub(self, rhs: Fraction) -> (r: Fraction)
        ensures
            r.bits == if rhs.bits <= self.bits {
                self.bits - rhs.bits
            } else {
                0
            },
    {
        Fraction { bits: fixed_saturating_sub(self.bits, rhs.bits) }
    }

    /// The integer part.
    pub fn to_num(self) -> (r: u128)
        ensures
            r == floor_of(self.bits),
            r * 0x1000_0000_0000_0000 <= self.bits < (r + 1) * 0x1000_0000_0000_0000,
    {
        fixed_to_num(self.bits)
    }

    /// The fraction rounded up to an integer.
    pub fn to_ceil(self) -> (r: u64)
        requires
            ceil_of(self.bits) <= u64::MAX,
        ensures
            r == ceil_of(self.bits),
            self.bits <= r * 0x1000_0000_0000_0000 < self.bits + 0x1000_0000_0000_0000,
    {
        fixed_to_num(fixed_ceil(self.bits)) as u64
    }

    /// The fraction in percent, rounded to the nearest integer, if that fits.
    pub fn to_percent(self) -> (r: Option<u16>)
        requires
            self.bits * 100 <= u128::MAX,
            percent_of(self.bits as int) * one_bits() <= u128::MAX,
        ensures
            r == (if percent_of(self.bits as int) <= u16::MAX {
                Some(percent_of(self.bits as int) as u16)
            } else {
                None
            }),
            r is None <==> 200 * self.bits >= 131_071 * 0x1000_0000_0000_0000,
            r matches Some(percent) ==> (2 * percent - 1) * 0x1000_0000_0000_0000 <= 200
                * self.bits < (2 * percent + 1) * 0x1000_0000_0000_0000,
    {
        let scaled = self * 100u128;
        fixed_checked_to_num(fixed_round(scaled.bits))
    }

    /// Whether the fraction can be written with four decimals.
    pub fn can_be_written(self) -> (r: bool)
        ensures
            r == is_displayable(self.bits),
            r <==> self.bits + 57_646_075_230_342 <= u128::MAX,
    {
        // One divided by 20 000.
        self.bits <= u128::MAX - 57_646_075_230_342
    }

    /// Appends the fraction in decimal with four decimals.
    pub fn push_display(self, text: &mut String)
        requires
            is_displayable(self.bits),
        ensures
            final(text)@ == old(text)@ + fraction_text(self.bits),
    {
        // One divided by 20 000.
        let moved: u128 = self.bits + 57_646_075_230_342;
        let part: u128 = moved % 0x1000_0000_0000_0000;
        push_decimal(text, moved / 0x1000_0000_0000_0000);
        text.append(".");
        push_decimal4(text, part / 0x4000_0000 * 10_000 / 0x4000_0000);
        assert(text@ =~= old(text)@ + fraction_text(self.bits));
    }

    /// The fraction in decimal with four decimals.
    pub fn to_display(self) -> (r: String)
        requires
            is_displayable(self.bits),
        ensures
            r@ == fraction_text(self.bits),
            gives_value(r@, self.bits),
    {
        proof {
            law_fractions_read_back(self.bits);
        }
        let mut text = String::new();
        self.push_display(&mut text);
        assert(text@ =~= fraction_text(self.bits));
        text
    }
}

} // verus!
