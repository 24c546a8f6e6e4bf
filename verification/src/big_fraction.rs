//! Cumulative borrow rates: fixed-point numbers of 256 bits.
use vstd::prelude::*;
use vstd::std_specs::convert::FromSpecImpl;

use crate::arrays::filled;
use crate::u256::{limbs_value, U256};

verus! {

/// A cumulative borrow rate, scaled as a [`crate::fraction::Fraction`] is.
#[derive(Clone, Copy, PartialEq, Eq, Debug)]
pub struct BigFraction(pub U256);

impl BigFraction {
    /// The rate's scaled bits.
    pub open spec fn bits(self) -> nat {
        self.0.value()
    }
}

/// A cumulative borrow rate as an obligation stores it.
#[derive(Clone, Copy, PartialEq, Eq, Debug)]
pub struct BigFractionBytes {
    pub value: [u64; 4],
    pub padding: [u64; 2],
}

impl BigFractionBytes {
    /// The rate's scaled bits.
    pub open spec fn bits(self) -> nat {
        limbs_value(self.value@)
    }

    /// The rate zero.
    pub open spec fn zero() -> BigFractionBytes {
        BigFractionBytes { value: filled(0), padding: filled(0) }
    }
}

impl Default for BigFractionBytes {
    fn default() -> (r: BigFractionBytes)
        ensures
            r == BigFractionBytes::zero(),
    {
        BigFractionBytes { value: [0u64; 4], padding: [0u64; 2] }
    }
}

impl FromSpecImpl<BigFraction> for BigFractionBytes {
    open spec fn obeys_from_spec() -> bool {
        true
    }

    open spec fn from_spec(rate: BigFraction) -> BigFractionBytes {
        BigFractionBytes { value: rate.0.0, padding: filled(0) }
    }
}

impl From<BigFraction> for BigFractionBytes {
    fn from(rate: BigFraction) -> (r: BigFractionBytes)
        ensures
            limbs_value(r.value@) == limbs_value(rate.0.0@),
            r.value == rate.0.0,
            forall|i: int| 0 <= i < 2 ==> #[trigger] r.padding@[i] == 0,
    {
        BigFractionBytes { value: rate.0.0, padding: [0u64; 2] }
    }
}

} // verus!
