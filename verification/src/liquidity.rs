//! One borrow of an obligation.
use vstd::arithmetic::div_mod::lemma_fundamental_div_mod;
use vstd::prelude::*;

use crate::arrays::filled;
use crate::big_fraction::{BigFraction, BigFractionBytes};
use crate::error::LendingError;
use crate::fraction::Fraction;
use crate::meaning::{law_interest_refusals, law_interest_scales_the_debt};
use crate::pubkey::Pubkey;
use crate::u256::{limbs_value, u256_modulus, U256};

verus! {

/// A debt of liquidity to one reserve. A slot whose reserve is the address of no
/// account is empty.
#[derive(Clone, Copy, PartialEq, Eq, Debug)]
pub struct ObligationLiquidity {
    pub borrow_reserve: Pubkey,
    pub cumulative_borrow_rate_bsf: BigFractionBytes,
    pub padding: u64,
    pub borrowed_amount_sf: u128,
    pub market_value_sf: u128,
    pub borrow_factor_adjusted_market_value_sf: u128,
    pub borrowed_amount_outside_elevation_groups: u64,
    pub padding2: [u64; 7],
}

/// A debt brought from one cumulative rate to another, rounded down.
pub open spec fn accrued_amount(amount: int, former_rate: int, new_rate: int) -> int {
    amount * new_rate / former_rate
}

impl ObligationLiquidity {
    /// A debt of nothing to `reserve`.
    pub open spec fn opened(reserve: Pubkey, rate: BigFractionBytes) -> ObligationLiquidity {
        ObligationLiquidity {
            borrow_reserve: reserve,
            cumulative_borrow_rate_bsf: rate,
            padding: 0,
            borrowed_amount_sf: 0,
            market_value_sf: 0,
            borrow_factor_adjusted_market_value_sf: 0,
            borrowed_amount_outside_elevation_groups: 0,
            padding2: filled(0),
        }
    }

    /// An empty slot, as a full repayment leaves it.
    pub open spec fn empty() -> ObligationLiquidity {
        ObligationLiquidity::opened(Pubkey::none(), BigFractionBytes::zero())
    }

    /// The slot holds no debt.
    pub open spec fn is_empty(self) -> bool {
        self.borrow_reserve == Pubkey::none()
    }

    /// The cumulative rate that the debt was last brought to.
    pub open spec fn rate_bits(self) -> nat {
        self.cumulative_borrow_rate_bsf.bits()
    }

    /// The debt with another amount.
    pub open spec fn with_amount(self, amount_sf: u128) -> ObligationLiquidity {
        ObligationLiquidity { borrowed_amount_sf: amount_sf, ..self }
    }

    /// The debt with another cumulative rate.
    pub open spec fn with_rate(self, rate: BigFraction) -> ObligationLiquidity {
        ObligationLiquidity {
            cumulative_borrow_rate_bsf: BigFractionBytes {
                value: rate.0.0,
                ..self.cumulative_borrow_rate_bsf
            },
            ..self
        }
    }

    /// The amount that the debt comes to at `rate`.
    pub open spec fn amount_at(self, rate: BigFraction) -> int {
        accrued_amount(
            self.borrowed_amount_sf as int,
            self.rate_bits() as int,
            rate.bits() as int,
        )
    }

    /// The debt brought to `rate`, or why that was refused.
    pub open spec fn after_interest(
        self,
        rate: BigFraction,
    ) -> Result<ObligationLiquidity, LendingError> {
        if rate.bits() < self.rate_bits() {
            Err(LendingError::NegativeInterestRate)
        } else if rate.bits() == self.rate_bits() {
            Ok(self)
        } else if self.amount_at(rate) <= u128::MAX {
            Ok(self.with_amount(self.amount_at(rate) as u128).with_rate(rate))
        } else {
            Err(LendingError::MathOverflow)
        }
    }

    /// Bringing the debt to `rate` is defined: a rate does not grow from zero, and
    /// the product of debt and rate fits in 256 bits.
    pub open spec fn can_accrue(self, rate: BigFraction) -> bool {
        rate.bits() > self.rate_bits() ==> {
            &&& self.rate_bits() != 0
            &&& self.borrowed_amount_sf * rate.bits() < u256_modulus()
        }
    }

    pub fn new(
        borrow_reserve: Pubkey,
        cumulative_borrow_rate_bf: BigFraction,
    ) -> (r: ObligationLiquidity)
        ensures
            r == ObligationLiquidity::opened(
                borrow_reserve,
                BigFractionBytes { value: cumulative_borrow_rate_bf.0.0, padding: filled(0) },
            ),
            r.borrow_reserve == borrow_reserve,
            r.cumulative_borrow_rate_bsf.value == cumulative_borrow_rate_bf.0.0,
            r.borrowed_amount_sf == 0,
            r.market_value_sf == 0,
            r.borrow_factor_adjusted_market_value_sf == 0,
            r.borrowed_amount_outside_elevation_groups == 0,
    {
        ObligationLiquidity {
            borrow_reserve,
            cumulative_borrow_rate_bsf: BigFractionBytes::from(cumulative_borrow_rate_bf),
            padding: 0,
            borrowed_amount_sf: 0,
            market_value_sf: 0,
            borrow_factor_adjusted_market_value_sf: 0,
            borrowed_amount_outside_elevation_groups: 0,
            padding2: [0u64; 7],
        }
    }

    /// Takes from the debt.
    pub fn repay(&mut self, settle_amount: Fraction)
        requires
            settle_amount.bits <= old(self).borrowed_amount_sf,
        ensures
            *final(self) == old(self).with_amount(
                (old(self).borrowed_amount_sf - settle_amount.bits) as u128,
            ),
            final(self).borrowed_amount_sf == old(self).borrowed_amount_sf - settle_amount.bits,
            *final(self) == (ObligationLiquidity {
                borrowed_amount_sf: final(self).borrowed_amount_sf,
                ..*old(self)
            }),
    {
        self.borrowed_amount_sf = (Fraction::from_bits(self.borrowed_amount_sf)
            - settle_amount).to_bits();
    }

    /// Adds to the debt.
    pub fn borrow(&mut self, borrow_amount: Fraction)
        requires
            old(self).borrowed_amount_sf + borrow_amount.bits <= u128::MAX,
        ensures
            *final(self) == old(self).with_amount(
                (old(self).borrowed_amount_sf + borrow_amount.bits) as u128,
            ),
            final(self).borrowed_amount_sf == old(self).borrowed_amount_sf + borrow_amount.bits,
            *final(self) == (ObligationLiquidity {
                borrowed_amount_sf: final(self).borrowed_amount_sf,
                ..*old(self)
            }),
    {
        self.borrowed_amount_sf = (Fraction::from_bits(self.borrowed_amount_sf)
            + borrow_amount).to_bits();
    }

    /// Whether bringing the debt to a new cumulative rate is defined.
    pub fn can_accrue_interest(&self, new_cumulative_borrow_rate: BigFraction) -> (r: bool)
        ensures
            r == self.can_accrue(new_cumulative_borrow_rate),
            ({
                let former_rate = limbs_value(self.cumulative_borrow_rate_bsf.value@);
                let new_rate = limbs_value(new_cumulative_borrow_rate.0.0@);
                r <==> new_rate <= former_rate || (former_rate > 0 && self.borrowed_amount_sf
                    * new_rate
                    < 0x1_0000_0000_0000_0000_0000_0000_0000_0000_0000_0000_0000_0000_0000_0000_0000_0000)
            }),
    {
        let former_rate = U256(self.cumulative_borrow_rate_bsf.value);
        let new_rate = new_cumulative_borrow_rate.0;
        let zero = U256::from_u128(0);
        if !former_rate.less_than(&new_rate) {
            return true;
        }
        if !zero.less_than(&former_rate) {
            return false;
        }
        if self.borrowed_amount_sf == 0 {
            return true;
        }
        let amount = U256::from_u128(self.borrowed_amount_sf);
        let most = U256([u64::MAX, u64::MAX, u64::MAX, u64::MAX]).divided_by(&amount);
        proof {
            let a = amount.value() as int;
            let rate = new_rate.value() as int;
            let top = u256_modulus() - 1;
            lemma_fundamental_div_mod(top, a);
            assert(rate <= top / a <==> a * rate <= top) by (nonlinear_arith)
                requires
                    a > 0,
                    top == a * (top / a) + top % a,
                    0 <= top % a < a,
            ;
        }
        !most.less_than(&new_rate)
    }

    /// Brings the debt to a new cumulative rate.
    pub fn accrue_interest(
        &mut self,
        new_cumulative_borrow_rate: BigFraction,
    ) -> (r: Result<(), LendingError>)
        requires
            old(self).can_accrue(new_cumulative_borrow_rate),
        ensures
            match old(self).after_interest(new_cumulative_borrow_rate) {
                Ok(debt) => r == Ok::<(), LendingError>(()) && *final(self) == debt,
                Err(error) => r == Err::<(), LendingError>(error) && *final(self) == *old(self),
            },
            ({
                let amount = old(self).borrowed_amount_sf;
                let former_rate = limbs_value(old(self).cumulative_borrow_rate_bsf.value@);
                let new_rate = limbs_value(new_cumulative_borrow_rate.0.0@);
                &&& r is Ok && 0 < former_rate < new_rate ==> {
                    let accrued = final(self).borrowed_amount_sf;
                    &&& accrued * former_rate <= amount * new_rate
                    &&& amount * new_rate < (accrued + 1) * former_rate
                    &&& final(self).cumulative_borrow_rate_bsf.value
                        == new_cumulative_borrow_rate.0.0
                    &&& *final(self) == (ObligationLiquidity {
                        borrowed_amount_sf: accrued,
                        cumulative_borrow_rate_bsf: BigFractionBytes {
                            value: new_cumulative_borrow_rate.0.0,
                            ..old(self).cumulative_borrow_rate_bsf
                        },
                        ..*old(self)
                    })
                }
                &&& r is Err || new_rate == former_rate ==> *final(self) == *old(self)
                &&& r == Err::<(), LendingError>(LendingError::NegativeInterestRate) <==> new_rate
                    < former_rate
                &&& r == Err::<(), LendingError>(LendingError::MathOverflow) <==> former_rate
                    < new_rate && amount * new_rate
                    >= 0x1_0000_0000_0000_0000_0000_0000_0000_0000 * former_rate
            }),
    {
        proof {
            law_interest_refusals(*self, new_cumulative_borrow_rate);
            if 0 < limbs_value(self.cumulative_borrow_rate_bsf.value@) < limbs_value(
                new_cumulative_borrow_rate.0.0@,
            ) && self.after_interest(new_cumulative_borrow_rate) is Ok {
                law_interest_scales_the_debt(*self, new_cumulative_borrow_rate);
            }
        }
        let former_rate = U256(self.cumulative_borrow_rate_bsf.value);
        let new_rate = new_cumulative_borrow_rate.0;
        if new_rate.less_than(&former_rate) {
            return Err(LendingError::NegativeInterestRate);
        }
        if former_rate.less_than(&new_rate) {
            let amount = U256::from_u128(self.borrowed_amount_sf);
            let accrued = amount.times(&new_rate).divided_by(&former_rate);
            match accrued.to_u128() {
                Some(amount_sf) => {
                    self.borrowed_amount_sf = amount_sf;
                    self.cumulative_borrow_rate_bsf.value = new_rate.0;
                },
                None => {
                    return Err(LendingError::MathOverflow);
                },
            }
        }
        Ok(())
    }
}

impl Default for ObligationLiquidity {
    fn default() -> (r: ObligationLiquidity)
        ensures
            r == ObligationLiquidity::empty(),
    {
        ObligationLiquidity {
            borrow_reserve: Pubkey::default(),
            cumulative_borrow_rate_bsf: BigFractionBytes::default(),
            padding: 0,
            borrowed_amount_sf: 0,
            market_value_sf: 0,
            borrow_factor_adjusted_market_value_sf: 0,
            borrowed_amount_outside_elevation_groups: 0,
            padding2: [0u64; 7],
        }
    }
}

} // verus!
