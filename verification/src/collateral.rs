//! One deposit of an obligation.
use vstd::prelude::*;

use crate::arrays::filled;
use crate::error::LendingError;
use crate::pubkey::Pubkey;

verus! {

/// A deposit of collateral in one reserve. A slot whose reserve is the address
/// of no account is empty.
#[derive(Clone, Copy, PartialEq, Eq, Debug)]
pub struct ObligationCollateral {
    pub deposit_reserve: Pubkey,
    pub deposited_amount: u64,
    pub market_value_sf: u128,
    pub borrowed_amount_against_this_collateral_in_elevation_group: u64,
    pub padding: [u64; 9],
}

impl ObligationCollateral {
    /// A deposit of nothing in `reserve`.
    pub open spec fn opened(reserve: Pubkey) -> ObligationCollateral {
        ObligationCollateral {
            deposit_reserve: reserve,
            deposited_amount: 0,
            market_value_sf: 0,
            borrowed_amount_against_this_collateral_in_elevation_group: 0,
            padding: filled(0),
        }
    }

    /// An empty slot, as a full withdrawal leaves it.
    pub open spec fn empty() -> ObligationCollateral {
        ObligationCollateral::opened(Pubkey::none())
    }

    /// The deposit with another amount.
    pub open spec fn with_amount(self, amount: u64) -> ObligationCollateral {
        ObligationCollateral { deposited_amount: amount, ..self }
    }

    /// The deposit after `amount` more was deposited, or why it was refused.
    pub open spec fn after_deposit(self, amount: u64) -> Result<ObligationCollateral, LendingError> {
        if self.deposited_amount + amount <= u64::MAX {
            Ok(self.with_amount((self.deposited_amount + amount) as u64))
        } else {
            Err(LendingError::MathOverflow)
        }
    }

    /// The deposit after `amount` was withdrawn, or why it was refused.
    pub open spec fn after_withdrawal(
        self,
        amount: u64,
    ) -> Result<ObligationCollateral, LendingError> {
        if amount <= self.deposited_amount {
            Ok(self.with_amount((self.deposited_amount - amount) as u64))
        } else {
            Err(LendingError::MathOverflow)
        }
    }

    /// The slot holds no deposit.
    pub open spec fn is_empty(self) -> bool {
        self.deposit_reserve == Pubkey::none()
    }

    pub fn new(deposit_reserve: Pubkey) -> (r: ObligationCollateral)
        ensures
            r == ObligationCollateral::opened(deposit_reserve),
            r.deposit_reserve == deposit_reserve,
            r.deposited_amount == 0,
            r.market_value_sf == 0,
            r.borrowed_amount_against_this_collateral_in_elevation_group == 0,
    {
        ObligationCollateral {
            deposit_reserve,
            deposited_amount: 0,
            market_value_sf: 0,
            borrowed_amount_against_this_collateral_in_elevation_group: 0,
            padding: [0u64; 9],
        }
    }

    /// Adds to the deposited amount.
    pub fn deposit(&mut self, collateral_amount: u64) -> (r: Result<(), LendingError>)
        ensures
            match old(self).after_deposit(collateral_amount) {
                Ok(deposit) => r == Ok::<(), LendingError>(()) && *final(self) == deposit,
                Err(error) => r == Err::<(), LendingError>(error) && *final(self) == *old(self),
            },
            r is Ok <==> old(self).deposited_amount + collateral_amount <= u64::MAX,
            r is Ok ==> final(self).deposited_amount == old(self).deposited_amount
                + collateral_amount,
            r is Err ==> *final(self) == *old(self),
            *final(self) == (ObligationCollateral {
                deposited_amount: final(self).deposited_amount,
                ..*old(self)
            }),
    {
        match self.deposited_amount.checked_add(collateral_amount) {
            Some(amount) => {
                self.deposited_amount = amount;
                Ok(())
            },
            None => Err(LendingError::MathOverflow),
        }
    }

    /// Takes from the deposited amount.
    pub fn withdraw(&mut self, collateral_amount: u64) -> (r: Result<(), LendingError>)
        ensures
            match old(self).after_withdrawal(collateral_amount) {
                Ok(deposit) => r == Ok::<(), LendingError>(()) && *final(self) == deposit,
                Err(error) => r == Err::<(), LendingError>(error) && *final(self) == *old(self),
            },
            r is Ok <==> collateral_amount <= old(self).deposited_amount,
            r is Ok ==> final(self).deposited_amount == old(self).deposited_amount
                - collateral_amount,
            r is Err ==> *final(self) == *old(self),
            *final(self) == (ObligationCollateral {
                deposited_amount: final(self).deposited_amount,
                ..*old(self)
            }),
    {
        match self.deposited_amount.checked_sub(collateral_amount) {
            Some(amount) => {
                self.deposited_amount = amount;
                Ok(())
            },
            None => Err(LendingError::MathOverflow),
        }
    }
}

impl Default for ObligationCollateral {
    fn default() -> (r: ObligationCollateral)
        ensures
            r == ObligationCollateral::empty(),
    {
        ObligationCollateral::new(Pubkey::default())
    }
}

} // verus!
