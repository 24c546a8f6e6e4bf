//! Why an operation on an obligation is refused.
use vstd::prelude::*;

verus! {

#[derive(Clone, Copy, PartialEq, Eq, Debug, Structural)]
pub enum LendingError {
    /// A sum does not fit, or a difference would be negative.
    MathOverflow,
    /// The cumulative borrow rate went down.
    NegativeInterestRate,
    /// The obligation has no deposit at all.
    ObligationDepositsEmpty,
    /// The obligation has no borrow at all.
    ObligationBorrowsEmpty,
    /// No deposit of the obligation is in the given reserve.
    InvalidObligationCollateral,
    /// No borrow of the obligation is from the given reserve.
    InvalidObligationLiquidity,
    /// Every slot is taken by another reserve.
    ObligationReserveLimit,
    /// The obligation is marked for deleveraging.
    ObligationCurrentlyMarkedForDeleveraging,
}

} // verus!
