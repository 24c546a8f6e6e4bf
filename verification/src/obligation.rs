//! The borrowing position of one owner in a lending market.
use vstd::prelude::*;

use crate::arrays::filled;
use crate::big_fraction::{BigFraction, BigFractionBytes};
use crate::collateral::ObligationCollateral;
use crate::error::LendingError;
use crate::fraction::{lemma_quotient_not_negative, one_bits, quotient_bits, Fraction};
use crate::liquidity::ObligationLiquidity;
use crate::market::{AssetTier, LastUpdate, LtvMaxWithdrawalCheck};
use crate::market::{ELEVATION_GROUP_NONE, NO_ASSET_TIER};
use crate::meaning::{law_borrow_tiers_by_slot, law_borrows_are_counted};
use crate::meaning::{law_deposit_tiers_by_slot, law_deposits_are_counted};
use crate::meaning::{law_first_borrow_of_a_reserve, law_first_deposit_of_a_reserve};
use crate::meaning::{law_nothing_held, law_ratio_of_values, law_single_debt};
use crate::meaning::{law_total_is_of_all_slots, law_withdrawal_under_liquidation_threshold};
use crate::meaning::{law_withdrawal_under_max_ltv, one_if_borrow, one_if_deposit};
use crate::meaning::{stands_for, unset_beside_slots};
use crate::model::{borrow_tiers, borrowed_total, deposit_tiers};
use crate::model::{lemma_borrowed_total_grows, lemma_first_slot, lemma_first_slot_unique};
use crate::model::ObligationView;
use crate::model::{BORROW_SLOTS, DEPOSIT_SLOTS};
use crate::pubkey::Pubkey;

verus! {

/// Deposits and borrows of one owner, with their values at the last refresh.
/// Fields whose name ends in `_sf` hold the bits of a [`Fraction`].
#[derive(Clone, Copy, PartialEq)]
pub struct Obligation {
    pub tag: u64,
    pub last_update: LastUpdate,
    pub lending_market: Pubkey,
    pub owner: Pubkey,
    pub deposits: [ObligationCollateral; 8],
    pub lowest_reserve_deposit_liquidation_ltv: u64,
    pub deposited_value_sf: u128,
    pub borrows: [ObligationLiquidity; 5],
    pub borrow_factor_adjusted_debt_value_sf: u128,
    pub borrowed_assets_market_value_sf: u128,
    pub allowed_borrow_value_sf: u128,
    pub unhealthy_borrow_value_sf: u128,
    pub deposits_asset_tiers: [u8; 8],
    pub borrows_asset_tiers: [u8; 5],
    pub elevation_group: u8,
    pub num_of_obsolete_reserves: u8,
    pub has_debt: u8,
    pub referrer: Pubkey,
    pub borrowing_disabled: u8,
    pub autodeleverage_target_ltv_pct: u8,
    pub lowest_reserve_deposit_max_ltv_pct: u8,
    pub reserved: [u8; 5],
    pub highest_borrow_factor_pct: u64,
    pub autodeleverage_margin_call_started_timestamp: u64,
    pub padding_3: [u64; 125],
}

/// Whether a withdrawal emptied its slot.
#[derive(Clone, Copy, PartialEq, Eq, Debug, Structural)]
pub enum WithdrawResult {
    Full,
    Partial,
}

/// What a new obligation starts from.
pub struct InitObligationParams {
    pub current_slot: u64,
    pub lending_market: Pubkey,
    pub owner: Pubkey,
    pub deposits: [ObligationCollateral; 8],
    pub borrows: [ObligationLiquidity; 5],
    pub tag: u64,
    pub referrer: Pubkey,
}

/// The arguments of the instruction that opens an obligation.
pub struct InitObligationArgs {
    pub tag: u8,
    pub id: u8,
}

impl InitObligationParams {
    /// The obligation that starts from these parameters.
    pub open spec fn started(self) -> ObligationView {
        ObligationView {
            tag: self.tag,
            last_update: LastUpdate::stale_at(self.current_slot),
            lending_market: self.lending_market,
            owner: self.owner,
            deposits: self.deposits@,
            borrows: self.borrows@,
            referrer: self.referrer,
            ..ObligationView::blank()
        }
    }
}

impl View for Obligation {
    type V = ObligationView;

    open spec fn view(&self) -> ObligationView {
        ObligationView {
            tag: self.tag,
            last_update: self.last_update,
            lending_market: self.lending_market,
            owner: self.owner,
            deposits: self.deposits@,
            lowest_reserve_deposit_liquidation_ltv: self.lowest_reserve_deposit_liquidation_ltv,
            deposited_value_sf: self.deposited_value_sf,
            borrows: self.borrows@,
            borrow_factor_adjusted_debt_value_sf: self.borrow_factor_adjusted_debt_value_sf,
            borrowed_assets_market_value_sf: self.borrowed_assets_market_value_sf,
            allowed_borrow_value_sf: self.allowed_borrow_value_sf,
            unhealthy_borrow_value_sf: self.unhealthy_borrow_value_sf,
            deposits_asset_tiers: self.deposits_asset_tiers@,
            borrows_asset_tiers: self.borrows_asset_tiers@,
            elevation_group: self.elevation_group,
            num_of_obsolete_reserves: self.num_of_obsolete_reserves,
            has_debt: self.has_debt,
            referrer: self.referrer,
            borrowing_disabled: self.borrowing_disabled,
            autodeleverage_target_ltv_pct: self.autodeleverage_target_ltv_pct,
            lowest_reserve_deposit_max_ltv_pct: self.lowest_reserve_deposit_max_ltv_pct,
            reserved: self.reserved@,
            highest_borrow_factor_pct: self.highest_borrow_factor_pct,
            autodeleverage_margin_call_started_timestamp:
                self.autodeleverage_margin_call_started_timestamp,
            padding_3: self.padding_3@,
        }
    }
}

impl Default for Obligation {
    fn default() -> (r: Obligation)
        ensures
            r@ == ObligationView::blank(),
            unset_beside_slots(r@),
    {
        Obligation {
            tag: 0,
            last_update: LastUpdate::default(),
            lending_market: Pubkey::default(),
            owner: Pubkey::default(),
            deposits: [ObligationCollateral::default(); 8],
            borrows: [ObligationLiquidity::default(); 5],
            deposited_value_sf: 0,
            borrowed_assets_market_value_sf: 0,
            allowed_borrow_value_sf: 0,
            unhealthy_borrow_value_sf: 0,
            lowest_reserve_deposit_liquidation_ltv: 0,
            borrow_factor_adjusted_debt_value_sf: 0,
            deposits_asset_tiers: [NO_ASSET_TIER; 8],
            borrows_asset_tiers: [NO_ASSET_TIER; 5],
            elevation_group: ELEVATION_GROUP_NONE,
            num_of_obsolete_reserves: 0,
            has_debt: 0,
            borrowing_disabled: 0,
            highest_borrow_factor_pct: 0,
            lowest_reserve_deposit_max_ltv_pct: 0,
            reserved: [0u8; 5],
            padding_3: [0u64; 125],
            referrer: Pubkey::default(),
            autodeleverage_target_ltv_pct: 0,
            autodeleverage_margin_call_started_timestamp: 0,
        }
    }
}

impl Obligation {
    pub const LEN: usize = 1784;

    /// Starts the obligation anew.
    pub fn init(&mut self, params: InitObligationParams)
        ensures
            final(self)@ == params.started(),
            final(self).tag == params.tag,
            final(self).last_update.slot == params.current_slot,
            final(self).last_update.stale == 1,
            final(self).lending_market == params.lending_market,
            final(self).owner == params.owner,
            final(self).deposits == params.deposits,
            final(self).borrows == params.borrows,
            final(self).referrer == params.referrer,
            unset_beside_slots(final(self)@),
    {
        *self = Obligation::default();
        self.tag = params.tag;
        self.last_update = LastUpdate::new(params.current_slot);
        self.lending_market = params.lending_market;
        self.owner = params.owner;
        self.deposits = params.deposits;
        self.borrows = params.borrows;
        self.referrer = params.referrer;
        self.deposits_asset_tiers = [NO_ASSET_TIER; 8];
        self.borrows_asset_tiers = [NO_ASSET_TIER; 5];
    }

    /// The debt, adjusted by borrow factors, in relation to the deposits.
    pub fn loan_to_value(&self) -> (r: Fraction)
        requires
            self.deposited_value_sf != 0,
            quotient_bits(self.borrow_factor_adjusted_debt_value_sf, self.deposited_value_sf)
                <= u128::MAX,
        ensures
            r.bits == quotient_bits(
                self.borrow_factor_adjusted_debt_value_sf,
                self.deposited_value_sf,
            ),
            r.bits * self.deposited_value_sf <= self.borrow_factor_adjusted_debt_value_sf
                * 0x1000_0000_0000_0000,
            self.borrow_factor_adjusted_debt_value_sf * 0x1000_0000_0000_0000 < (r.bits + 1)
                * self.deposited_value_sf,
    {
        proof {
            law_ratio_of_values(self.borrow_factor_adjusted_debt_value_sf, self.deposited_value_sf);
            lemma_quotient_not_negative(
                self.borrow_factor_adjusted_debt_value_sf,
                self.deposited_value_sf,
            );
        }
        Fraction::from_bits(self.borrow_factor_adjusted_debt_value_sf) / Fraction::from_bits(
            self.deposited_value_sf,
        )
    }

    /// The market value of the debt in relation to the deposits.
    pub fn no_bf_loan_to_value(&self) -> (r: Fraction)
        requires
            self.deposited_value_sf != 0,
            quotient_bits(self.borrowed_assets_market_value_sf, self.deposited_value_sf)
                <= u128::MAX,
        ensures
            r.bits == quotient_bits(self.borrowed_assets_market_value_sf, self.deposited_value_sf),
            r.bits * self.deposited_value_sf <= self.borrowed_assets_market_value_sf
                * 0x1000_0000_0000_0000,
            self.borrowed_assets_market_value_sf * 0x1000_0000_0000_0000 < (r.bits + 1)
                * self.deposited_value_sf,
    {
        proof {
            law_ratio_of_values(self.borrowed_assets_market_value_sf, self.deposited_value_sf);
            lemma_quotient_not_negative(
                self.borrowed_assets_market_value_sf,
                self.deposited_value_sf,
            );
        }
        Fraction::from_bits(self.borrowed_assets_market_value_sf) / Fraction::from_bits(
            self.deposited_value_sf,
        )
    }

    /// The debt at which liquidation starts in relation to the deposits.
    pub fn unhealthy_loan_to_value(&self) -> (r: Fraction)
        requires
            self.deposited_value_sf != 0,
            quotient_bits(self.unhealthy_borrow_value_sf, self.deposited_value_sf) <= u128::MAX,
        ensures
            r.bits == quotient_bits(self.unhealthy_borrow_value_sf, self.deposited_value_sf),
            r.bits * self.deposited_value_sf <= self.unhealthy_borrow_value_sf
                * 0x1000_0000_0000_0000,
            self.unhealthy_borrow_value_sf * 0x1000_0000_0000_0000 < (r.bits + 1)
                * self.deposited_value_sf,
    {
        proof {
            law_ratio_of_values(self.unhealthy_borrow_value_sf, self.deposited_value_sf);
            lemma_quotient_not_negative(
                self.unhealthy_borrow_value_sf,
                self.deposited_value_sf,
            );
        }
        Fraction::from_bits(self.unhealthy_borrow_value_sf) / Fraction::from_bits(
            self.deposited_value_sf,
        )
    }

    /// Takes from the debt in a slot, and empties the slot if nothing is left.
    pub fn repay(&mut self, settle_amount: Fraction, liquidity_index: usize)
        requires
            liquidity_index < BORROW_SLOTS,
            settle_amount.bits <= old(self).borrows@[liquidity_index as int].borrowed_amount_sf,
        ensures
            final(self)@ == old(self)@.repaid(settle_amount.bits, liquidity_index as int),
            ({
                let slot = liquidity_index as int;
                let before = old(self).borrows@[slot];
                let after = final(self).borrows@[slot];
                &&& settle_amount.bits < before.borrowed_amount_sf ==> {
                    &&& after.borrowed_amount_sf == before.borrowed_amount_sf - settle_amount.bits
                    &&& after == (ObligationLiquidity {
                        borrowed_amount_sf: after.borrowed_amount_sf,
                        ..before
                    })
                    &&& final(self).borrows_asset_tiers == old(self).borrows_asset_tiers
                }
                &&& settle_amount.bits == before.borrowed_amount_sf ==> {
                    &&& after == ObligationLiquidity::empty()
                    &&& final(self).borrows_asset_tiers@
                        == old(self).borrows_asset_tiers@.update(slot, 255)
                }
                &&& final(self).borrows@ == old(self).borrows@.update(slot, after)
                &&& *final(self) == (Obligation {
                    borrows: final(self).borrows,
                    borrows_asset_tiers: final(self).borrows_asset_tiers,
                    ..*old(self)
                })
            }),
    {
        let liquidity = &mut self.borrows[liquidity_index];
        if settle_amount == Fraction::from_bits(liquidity.borrowed_amount_sf) {
            self.borrows[liquidity_index] = ObligationLiquidity::default();
            self.borrows_asset_tiers[liquidity_index] = NO_ASSET_TIER;
        } else {
            liquidity.repay(settle_amount);
        }
    }

    /// Takes from the deposit in a slot, and empties the slot if nothing is left.
    pub fn withdraw(
        &mut self,
        withdraw_amount: u64,
        collateral_index: usize,
    ) -> (r: Result<WithdrawResult, LendingError>)
        requires
            collateral_index < DEPOSIT_SLOTS,
        ensures
            ({
                let deposited = old(self).deposits@[collateral_index as int].deposited_amount;
                if withdraw_amount <= deposited {
                    &&& r == Ok::<WithdrawResult, LendingError>(
                        if withdraw_amount == deposited {
                            WithdrawResult::Full
                        } else {
                            WithdrawResult::Partial
                        },
                    )
                    &&& final(self)@ == old(self)@.withdrawn(
                        withdraw_amount,
                        collateral_index as int,
                    )
                } else {
                    &&& r == Err::<WithdrawResult, LendingError>(LendingError::MathOverflow)
                    &&& final(self)@ == old(self)@
                }
            }),
            ({
                let slot = collateral_index as int;
                let before = old(self).deposits@[slot];
                let after = final(self).deposits@[slot];
                &&& withdraw_amount < before.deposited_amount ==> {
                    &&& after.deposited_amount == before.deposited_amount - withdraw_amount
                    &&& after == (ObligationCollateral {
                        deposited_amount: after.deposited_amount,
                        ..before
                    })
                    &&& final(self).deposits_asset_tiers == old(self).deposits_asset_tiers
                }
                &&& withdraw_amount == before.deposited_amount ==> {
                    &&& after == ObligationCollateral::empty()
                    &&& final(self).deposits_asset_tiers@
                        == old(self).deposits_asset_tiers@.update(slot, 255)
                }
                &&& withdraw_amount > before.deposited_amount ==> *final(self) == *old(self)
                &&& final(self).deposits@ == old(self).deposits@.update(slot, after)
                &&& *final(self) == (Obligation {
                    deposits: final(self).deposits,
                    deposits_asset_tiers: final(self).deposits_asset_tiers,
                    ..*old(self)
                })
            }),
    {
        let collateral = &mut self.deposits[collateral_index];
        if withdraw_amount == collateral.deposited_amount {
            self.deposits[collateral_index] = ObligationCollateral::default();
            self.deposits_asset_tiers[collateral_index] = NO_ASSET_TIER;
            Ok(WithdrawResult::Full)
        } else {
            match collateral.withdraw(withdraw_amount) {
                Ok(_) => Ok(WithdrawResult::Partial),
                Err(error) => {
                    assert(self.deposits =~= old(self).deposits);
                    Err(error)
                },
            }
        }
    }

    /// The value of a collateral that can be withdrawn within the given limit.
    pub fn max_withdraw_value(
        &self,
        obligation_collateral: &ObligationCollateral,
        reserve_max_ltv_pct: u8,
        reserve_liq_threshold_pct: u8,
        ltv_max_withdrawal_check: LtvMaxWithdrawalCheck,
    ) -> (r: Fraction)
        requires
            ({
                let pct = if ltv_max_withdrawal_check
                    == LtvMaxWithdrawalCheck::LiquidationThreshold {
                    reserve_liq_threshold_pct
                } else {
                    reserve_max_ltv_pct
                };
                pct != 0 ==> self@.withdrawal_room(ltv_max_withdrawal_check) * 100 <= u128::MAX
            }),
        ensures
            r.bits == self@.max_withdraw_value_sf(
                obligation_collateral.market_value_sf,
                if ltv_max_withdrawal_check == LtvMaxWithdrawalCheck::LiquidationThreshold {
                    reserve_liq_threshold_pct
                } else {
                    reserve_max_ltv_pct
                },
                ltv_max_withdrawal_check,
            ),
            ltv_max_withdrawal_check == LtvMaxWithdrawalCheck::MaxLtv ==> {
                let debt = self.borrow_factor_adjusted_debt_value_sf;
                let allowed = self.allowed_borrow_value_sf;
                let pct = reserve_max_ltv_pct;
                &&& debt <= allowed && pct != 0 ==> {
                    &&& debt * 100 + r.bits * pct <= allowed * 100
                    &&& allowed * 100 < debt * 100 + (r.bits + 1) * pct
                }
                &&& debt < allowed && pct == 0 ==> r.bits == obligation_collateral.market_value_sf
                &&& allowed <= debt ==> r.bits == 0
            },
            ltv_max_withdrawal_check == LtvMaxWithdrawalCheck::LiquidationThreshold ==> {
                let debt = self.borrow_factor_adjusted_debt_value_sf;
                let unhealthy = self.unhealthy_borrow_value_sf;
                let pct = reserve_liq_threshold_pct;
                &&& debt < unhealthy && pct != 0 ==> {
                    &&& debt * 100 + r.bits * pct <= (unhealthy - 1) * 100
                    &&& (unhealthy - 1) * 100 < debt * 100 + (r.bits + 1) * pct
                }
                &&& debt + 1 < unhealthy && pct == 0 ==> r.bits
                    == obligation_collateral.market_value_sf
                &&& unhealthy <= debt + 1 ==> r.bits == 0
            },
    {
        proof {
            law_withdrawal_under_max_ltv(
                self@,
                obligation_collateral.market_value_sf,
                reserve_max_ltv_pct,
            );
            law_withdrawal_under_liquidation_threshold(
                self@,
                obligation_collateral.market_value_sf,
                reserve_liq_threshold_pct,
            );
        }
        let (highest_allowed_borrow_value, withdraw_collateral_ltv_pct) =
            if ltv_max_withdrawal_check == LtvMaxWithdrawalCheck::LiquidationThreshold {
            (
                Fraction::from_bits(self.unhealthy_borrow_value_sf.saturating_sub(1)),
                reserve_liq_threshold_pct,
            )
        } else {
            (Fraction::from_bits(self.allowed_borrow_value_sf), reserve_max_ltv_pct)
        };
        let borrow_factor_adjusted_debt_value = Fraction::from_bits(
            self.borrow_factor_adjusted_debt_value_sf,
        );
        if highest_allowed_borrow_value.bits <= borrow_factor_adjusted_debt_value.bits {
            return Fraction::zero();
        }
        if withdraw_collateral_ltv_pct == 0 {
            return Fraction::from_bits(obligation_collateral.market_value_sf);
        }
        highest_allowed_borrow_value.saturating_sub(borrow_factor_adjusted_debt_value) * 100u128
            / (withdraw_collateral_ltv_pct as u128)
    }

    /// The value that can still be borrowed.
    pub fn remaining_borrow_value(&self) -> (r: Fraction)
        ensures
            r.bits == self@.remaining_borrow_value_sf(),
            self.borrow_factor_adjusted_debt_value_sf <= self.allowed_borrow_value_sf
                ==> self.borrow_factor_adjusted_debt_value_sf + r.bits
                == self.allowed_borrow_value_sf,
            self.borrow_factor_adjusted_debt_value_sf >= self.allowed_borrow_value_sf ==> r.bits
                == 0,
    {
        Fraction::from_bits(
            self.allowed_borrow_value_sf.saturating_sub(self.borrow_factor_adjusted_debt_value_sf),
        )
    }

    /// The first deposit slot in `deposit_reserve`.
    fn find_collateral_index_in_deposits(&self, deposit_reserve: Pubkey) -> (r: Option<usize>)
        ensures
            r == (if self@.deposit_slot(deposit_reserve) < DEPOSIT_SLOTS {
                Some(self@.deposit_slot(deposit_reserve) as usize)
            } else {
                None
            }),
    {
        let ghost reserves = self@.deposit_reserves();
        let mut i: usize = 0;
        while i < 8
            invariant
                i <= 8,
                reserves == self@.deposit_reserves(),
                forall|j: int| 0 <= j < i ==> #[trigger] reserves[j] != deposit_reserve,
            decreases 8 - i,
        {
            assert(reserves[i as int] == self.deposits@[i as int].deposit_reserve);
            if self.deposits[i].deposit_reserve == deposit_reserve {
                proof {
                    lemma_first_slot_unique(reserves, deposit_reserve, i as int);
                }
                return Some(i);
            }
            i = i + 1;
        }
        proof {
            lemma_first_slot_unique(reserves, deposit_reserve, 8);
        }
        None
    }

    /// The deposit in a reserve.
    pub fn find_collateral_in_deposits(
        &self,
        deposit_reserve: Pubkey,
    ) -> (r: Result<&ObligationCollateral, LendingError>)
        ensures
            r == (if self@.no_deposits() {
                Err::<&ObligationCollateral, LendingError>(LendingError::ObligationDepositsEmpty)
            } else if self@.deposit_slot(deposit_reserve) < DEPOSIT_SLOTS {
                Ok(&self@.deposits[self@.deposit_slot(deposit_reserve)])
            } else {
                Err(LendingError::InvalidObligationCollateral)
            }),
            match r {
                Ok(deposit) => exists|i: int|
                    {
                        &&& 0 <= i < 8
                        &&& *deposit == #[trigger] self.deposits@[i]
                        &&& deposit.deposit_reserve == deposit_reserve
                        &&& forall|j: int|
                            0 <= j < i ==> (#[trigger] self.deposits@[j]).deposit_reserve
                                != deposit_reserve
                    },
                Err(_) => (forall|i: int|
                    0 <= i < 8 ==> (#[trigger] self.deposits@[i]).deposit_reserve == Pubkey::none())
                    || forall|i: int|
                    0 <= i < 8 ==> (#[trigger] self.deposits@[i]).deposit_reserve
                        != deposit_reserve,
            },
            r == Err::<&ObligationCollateral, LendingError>(LendingError::ObligationDepositsEmpty)
                <==> forall|i: int|
                0 <= i < 8 ==> (#[trigger] self.deposits@[i]).deposit_reserve == Pubkey::none(),
    {
        proof {
            law_nothing_held(self@);
            law_first_deposit_of_a_reserve(self@, deposit_reserve);
        }
        if self.deposits_empty() {
            return Err(LendingError::ObligationDepositsEmpty);
        }
        proof {
            lemma_first_slot(self@.deposit_reserves(), deposit_reserve);
        }
        match self.find_collateral_index_in_deposits(deposit_reserve) {
            Some(collateral_index) => Ok(&self.deposits[collateral_index]),
            None => Err(LendingError::InvalidObligationCollateral),
        }
    }

    /// The deposit in a reserve. Where there is none yet, the first empty slot is
    /// taken for the reserve, and `init_function` sets it up.
    pub fn find_or_add_collateral_to_deposits<
        F: FnOnce(&mut ObligationCollateral) -> Result<(), LendingError>,
    >(
        &mut self,
        deposit_reserve: Pubkey,
        deposit_reserve_asset_tier: AssetTier,
        init_function: F,
    ) -> (r: Result<&mut ObligationCollateral, LendingError>)
        requires
            old(self)@.deposit_slot(deposit_reserve) == DEPOSIT_SLOTS
                && old(self)@.deposit_slot(Pubkey::none()) < DEPOSIT_SLOTS ==> forall|
                slot: &mut ObligationCollateral,
            |
                *slot == ObligationCollateral::opened(deposit_reserve)
                    ==> #[trigger] init_function.requires((slot,)),
        ensures
            ({
                let found = old(self)@.deposit_slot(deposit_reserve);
                let empty = old(self)@.deposit_slot(Pubkey::none());
                let code = deposit_reserve_asset_tier.code();
                if found < DEPOSIT_SLOTS {
                    &&& r matches Ok(deposit)
                    &&& *deposit == old(self)@.deposits[found]
                    &&& final(self)@ == old(self)@.with_deposit(found, *final(deposit))
                } else if empty < DEPOSIT_SLOTS {
                    exists|slot: &mut ObligationCollateral, outcome: Result<(), LendingError>|
                        {
                            &&& *slot == ObligationCollateral::opened(deposit_reserve)
                            &&& #[trigger] init_function.ensures((slot,), outcome)
                            &&& match outcome {
                                Ok(_) => {
                                    &&& r matches Ok(deposit)
                                    &&& *deposit == *final(slot)
                                    &&& final(self)@ == old(self)@.with_deposit(
                                        empty,
                                        *final(deposit),
                                    ).with_deposit_tier(empty, code)
                                },
                                Err(refused) => {
                                    &&& r matches Err(error)
                                    &&& error == refused
                                    &&& final(self)@ == old(self)@.with_deposit(
                                        empty,
                                        *final(slot),
                                    ).with_deposit_tier(empty, code)
                                },
                            }
                        }
                } else {
                    &&& r matches Err(error)
                    &&& error == LendingError::ObligationReserveLimit
                    &&& final(self)@ == old(self)@
                }
            }),
    {
        proof {
            lemma_first_slot(self@.deposit_reserves(), deposit_reserve);
            lemma_first_slot(self@.deposit_reserves(), Pubkey::none());
        }
        match self.find_collateral_index_in_deposits(deposit_reserve) {
            Some(collateral_index) => {
                return Ok(&mut self.deposits[collateral_index]);
            },
            None => {},
        }
        match self.find_collateral_index_in_deposits(Pubkey::default()) {
            Some(collateral_index) => {
                self.deposits_asset_tiers[collateral_index] = u8::from(deposit_reserve_asset_tier);
                let collateral = &mut self.deposits[collateral_index];
                *collateral = ObligationCollateral::new(deposit_reserve);
                match init_function(collateral) {
                    Ok(_) => Ok(collateral),
                    Err(error) => Err(error),
                }
            },
            None => Err(LendingError::ObligationReserveLimit),
        }
    }

    /// The slot of the deposit in a reserve.
    pub fn position_of_collateral_in_deposits(
        &self,
        deposit_reserve: Pubkey,
    ) -> (r: Result<usize, LendingError>)
        ensures
            r == (if self@.no_deposits() {
                Err::<usize, LendingError>(LendingError::ObligationDepositsEmpty)
            } else if self@.deposit_slot(deposit_reserve) < DEPOSIT_SLOTS {
                Ok(self@.deposit_slot(deposit_reserve) as usize)
            } else {
                Err(LendingError::InvalidObligationCollateral)
            }),
            match r {
                Ok(i) => {
                    &&& i < 8
                    &&& self.deposits@[i as int].deposit_reserve == deposit_reserve
                    &&& forall|j: int|
                        0 <= j < i ==> (#[trigger] self.deposits@[j]).deposit_reserve
                            != deposit_reserve
                },
                Err(_) => (forall|i: int|
                    0 <= i < 8 ==> (#[trigger] self.deposits@[i]).deposit_reserve == Pubkey::none())
                    || forall|i: int|
                    0 <= i < 8 ==> (#[trigger] self.deposits@[i]).deposit_reserve
                        != deposit_reserve,
            },
            r == Err::<usize, LendingError>(LendingError::ObligationDepositsEmpty) <==> forall|
                i: int,
            |
                0 <= i < 8 ==> (#[trigger] self.deposits@[i]).deposit_reserve == Pubkey::none(),
    {
        proof {
            law_nothing_held(self@);
            law_first_deposit_of_a_reserve(self@, deposit_reserve);
        }
        if self.deposits_empty() {
            return Err(LendingError::ObligationDepositsEmpty);
        }
        match self.find_collateral_index_in_deposits(deposit_reserve) {
            Some(collateral_index) => Ok(collateral_index),
            None => Err(LendingError::InvalidObligationCollateral),
        }
    }

    /// The borrow from a reserve, and its slot.
    pub fn find_liquidity_in_borrows(
        &self,
        borrow_reserve: Pubkey,
    ) -> (r: Result<(&ObligationLiquidity, usize), LendingError>)
        ensures
            r == (if self@.no_borrows() {
                Err::<(&ObligationLiquidity, usize), LendingError>(
                    LendingError::ObligationBorrowsEmpty,
                )
            } else if self@.borrow_slot(borrow_reserve) < BORROW_SLOTS {
                Ok(
                    (
                        &self@.borrows[self@.borrow_slot(borrow_reserve)],
                        self@.borrow_slot(borrow_reserve) as usize,
                    ),
                )
            } else {
                Err(LendingError::InvalidObligationLiquidity)
            }),
            match r {
                Ok(found) => {
                    &&& found.1 < 5
                    &&& *found.0 == self.borrows@[found.1 as int]
                    &&& found.0.borrow_reserve == borrow_reserve
                    &&& forall|j: int|
                        0 <= j < found.1 ==> (#[trigger] self.borrows@[j]).borrow_reserve
                            != borrow_reserve
                },
                Err(_) => (forall|i: int|
                    0 <= i < 5 ==> (#[trigger] self.borrows@[i]).borrow_reserve == Pubkey::none())
                    || forall|i: int|
                    0 <= i < 5 ==> (#[trigger] self.borrows@[i]).borrow_reserve != borrow_reserve,
            },
            r == Err::<(&ObligationLiquidity, usize), LendingError>(
                LendingError::ObligationBorrowsEmpty,
            ) <==> forall|i: int|
                0 <= i < 5 ==> (#[trigger] self.borrows@[i]).borrow_reserve == Pubkey::none(),
    {
        proof {
            law_nothing_held(self@);
            law_first_borrow_of_a_reserve(self@, borrow_reserve);
        }
        if self.borrows_empty() {
            return Err(LendingError::ObligationBorrowsEmpty);
        }
        proof {
            lemma_first_slot(self@.borrow_reserves(), borrow_reserve);
        }
        match self.find_liquidity_index_in_borrows(borrow_reserve) {
            Some(liquidity_index) => Ok((&self.borrows[liquidity_index], liquidity_index)),
            None => Err(LendingError::InvalidObligationLiquidity),
        }
    }

    /// The borrow from a reserve, to be changed, and its slot.
    pub fn find_liquidity_in_borrows_mut(
        &mut self,
        borrow_reserve: Pubkey,
    ) -> (r: Result<(&mut ObligationLiquidity, usize), LendingError>)
        ensures
            ({
                let found = old(self)@.borrow_slot(borrow_reserve);
                if old(self)@.no_borrows() {
                    &&& r matches Err(error)
                    &&& error == LendingError::ObligationBorrowsEmpty
                    &&& final(self)@ == old(self)@
                } else if found < BORROW_SLOTS {
                    &&& r matches Ok(borrow)
                    &&& borrow.1 == found
                    &&& *borrow.0 == old(self)@.borrows[found]
                    &&& final(self)@ == old(self)@.with_borrow(found, *final(borrow.0))
                } else {
                    &&& r matches Err(error)
                    &&& error == LendingError::InvalidObligationLiquidity
                    &&& final(self)@ == old(self)@
                }
            }),
    {
        if self.borrows_empty() {
            return Err(LendingError::ObligationBorrowsEmpty);
        }
        proof {
            lemma_first_slot(self@.borrow_reserves(), borrow_reserve);
        }
        match self.find_liquidity_index_in_borrows(borrow_reserve) {
            Some(liquidity_index) => Ok((&mut self.borrows[liquidity_index], liquidity_index)),
            None => Err(LendingError::InvalidObligationLiquidity),
        }
    }

    /// The borrow from a reserve, to be changed, and its slot. Where there is none
    /// yet, the first empty slot is taken for the reserve, with no debt.
    pub fn find_or_add_liquidity_to_borrows(
        &mut self,
        borrow_reserve: Pubkey,
        cumulative_borrow_rate: BigFraction,
        borrow_reserve_asset_tier: AssetTier,
    ) -> (r: Result<(&mut ObligationLiquidity, usize), LendingError>)
        ensures
            ({
                let found = old(self)@.borrow_slot(borrow_reserve);
                let empty = old(self)@.borrow_slot(Pubkey::none());
                if found < BORROW_SLOTS {
                    &&& r matches Ok(borrow)
                    &&& borrow.1 == found
                    &&& *borrow.0 == old(self)@.borrows[found]
                    &&& final(self)@ == old(self)@.with_borrow(found, *final(borrow.0))
                } else if empty < BORROW_SLOTS {
                    &&& r matches Ok(borrow)
                    &&& borrow.1 == empty
                    &&& *borrow.0 == ObligationLiquidity::opened(
                        borrow_reserve,
                        BigFractionBytes { value: cumulative_borrow_rate.0.0, padding: filled(0) },
                    )
                    &&& final(self)@ == old(self)@.with_borrow(
                        empty,
                        *final(borrow.0),
                    ).with_borrow_tier(empty, borrow_reserve_asset_tier.code())
                } else {
                    &&& r matches Err(error)
                    &&& error == LendingError::ObligationReserveLimit
                    &&& final(self)@ == old(self)@
                }
            }),
    {
        proof {
            lemma_first_slot(self@.borrow_reserves(), borrow_reserve);
            lemma_first_slot(self@.borrow_reserves(), Pubkey::none());
        }
        match self.find_liquidity_index_in_borrows(borrow_reserve) {
            Some(liquidity_index) => {
                return Ok((&mut self.borrows[liquidity_index], liquidity_index));
            },
            None => {},
        }
        match self.find_liquidity_index_in_borrows(Pubkey::default()) {
            Some(index) => {
                self.borrows_asset_tiers[index] = u8::from(borrow_reserve_asset_tier);
                let liquidity = &mut self.borrows[index];
                *liquidity = ObligationLiquidity::new(borrow_reserve, cumulative_borrow_rate);
                Ok((liquidity, index))
            },
            None => Err(LendingError::ObligationReserveLimit),
        }
    }

    /// The first borrow slot from `borrow_reserve`.
    fn find_liquidity_index_in_borrows(&self, borrow_reserve: Pubkey) -> (r: Option<usize>)
        ensures
            r == (if self@.borrow_slot(borrow_reserve) < BORROW_SLOTS {
                Some(self@.borrow_slot(borrow_reserve) as usize)
            } else {
                None
            }),
    {
        let ghost reserves = self@.borrow_reserves();
        let mut i: usize = 0;
        while i < 5
            invariant
                i <= 5,
                reserves == self@.borrow_reserves(),
                forall|j: int| 0 <= j < i ==> #[trigger] reserves[j] != borrow_reserve,
            decreases 5 - i,
        {
            assert(reserves[i as int] == self.borrows@[i as int].borrow_reserve);
            if self.borrows[i].borrow_reserve == borrow_reserve {
                proof {
                    lemma_first_slot_unique(reserves, borrow_reserve, i as int);
                }
                return Some(i);
            }
            i = i + 1;
        }
        proof {
            lemma_first_slot_unique(reserves, borrow_reserve, 5);
        }
        None
    }

    /// Whether every deposit slot is empty.
    pub fn deposits_empty(&self) -> (r: bool)
        ensures
            r == self@.no_deposits(),
            r <==> forall|i: int|
                0 <= i < 8 ==> (#[trigger] self.deposits@[i]).deposit_reserve == Pubkey::none(),
    {
        let none = Pubkey::default();
        let mut i: usize = 0;
        while i < 8
            invariant
                i <= 8,
                none == Pubkey::none(),
                forall|j: int| 0 <= j < i ==> (#[trigger] self@.deposits[j]).is_empty(),
            decreases 8 - i,
        {
            if self.deposits[i].deposit_reserve != none {
                assert(!self@.deposits[i as int].is_empty());
                return false;
            }
            i = i + 1;
        }
        assert forall|k: int| 0 <= k < 8 implies (#[trigger] self.deposits@[k]).deposit_reserve
            == Pubkey::none() by {
            assert(self@.deposits[k].is_empty());
        }
        true
    }

    /// Whether every borrow slot is empty.
    pub fn borrows_empty(&self) -> (r: bool)
        ensures
            r == self@.no_borrows(),
            r <==> forall|i: int|
                0 <= i < 5 ==> (#[trigger] self.borrows@[i]).borrow_reserve == Pubkey::none(),
    {
        let none = Pubkey::default();
        let mut i: usize = 0;
        while i < 5
            invariant
                i <= 5,
                none == Pubkey::none(),
                forall|j: int| 0 <= j < i ==> (#[trigger] self@.borrows[j]).is_empty(),
            decreases 5 - i,
        {
            if self.borrows[i].borrow_reserve != none {
                assert(!self@.borrows[i as int].is_empty());
                return false;
            }
            i = i + 1;
        }
        assert forall|k: int| 0 <= k < 5 implies (#[trigger] self.borrows@[k]).borrow_reserve
            == Pubkey::none() by {
            assert(self@.borrows[k].is_empty());
        }
        true
    }

    /// How many deposit slots are not empty.
    pub fn deposits_count(&self) -> (r: usize)
        ensures
            r == self@.deposit_count(),
            r == one_if_deposit(self.deposits@[0]) + one_if_deposit(self.deposits@[1]) + one_if_deposit(self.deposits@[2]) + one_if_deposit(self.deposits@[3]) + one_if_deposit(self.deposits@[4]) + one_if_deposit(self.deposits@[5]) + one_if_deposit(self.deposits@[6]) + one_if_deposit(self.deposits@[7]),
    {
        proof {
            law_deposits_are_counted(self@);
        }
        let none = Pubkey::default();
        let ghost taken = |c: ObligationCollateral| !c.is_empty();
        let ghost deposits = self.deposits@;
        let mut count: usize = 0;
        let mut i: usize = 0;
        while i < 8
            invariant
                count <= i <= 8,
                none == Pubkey::none(),
                deposits == self.deposits@,
                taken == (|c: ObligationCollateral| !c.is_empty()),
                count == deposits.take(i as int).filter(taken).len(),
            decreases 8 - i,
        {
            proof {
                assert(deposits.take(i + 1) =~= deposits.take(i as int).push(deposits[i as int]));
                deposits.take(i as int).lemma_filter_len_push(taken, deposits[i as int]);
            }
            if self.deposits[i].deposit_reserve != none {
                count = count + 1;
            }
            i = i + 1;
        }
        assert(deposits.take(8) =~= deposits);
        count
    }

    /// How many borrow slots are not empty.
    pub fn borrows_count(&self) -> (r: usize)
        ensures
            r == self@.borrow_count(),
            r == one_if_borrow(self.borrows@[0]) + one_if_borrow(self.borrows@[1]) + one_if_borrow(self.borrows@[2]) + one_if_borrow(self.borrows@[3]) + one_if_borrow(self.borrows@[4]),
    {
        proof {
            law_borrows_are_counted(self@);
        }
        let none = Pubkey::default();
        let ghost taken = |l: ObligationLiquidity| !l.is_empty();
        let ghost borrows = self.borrows@;
        let mut count: usize = 0;
        let mut i: usize = 0;
        while i < 5
            invariant
                count <= i <= 5,
                none == Pubkey::none(),
                borrows == self.borrows@,
                taken == (|l: ObligationLiquidity| !l.is_empty()),
                count == borrows.take(i as int).filter(taken).len(),
            decreases 5 - i,
        {
            proof {
                assert(borrows.take(i + 1) =~= borrows.take(i as int).push(borrows[i as int]));
                borrows.take(i as int).lemma_filter_len_push(taken, borrows[i as int]);
            }
            if self.borrows[i].borrow_reserve != none {
                count = count + 1;
            }
            i = i + 1;
        }
        assert(borrows.take(5) =~= borrows);
        count
    }

    /// The tiers of the deposits that hold something, in the order of the slots.
    pub fn get_deposit_asset_tiers(&self) -> (r: Vec<AssetTier>)
        requires
            self@.deposit_tiers_known(),
        ensures
            r@ == deposit_tiers(
                self@.deposits,
                self@.deposits_asset_tiers,
                DEPOSIT_SLOTS as int,
            ),
            ({
                let held = |c: ObligationCollateral|
                    c.deposit_reserve != Pubkey::none() && c.deposited_amount > 0;
                &&& r@.len() == self.deposits@.filter(held).len()
                &&& forall|i: int|
                    0 <= i < 8 && (#[trigger] self.deposits@[i]).deposit_reserve != Pubkey::none()
                        && self.deposits@[i].deposited_amount > 0 ==> {
                        let at = self.deposits@.take(i).filter(held).len() as int;
                        &&& at < r@.len()
                        &&& stands_for(self.deposits_asset_tiers@[i], r@[at])
                    }
            }),
    {
        proof {
            law_deposit_tiers_by_slot(self@);
        }
        let none = Pubkey::default();
        let mut tiers: Vec<AssetTier> = Vec::new();
        let mut i: usize = 0;
        while i < 8
            invariant
                i <= 8,
                none == Pubkey::none(),
                self@.deposit_tiers_known(),
                tiers@ == deposit_tiers(self@.deposits, self@.deposits_asset_tiers, i as int),
            decreases 8 - i,
        {
            if self.deposits[i].deposit_reserve != none && self.deposits[i].deposited_amount > 0 {
                assert(self@.deposits[i as int].deposited_amount > 0);
                match AssetTier::from_code(self.deposits_asset_tiers[i]) {
                    Some(tier) => {
                        tiers.push(tier);
                    },
                    None => {
                        assert(false);
                    },
                }
            }
            i = i + 1;
        }
        tiers
    }

    /// The tiers of the borrows that hold something, in the order of the slots.
    pub fn get_borrows_asset_tiers(&self) -> (r: Vec<AssetTier>)
        requires
            self@.borrow_tiers_known(),
        ensures
            r@ == borrow_tiers(self@.borrows, self@.borrows_asset_tiers, BORROW_SLOTS as int),
            ({
                let held = |l: ObligationLiquidity|
                    l.borrow_reserve != Pubkey::none() && l.borrowed_amount_sf > 0;
                &&& r@.len() == self.borrows@.filter(held).len()
                &&& forall|i: int|
                    0 <= i < 5 && (#[trigger] self.borrows@[i]).borrow_reserve != Pubkey::none()
                        && self.borrows@[i].borrowed_amount_sf > 0 ==> {
                        let at = self.borrows@.take(i).filter(held).len() as int;
                        &&& at < r@.len()
                        &&& stands_for(self.borrows_asset_tiers@[i], r@[at])
                    }
            }),
    {
        proof {
            law_borrow_tiers_by_slot(self@);
        }
        let none = Pubkey::default();
        let mut tiers: Vec<AssetTier> = Vec::new();
        let mut i: usize = 0;
        while i < 5
            invariant
                i <= 5,
                none == Pubkey::none(),
                self@.borrow_tiers_known(),
                tiers@ == borrow_tiers(self@.borrows, self@.borrows_asset_tiers, i as int),
            decreases 5 - i,
        {
            if self.borrows[i].borrow_reserve != none && self.borrows[i].borrowed_amount_sf > 0 {
                assert(self@.borrows[i as int].borrowed_amount_sf > 0);
                match AssetTier::from_code(self.borrows_asset_tiers[i]) {
                    Some(tier) => {
                        tiers.push(tier);
                    },
                    None => {
                        assert(false);
                    },
                }
            }
            i = i + 1;
        }
        tiers
    }

    /// The sum of all debts, rounded up to whole tokens, where at most one borrow
    /// slot is taken.
    pub fn get_borrowed_amount_if_single_token(&self) -> (r: Option<u64>)
        requires
            self@.borrow_count() <= 1 ==> borrowed_total(self@.borrows) <= u64::MAX * one_bits(),
        ensures
            r == self@.single_token_amount(),
            r is None <==> exists|i: int, j: int|
                0 <= i < j < 5 && (#[trigger] self.borrows@[i]).borrow_reserve != Pubkey::none()
                    && (#[trigger] self.borrows@[j]).borrow_reserve != Pubkey::none(),
            r matches Some(amount) ==> {
                let total = self.borrows@[0].borrowed_amount_sf
                    + self.borrows@[1].borrowed_amount_sf + self.borrows@[2].borrowed_amount_sf
                    + self.borrows@[3].borrowed_amount_sf + self.borrows@[4].borrowed_amount_sf;
                &&& total <= amount * 0x1000_0000_0000_0000
                &&& amount * 0x1000_0000_0000_0000 < total + 0x1000_0000_0000_0000
            },
    {
        proof {
            law_single_debt(self@);
            law_total_is_of_all_slots(self@);
        }
        if self.borrows_count() > 1 {
            return None;
        }
        let ghost borrows = self.borrows@;
        let mut total: u128 = 0;
        let mut i: usize = 0;
        while i < 5
            invariant
                i <= 5,
                borrows == self.borrows@,
                borrowed_total(borrows) <= u64::MAX * one_bits(),
                total == borrowed_total(borrows.take(i as int)),
            decreases 5 - i,
        {
            proof {
                assert(borrows.take(i + 1).drop_last() =~= borrows.take(i as int));
                lemma_borrowed_total_grows(borrows, i + 1);
            }
            total = total + self.borrows[i].borrowed_amount_sf;
            i = i + 1;
        }
        assert(borrows.take(5) =~= borrows);
        Some(Fraction::from_bits(total).to_ceil())
    }

    pub fn get_bf_adjusted_debt_value(&self) -> (r: Fraction)
        ensures
            r.bits == self.borrow_factor_adjusted_debt_value_sf,
    {
        Fraction::from_bits(self.borrow_factor_adjusted_debt_value_sf)
    }

    pub fn get_allowed_borrow_value(&self) -> (r: Fraction)
        ensures
            r.bits == self.allowed_borrow_value_sf,
    {
        Fraction::from_bits(self.allowed_borrow_value_sf)
    }

    pub fn get_unhealthy_borrow_value(&self) -> (r: Fraction)
        ensures
            r.bits == self.unhealthy_borrow_value_sf,
    {
        Fraction::from_bits(self.unhealthy_borrow_value_sf)
    }

    pub fn has_referrer(&self) -> (r: bool)
        ensures
            r == (self.referrer != Pubkey::none()),
    {
        self.referrer != Pubkey::default()
    }

    /// Brings the `has_debt` flag in line with the borrow slots.
    pub fn update_has_debt(&mut self)
        ensures
            final(self)@ == old(self)@.with_debt_flag(),
            final(self).has_debt == 0 <==> forall|i: int|
                0 <= i < 5 ==> (#[trigger] old(self).borrows@[i]).borrow_reserve == Pubkey::none(),
            final(self).has_debt <= 1,
            *final(self) == (Obligation { has_debt: final(self).has_debt, ..*old(self) }),
    {
        if self.borrows_empty() {
            self.has_debt = 0;
        } else {
            self.has_debt = 1;
        }
    }

    pub fn is_marked_for_deleveraging(&self) -> (r: bool)
        ensures
            r == self@.is_marked(),
            r <==> self.autodeleverage_margin_call_started_timestamp != 0,
    {
        self.autodeleverage_margin_call_started_timestamp != 0
    }

    /// Marks the obligation for deleveraging. The timestamp zero stands for an
    /// obligation that is not marked.
    pub fn mark_for_deleveraging(&mut self, current_timestamp: u64, target_ltv_pct: u8)
        requires
            current_timestamp != 0,
        ensures
            final(self)@ == old(self)@.with_mark(current_timestamp, target_ltv_pct),
            *final(self) == (Obligation {
                autodeleverage_margin_call_started_timestamp: current_timestamp,
                autodeleverage_target_ltv_pct: target_ltv_pct,
                ..*old(self)
            }),
    {
        self.autodeleverage_margin_call_started_timestamp = current_timestamp;
        self.autodeleverage_target_ltv_pct = target_ltv_pct;
    }

    /// Takes the mark for deleveraging off.
    pub fn unmark_for_deleveraging(&mut self)
        ensures
            final(self)@ == old(self)@.with_mark(0, 0),
            *final(self) == (Obligation {
                autodeleverage_margin_call_started_timestamp: 0,
                autodeleverage_target_ltv_pct: 0,
                ..*old(self)
            }),
    {
        self.autodeleverage_margin_call_started_timestamp = 0;
        self.autodeleverage_target_ltv_pct = 0;
    }

    /// Refuses an obligation that is marked for deleveraging.
    pub fn check_not_marked_for_deleveraging(&self) -> (r: Result<(), LendingError>)
        ensures
            r == (if self@.is_marked() {
                Err::<(), LendingError>(LendingError::ObligationCurrentlyMarkedForDeleveraging)
            } else {
                Ok(())
            }),
            r is Ok <==> self.autodeleverage_margin_call_started_timestamp == 0,
    {
        if self.is_marked_for_deleveraging() {
            return Err(LendingError::ObligationCurrentlyMarkedForDeleveraging);
        }
        Ok(())
    }
}

} // verus!
