//! The mathematical model of an obligation: its fields with the slots as
//! sequences, and what its operations mean on them.
use vstd::prelude::*;

use crate::collateral::ObligationCollateral;
use crate::fraction::ceil_of;
use crate::liquidity::ObligationLiquidity;
use crate::market::{AssetTier, LastUpdate, LtvMaxWithdrawalCheck};
use crate::market::{ELEVATION_GROUP_NONE, NO_ASSET_TIER};
use crate::pubkey::Pubkey;

verus! {

/// The number of deposit slots of an obligation.
pub const DEPOSIT_SLOTS: usize = 8;

/// The number of borrow slots of an obligation.
pub const BORROW_SLOTS: usize = 5;

/// The first slot that belongs to `reserve`, or the number of slots if none does.
pub open spec fn first_slot(reserves: Seq<Pubkey>, reserve: Pubkey) -> int
    decreases reserves.len(),
{
    if reserves.len() == 0 {
        0
    } else if reserves[0] == reserve {
        0
    } else {
        1 + first_slot(reserves.drop_first(), reserve)
    }
}

/// `first_slot` is the slot that belongs to `reserve` with none before it.
pub proof fn lemma_first_slot(reserves: Seq<Pubkey>, reserve: Pubkey)
    ensures
        0 <= first_slot(reserves, reserve) <= reserves.len(),
        forall|i: int|
            0 <= i < first_slot(reserves, reserve) ==> #[trigger] reserves[i] != reserve,
        first_slot(reserves, reserve) < reserves.len() ==> reserves[first_slot(reserves, reserve)]
            == reserve,
    decreases reserves.len(),
{
    if reserves.len() != 0 && reserves[0] != reserve {
        let rest = reserves.drop_first();
        lemma_first_slot(rest, reserve);
        assert forall|i: int| 0 <= i < first_slot(reserves, reserve) implies
            #[trigger] reserves[i] != reserve by {
            if i > 0 {
                assert(rest[i - 1] == reserves[i]);
            }
        }
    }
}

/// Only `first_slot` is a slot that belongs to `reserve` with none before it.
pub proof fn lemma_first_slot_unique(reserves: Seq<Pubkey>, reserve: Pubkey, slot: int)
    requires
        0 <= slot <= reserves.len(),
        forall|i: int| 0 <= i < slot ==> #[trigger] reserves[i] != reserve,
        slot < reserves.len() ==> reserves[slot] == reserve,
    ensures
        first_slot(reserves, reserve) == slot,
{
    lemma_first_slot(reserves, reserve);
    let first = first_slot(reserves, reserve);
    if first < slot {
        assert(reserves[first] != reserve);
    }
    if slot < first {
        assert(reserves[slot] != reserve);
    }
}

/// The sum of the debts of some slots.
pub open spec fn borrowed_total(borrows: Seq<ObligationLiquidity>) -> int
    decreases borrows.len(),
{
    if borrows.len() == 0 {
        0
    } else {
        borrowed_total(borrows.drop_last()) + borrows.last().borrowed_amount_sf
    }
}

/// The sum of the debts of the first `count` slots is at most that of all.
pub proof fn lemma_borrowed_total_grows(borrows: Seq<ObligationLiquidity>, count: int)
    requires
        0 <= count <= borrows.len(),
    ensures
        0 <= borrowed_total(borrows.take(count)) <= borrowed_total(borrows),
    decreases borrows.len(),
{
    if count == borrows.len() {
        assert(borrows.take(count) =~= borrows);
        if count > 0 {
            lemma_borrowed_total_grows(borrows.drop_last(), count - 1);
        }
    } else {
        lemma_borrowed_total_grows(borrows.drop_last(), count);
        assert(borrows.drop_last().take(count) =~= borrows.take(count));
    }
}

/// The tiers of the first `count` deposits that are not empty and not zero.
pub open spec fn deposit_tiers(
    deposits: Seq<ObligationCollateral>,
    codes: Seq<u8>,
    count: int,
) -> Seq<AssetTier>
    decreases count,
{
    if count <= 0 {
        Seq::empty()
    } else {
        let before = deposit_tiers(deposits, codes, count - 1);
        let deposit = deposits[count - 1];
        if !deposit.is_empty() && deposit.deposited_amount > 0 {
            before.push(AssetTier::of_code(codes[count - 1])->0)
        } else {
            before
        }
    }
}

/// The tiers of the first `count` borrows that are not empty and not zero.
pub open spec fn borrow_tiers(
    borrows: Seq<ObligationLiquidity>,
    codes: Seq<u8>,
    count: int,
) -> Seq<AssetTier>
    decreases count,
{
    if count <= 0 {
        Seq::empty()
    } else {
        let before = borrow_tiers(borrows, codes, count - 1);
        let borrow = borrows[count - 1];
        if !borrow.is_empty() && borrow.borrowed_amount_sf > 0 {
            before.push(AssetTier::of_code(codes[count - 1])->0)
        } else {
            before
        }
    }
}

/// All that an obligation holds.
#[verifier::ext_equal]
pub struct ObligationView {
    pub tag: u64,
    pub last_update: LastUpdate,
    pub lending_market: Pubkey,
    pub owner: Pubkey,
    pub deposits: Seq<ObligationCollateral>,
    pub lowest_reserve_deposit_liquidation_ltv: u64,
    pub deposited_value_sf: u128,
    pub borrows: Seq<ObligationLiquidity>,
    pub borrow_factor_adjusted_debt_value_sf: u128,
    pub borrowed_assets_market_value_sf: u128,
    pub allowed_borrow_value_sf: u128,
    pub unhealthy_borrow_value_sf: u128,
    pub deposits_asset_tiers: Seq<u8>,
    pub borrows_asset_tiers: Seq<u8>,
    pub elevation_group: u8,
    pub num_of_obsolete_reserves: u8,
    pub has_debt: u8,
    pub referrer: Pubkey,
    pub borrowing_disabled: u8,
    pub autodeleverage_target_ltv_pct: u8,
    pub lowest_reserve_deposit_max_ltv_pct: u8,
    pub reserved: Seq<u8>,
    pub highest_borrow_factor_pct: u64,
    pub autodeleverage_margin_call_started_timestamp: u64,
    pub padding_3: Seq<u64>,
}

impl ObligationView {
    /// An obligation with empty slots and nothing else set.
    pub open spec fn blank() -> ObligationView {
        ObligationView {
            tag: 0,
            last_update: LastUpdate::unset(),
            lending_market: Pubkey::none(),
            owner: Pubkey::none(),
            deposits: Seq::new(DEPOSIT_SLOTS as nat, |i: int| ObligationCollateral::empty()),
            lowest_reserve_deposit_liquidation_ltv: 0,
            deposited_value_sf: 0,
            borrows: Seq::new(BORROW_SLOTS as nat, |i: int| ObligationLiquidity::empty()),
            borrow_factor_adjusted_debt_value_sf: 0,
            borrowed_assets_market_value_sf: 0,
            allowed_borrow_value_sf: 0,
            unhealthy_borrow_value_sf: 0,
            deposits_asset_tiers: Seq::new(DEPOSIT_SLOTS as nat, |i: int| NO_ASSET_TIER),
            borrows_asset_tiers: Seq::new(BORROW_SLOTS as nat, |i: int| NO_ASSET_TIER),
            elevation_group: ELEVATION_GROUP_NONE,
            num_of_obsolete_reserves: 0,
            has_debt: 0,
            referrer: Pubkey::none(),
            borrowing_disabled: 0,
            autodeleverage_target_ltv_pct: 0,
            lowest_reserve_deposit_max_ltv_pct: 0,
            reserved: Seq::new(5, |i: int| 0u8),
            highest_borrow_factor_pct: 0,
            autodeleverage_margin_call_started_timestamp: 0,
            padding_3: Seq::new(125, |i: int| 0u64),
        }
    }

    /// There is a tier beside every slot.
    pub open spec fn has_all_slots(self) -> bool {
        &&& self.deposits.len() == DEPOSIT_SLOTS
        &&& self.deposits_asset_tiers.len() == DEPOSIT_SLOTS
        &&& self.borrows.len() == BORROW_SLOTS
        &&& self.borrows_asset_tiers.len() == BORROW_SLOTS
    }

    /// The reserve of each deposit slot.
    pub open spec fn deposit_reserves(self) -> Seq<Pubkey> {
        self.deposits.map_values(|c: ObligationCollateral| c.deposit_reserve)
    }

    /// The reserve of each borrow slot.
    pub open spec fn borrow_reserves(self) -> Seq<Pubkey> {
        self.borrows.map_values(|l: ObligationLiquidity| l.borrow_reserve)
    }

    /// The first deposit slot in `reserve`, or the number of slots if none is.
    pub open spec fn deposit_slot(self, reserve: Pubkey) -> int {
        first_slot(self.deposit_reserves(), reserve)
    }

    /// The first borrow slot from `reserve`, or the number of slots if none is.
    pub open spec fn borrow_slot(self, reserve: Pubkey) -> int {
        first_slot(self.borrow_reserves(), reserve)
    }

    /// Every deposit slot is empty.
    pub open spec fn no_deposits(self) -> bool {
        forall|i: int| 0 <= i < self.deposits.len() ==> (#[trigger] self.deposits[i]).is_empty()
    }

    /// Every borrow slot is empty.
    pub open spec fn no_borrows(self) -> bool {
        forall|i: int| 0 <= i < self.borrows.len() ==> (#[trigger] self.borrows[i]).is_empty()
    }

    /// How many deposit slots are not empty.
    pub open spec fn deposit_count(self) -> nat {
        self.deposits.filter(|c: ObligationCollateral| !c.is_empty()).len()
    }

    /// How many borrow slots are not empty.
    pub open spec fn borrow_count(self) -> nat {
        self.borrows.filter(|l: ObligationLiquidity| !l.is_empty()).len()
    }

    /// The obligation with another deposit in `slot`.
    pub open spec fn with_deposit(self, slot: int, deposit: ObligationCollateral) -> ObligationView {
        ObligationView { deposits: self.deposits.update(slot, deposit), ..self }
    }

    /// The obligation with another tier beside deposit `slot`.
    pub open spec fn with_deposit_tier(self, slot: int, code: u8) -> ObligationView {
        ObligationView {
            deposits_asset_tiers: self.deposits_asset_tiers.update(slot, code),
            ..self
        }
    }

    /// The obligation with another borrow in `slot`.
    pub open spec fn with_borrow(self, slot: int, borrow: ObligationLiquidity) -> ObligationView {
        ObligationView { borrows: self.borrows.update(slot, borrow), ..self }
    }

    /// The obligation with another tier beside borrow `slot`.
    pub open spec fn with_borrow_tier(self, slot: int, code: u8) -> ObligationView {
        ObligationView { borrows_asset_tiers: self.borrows_asset_tiers.update(slot, code), ..self }
    }

    /// The obligation with deposit `slot` emptied.
    pub open spec fn without_deposit(self, slot: int) -> ObligationView {
        self.with_deposit(slot, ObligationCollateral::empty()).with_deposit_tier(
            slot,
            NO_ASSET_TIER,
        )
    }

    /// The obligation with borrow `slot` emptied.
    pub open spec fn without_borrow(self, slot: int) -> ObligationView {
        self.with_borrow(slot, ObligationLiquidity::empty()).with_borrow_tier(slot, NO_ASSET_TIER)
    }

    /// The obligation after a repayment of `amount_sf` of the debt in `slot`.
    pub open spec fn repaid(self, amount_sf: u128, slot: int) -> ObligationView {
        let borrow = self.borrows[slot];
        if amount_sf == borrow.borrowed_amount_sf {
            self.without_borrow(slot)
        } else {
            self.with_borrow(
                slot,
                borrow.with_amount((borrow.borrowed_amount_sf - amount_sf) as u128),
            )
        }
    }

    /// The obligation after a withdrawal of `amount` of the deposit in `slot`.
    pub open spec fn withdrawn(self, amount: u64, slot: int) -> ObligationView {
        let deposit = self.deposits[slot];
        if amount == deposit.deposited_amount {
            self.without_deposit(slot)
        } else {
            self.with_deposit(
                slot,
                deposit.with_amount((deposit.deposited_amount - amount) as u64),
            )
        }
    }

    /// The borrow value that a withdrawal must stay within.
    pub open spec fn withdrawal_limit(self, check: LtvMaxWithdrawalCheck) -> int {
        if check == LtvMaxWithdrawalCheck::LiquidationThreshold {
            if self.unhealthy_borrow_value_sf == 0 {
                0
            } else {
                self.unhealthy_borrow_value_sf - 1
            }
        } else {
            self.allowed_borrow_value_sf as int
        }
    }

    /// What of that limit the debt leaves.
    pub open spec fn withdrawal_room(self, check: LtvMaxWithdrawalCheck) -> int {
        self.withdrawal_limit(check) - self.borrow_factor_adjusted_debt_value_sf
    }

    /// The value of a collateral, `market_value_sf` in all, that can leave the
    /// obligation when each of its units supports `ltv_pct` percent of debt.
    pub open spec fn max_withdraw_value_sf(
        self,
        market_value_sf: u128,
        ltv_pct: u8,
        check: LtvMaxWithdrawalCheck,
    ) -> int {
        if self.withdrawal_room(check) <= 0 {
            0
        } else if ltv_pct == 0 {
            market_value_sf as int
        } else {
            self.withdrawal_room(check) * 100 / (ltv_pct as int)
        }
    }

    /// The value that can still be borrowed.
    pub open spec fn remaining_borrow_value_sf(self) -> int {
        if self.borrow_factor_adjusted_debt_value_sf <= self.allowed_borrow_value_sf {
            self.allowed_borrow_value_sf - self.borrow_factor_adjusted_debt_value_sf
        } else {
            0
        }
    }

    /// The sum of all debts, rounded up to whole tokens, where at most one slot is
    /// taken.
    pub open spec fn single_token_amount(self) -> Option<u64> {
        if self.borrow_count() > 1 {
            None
        } else {
            Some(ceil_of(borrowed_total(self.borrows) as u128) as u64)
        }
    }

    /// Beside every deposit that holds something stands the code of a tier.
    pub open spec fn deposit_tiers_known(self) -> bool {
        forall|i: int|
            0 <= i < self.deposits.len() && !(#[trigger] self.deposits[i]).is_empty()
                && self.deposits[i].deposited_amount > 0 ==> AssetTier::of_code(
                self.deposits_asset_tiers[i],
            ) is Some
    }

    /// Beside every borrow that holds something stands the code of a tier.
    pub open spec fn borrow_tiers_known(self) -> bool {
        forall|i: int|
            0 <= i < self.borrows.len() && !(#[trigger] self.borrows[i]).is_empty()
                && self.borrows[i].borrowed_amount_sf > 0 ==> AssetTier::of_code(
                self.borrows_asset_tiers[i],
            ) is Some
    }

    /// The obligation is marked for deleveraging.
    pub open spec fn is_marked(self) -> bool {
        self.autodeleverage_margin_call_started_timestamp != 0
    }

    /// The obligation marked at `timestamp` with a target, or unmarked by zeros.
    pub open spec fn with_mark(self, timestamp: u64, target_ltv_pct: u8) -> ObligationView {
        ObligationView {
            autodeleverage_margin_call_started_timestamp: timestamp,
            autodeleverage_target_ltv_pct: target_ltv_pct,
            ..self
        }
    }

    /// The obligation with `has_debt` brought up to date.
    pub open spec fn with_debt_flag(self) -> ObligationView {
        ObligationView {
            has_debt: if self.no_borrows() {
                0
            } else {
                1
            },
            ..self
        }
    }
}

} // verus!
