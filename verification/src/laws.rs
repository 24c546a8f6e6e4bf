//! What holds of obligations as a whole, across their operations.
use vstd::arithmetic::div_mod::{lemma_div_is_ordered, lemma_fundamental_div_mod};
use vstd::prelude::*;

use crate::big_fraction::BigFraction;
use crate::collateral::ObligationCollateral;
use crate::error::LendingError;
use crate::fraction::{ceil_of, one_bits, quotient_bits};
use crate::lines::{lemma_borrow_lines, lemma_deposit_lines, lemma_headline};
use crate::lines::{lemma_line_breaks_add, lemma_one_line, line_breaks};
use crate::liquidity::{accrued_amount, ObligationLiquidity};
use crate::market::{AssetTier, LtvMaxWithdrawalCheck, NO_ASSET_TIER};
use crate::model::{borrow_tiers, borrowed_total, deposit_tiers, lemma_borrowed_total_grows};
use crate::model::{lemma_first_slot, lemma_first_slot_unique};
use crate::model::{ObligationView, BORROW_SLOTS, DEPOSIT_SLOTS};
use crate::obligation::{InitObligationParams, Obligation};
use crate::pubkey::Pubkey;
use crate::summary::{borrow_lines, deposit_lines, line_on_borrow, line_on_deposit};

verus! {

impl ObligationView {
    /// Deposit slots and tiers agree: an empty slot is blank and has no tier, a
    /// taken slot has a tier, and no two taken slots share a reserve.
    pub open spec fn deposits_in_order(self) -> bool {
        &&& self.deposits.len() == DEPOSIT_SLOTS
        &&& self.deposits_asset_tiers.len() == DEPOSIT_SLOTS
        &&& forall|i: int|
            0 <= i < DEPOSIT_SLOTS && (#[trigger] self.deposits[i]).is_empty() ==> {
                &&& self.deposits[i] == ObligationCollateral::empty()
                &&& self.deposits_asset_tiers[i] == NO_ASSET_TIER
            }
        &&& forall|i: int|
            0 <= i < DEPOSIT_SLOTS && !(#[trigger] self.deposits[i]).is_empty()
                ==> AssetTier::of_code(self.deposits_asset_tiers[i]) is Some
        &&& forall|i: int, j: int|
            0 <= i < j < DEPOSIT_SLOTS && !(#[trigger] self.deposits[i]).is_empty()
                ==> self.deposits[i].deposit_reserve != (#[trigger] self.deposits[j]).deposit_reserve
    }

    /// The same of borrow slots.
    pub open spec fn borrows_in_order(self) -> bool {
        &&& self.borrows.len() == BORROW_SLOTS
        &&& self.borrows_asset_tiers.len() == BORROW_SLOTS
        &&& forall|i: int|
            0 <= i < BORROW_SLOTS && (#[trigger] self.borrows[i]).is_empty() ==> {
                &&& self.borrows[i] == ObligationLiquidity::empty()
                &&& self.borrows_asset_tiers[i] == NO_ASSET_TIER
            }
        &&& forall|i: int|
            0 <= i < BORROW_SLOTS && !(#[trigger] self.borrows[i]).is_empty()
                ==> AssetTier::of_code(self.borrows_asset_tiers[i]) is Some
        &&& forall|i: int, j: int|
            0 <= i < j < BORROW_SLOTS && !(#[trigger] self.borrows[i]).is_empty()
                ==> self.borrows[i].borrow_reserve != (#[trigger] self.borrows[j]).borrow_reserve
    }

    /// All slots and tiers agree.
    pub open spec fn in_order(self) -> bool {
        self.deposits_in_order() && self.borrows_in_order()
    }
}

// Slots.

/// Every obligation has all its slots, with a tier beside each.
pub proof fn law_has_all_slots(o: Obligation)
    ensures
        o@.has_all_slots(),
{
}

/// A new obligation without deposits and borrows is in order.
pub proof fn law_started_in_order(params: InitObligationParams)
    requires
        forall|i: int|
            0 <= i < DEPOSIT_SLOTS ==> #[trigger] params.deposits@[i]
                == ObligationCollateral::empty(),
        forall|i: int|
            0 <= i < BORROW_SLOTS ==> #[trigger] params.borrows@[i] == ObligationLiquidity::empty(),
    ensures
        params.started().in_order(),
        ObligationView::blank().in_order(),
{
}

/// A withdrawal keeps an obligation in order.
pub proof fn law_withdrawal_keeps_order(o: ObligationView, amount: u64, slot: int)
    requires
        o.in_order(),
        0 <= slot < DEPOSIT_SLOTS,
        amount <= o.deposits[slot].deposited_amount,
    ensures
        o.withdrawn(amount, slot).in_order(),
{
}

/// A repayment keeps an obligation in order.
pub proof fn law_repayment_keeps_order(o: ObligationView, amount_sf: u128, slot: int)
    requires
        o.in_order(),
        0 <= slot < BORROW_SLOTS,
        amount_sf <= o.borrows[slot].borrowed_amount_sf,
    ensures
        o.repaid(amount_sf, slot).in_order(),
{
}

/// Taking the first empty deposit slot for a reserve that has none makes one
/// deposit more, and the reserve is found in that slot from then on. It keeps an
/// obligation in order that was.
pub proof fn law_opened_deposit(
    o: ObligationView,
    deposit: ObligationCollateral,
    tier: AssetTier,
)
    requires
        o.has_all_slots(),
        !deposit.is_empty(),
        o.deposit_slot(deposit.deposit_reserve) == DEPOSIT_SLOTS,
        o.deposit_slot(Pubkey::none()) < DEPOSIT_SLOTS,
    ensures
        ({
            let slot = o.deposit_slot(Pubkey::none());
            let next = o.with_deposit(slot, deposit).with_deposit_tier(slot, tier.code());
            &&& o.in_order() ==> next.in_order()
            &&& next.deposit_slot(deposit.deposit_reserve) == slot
            &&& next.deposits[slot] == deposit
            &&& AssetTier::of_code(next.deposits_asset_tiers[slot]) == Some(tier)
            &&& next.deposit_count() == o.deposit_count() + 1
        }),
{
    let slot = o.deposit_slot(Pubkey::none());
    let reserves = o.deposit_reserves();
    lemma_first_slot(reserves, Pubkey::none());
    lemma_first_slot(reserves, deposit.deposit_reserve);
    assert forall|i: int| 0 <= i < DEPOSIT_SLOTS implies (#[trigger] o.deposits[i]).deposit_reserve
        != deposit.deposit_reserve by {
        assert(reserves[i] == o.deposits[i].deposit_reserve);
    }
    let next = o.with_deposit(slot, deposit).with_deposit_tier(slot, tier.code());
    let next_reserves = next.deposit_reserves();
    assert forall|i: int| 0 <= i < slot implies #[trigger] next_reserves[i]
        != deposit.deposit_reserve by {
        assert(next_reserves[i] == o.deposits[i].deposit_reserve);
    }
    lemma_first_slot_unique(next_reserves, deposit.deposit_reserve, slot);
    assert(reserves[slot] == o.deposits[slot].deposit_reserve);
    lemma_filter_update(
        o.deposits,
        |c: ObligationCollateral| !c.is_empty(),
        slot,
        deposit,
    );
}

/// Taking the first empty borrow slot for a reserve that has none makes one
/// borrow more, and the reserve is found in that slot from then on. It keeps an
/// obligation in order that was.
pub proof fn law_opened_borrow(o: ObligationView, borrow: ObligationLiquidity, tier: AssetTier)
    requires
        o.has_all_slots(),
        !borrow.is_empty(),
        o.borrow_slot(borrow.borrow_reserve) == BORROW_SLOTS,
        o.borrow_slot(Pubkey::none()) < BORROW_SLOTS,
    ensures
        ({
            let slot = o.borrow_slot(Pubkey::none());
            let next = o.with_borrow(slot, borrow).with_borrow_tier(slot, tier.code());
            &&& o.in_order() ==> next.in_order()
            &&& next.borrow_slot(borrow.borrow_reserve) == slot
            &&& next.borrows[slot] == borrow
            &&& AssetTier::of_code(next.borrows_asset_tiers[slot]) == Some(tier)
            &&& next.borrow_count() == o.borrow_count() + 1
        }),
{
    let slot = o.borrow_slot(Pubkey::none());
    let reserves = o.borrow_reserves();
    lemma_first_slot(reserves, Pubkey::none());
    lemma_first_slot(reserves, borrow.borrow_reserve);
    assert forall|i: int| 0 <= i < BORROW_SLOTS implies (#[trigger] o.borrows[i]).borrow_reserve
        != borrow.borrow_reserve by {
        assert(reserves[i] == o.borrows[i].borrow_reserve);
    }
    let next = o.with_borrow(slot, borrow).with_borrow_tier(slot, tier.code());
    let next_reserves = next.borrow_reserves();
    assert forall|i: int| 0 <= i < slot implies #[trigger] next_reserves[i]
        != borrow.borrow_reserve by {
        assert(next_reserves[i] == o.borrows[i].borrow_reserve);
    }
    lemma_first_slot_unique(next_reserves, borrow.borrow_reserve, slot);
    assert(reserves[slot] == o.borrows[slot].borrow_reserve);
    lemma_filter_update(o.borrows, |l: ObligationLiquidity| !l.is_empty(), slot, borrow);
}

/// Changing a taken deposit slot without its reserve keeps the reserves of all slots
/// as they are, and so the number of deposits. It keeps an obligation in order that
/// was.
pub proof fn law_changed_deposit(o: ObligationView, slot: int, deposit: ObligationCollateral)
    requires
        o.has_all_slots(),
        0 <= slot < DEPOSIT_SLOTS,
        !deposit.is_empty(),
        deposit.deposit_reserve == o.deposits[slot].deposit_reserve,
    ensures
        o.in_order() ==> o.with_deposit(slot, deposit).in_order(),
        o.with_deposit(slot, deposit).deposit_reserves() == o.deposit_reserves(),
        o.with_deposit(slot, deposit).deposit_count() == o.deposit_count(),
{
    assert(o.with_deposit(slot, deposit).deposit_reserves() =~= o.deposit_reserves());
    lemma_filter_update(
        o.deposits,
        |c: ObligationCollateral| !c.is_empty(),
        slot,
        deposit,
    );
}

/// Changing a taken borrow slot without its reserve keeps the reserves of all slots
/// as they are, and so the number of borrows. It keeps an obligation in order that
/// was.
pub proof fn law_changed_borrow(o: ObligationView, slot: int, borrow: ObligationLiquidity)
    requires
        o.has_all_slots(),
        0 <= slot < BORROW_SLOTS,
        !borrow.is_empty(),
        borrow.borrow_reserve == o.borrows[slot].borrow_reserve,
    ensures
        o.in_order() ==> o.with_borrow(slot, borrow).in_order(),
        o.with_borrow(slot, borrow).borrow_reserves() == o.borrow_reserves(),
        o.with_borrow(slot, borrow).borrow_count() == o.borrow_count(),
{
    assert(o.with_borrow(slot, borrow).borrow_reserves() =~= o.borrow_reserves());
    lemma_filter_update(o.borrows, |l: ObligationLiquidity| !l.is_empty(), slot, borrow);
}

/// Marks and flags leave the slots, and so their order, as they are.
pub proof fn law_marks_keep_order(o: ObligationView, timestamp: u64, target_ltv_pct: u8)
    requires
        o.in_order(),
    ensures
        o.with_mark(timestamp, target_ltv_pct).in_order(),
        o.with_debt_flag().in_order(),
{
}

/// In an obligation in order the tiers of all that it holds can be read.
pub proof fn law_order_gives_tiers(o: ObligationView)
    requires
        o.in_order(),
    ensures
        o.deposit_tiers_known(),
        o.borrow_tiers_known(),
{
}

/// In an obligation in order a taken deposit slot is the one, and the only one,
/// that its reserve is found in.
pub proof fn law_deposit_found_in_its_slot(o: ObligationView, slot: int)
    requires
        o.in_order(),
        0 <= slot < DEPOSIT_SLOTS,
        !o.deposits[slot].is_empty(),
    ensures
        o.deposit_slot(o.deposits[slot].deposit_reserve) == slot,
        !o.no_deposits(),
{
    let reserve = o.deposits[slot].deposit_reserve;
    let reserves = o.deposit_reserves();
    assert forall|i: int| 0 <= i < slot implies #[trigger] reserves[i] != reserve by {
        assert(reserves[i] == o.deposits[i].deposit_reserve);
    }
    lemma_first_slot_unique(reserves, reserve, slot);
}

/// In an obligation in order a taken borrow slot is the one, and the only one,
/// that its reserve is found in.
pub proof fn law_borrow_found_in_its_slot(o: ObligationView, slot: int)
    requires
        o.in_order(),
        0 <= slot < BORROW_SLOTS,
        !o.borrows[slot].is_empty(),
    ensures
        o.borrow_slot(o.borrows[slot].borrow_reserve) == slot,
        !o.no_borrows(),
{
    let reserve = o.borrows[slot].borrow_reserve;
    let reserves = o.borrow_reserves();
    assert forall|i: int| 0 <= i < slot implies #[trigger] reserves[i] != reserve by {
        assert(reserves[i] == o.borrows[i].borrow_reserve);
    }
    lemma_first_slot_unique(reserves, reserve, slot);
}

/// The tiers read from the deposits are those, and only those, that stand
/// beside a deposit that holds something.
pub proof fn law_tiers_of_deposits(o: ObligationView, tier: AssetTier)
    requires
        o.has_all_slots(),
        o.deposit_tiers_known(),
    ensures
        deposit_tiers(o.deposits, o.deposits_asset_tiers, DEPOSIT_SLOTS as int).contains(tier)
            <==> exists|i: int|
            0 <= i < DEPOSIT_SLOTS && !(#[trigger] o.deposits[i]).is_empty()
                && o.deposits[i].deposited_amount > 0 && AssetTier::of_code(
                o.deposits_asset_tiers[i],
            ) == Some(tier),
{
    lemma_deposit_tiers(o.deposits, o.deposits_asset_tiers, DEPOSIT_SLOTS as int, tier);
}

/// The tiers read from the borrows are those, and only those, that stand beside
/// a borrow that holds something.
pub proof fn law_tiers_of_borrows(o: ObligationView, tier: AssetTier)
    requires
        o.has_all_slots(),
        o.borrow_tiers_known(),
    ensures
        borrow_tiers(o.borrows, o.borrows_asset_tiers, BORROW_SLOTS as int).contains(tier)
            <==> exists|i: int|
            0 <= i < BORROW_SLOTS && !(#[trigger] o.borrows[i]).is_empty()
                && o.borrows[i].borrowed_amount_sf > 0 && AssetTier::of_code(
                o.borrows_asset_tiers[i],
            ) == Some(tier),
{
    lemma_borrow_tiers(o.borrows, o.borrows_asset_tiers, BORROW_SLOTS as int, tier);
}

// Counts.

/// The number of deposits is at most that of slots, and zero exactly if every
/// slot is empty.
pub proof fn law_deposit_count(o: ObligationView)
    ensures
        o.deposit_count() <= o.deposits.len(),
        o.deposit_count() == 0 <==> o.no_deposits(),
{
    lemma_filter_none(o.deposits, |c: ObligationCollateral| !c.is_empty());
}

/// The number of borrows is at most that of slots, and zero exactly if every
/// slot is empty.
pub proof fn law_borrow_count(o: ObligationView)
    ensures
        o.borrow_count() <= o.borrows.len(),
        o.borrow_count() == 0 <==> o.no_borrows(),
{
    lemma_filter_none(o.borrows, |l: ObligationLiquidity| !l.is_empty());
}

/// No deposit slot is empty exactly if as many are taken as there are.
pub proof fn law_deposits_full(o: ObligationView)
    requires
        o.has_all_slots(),
    ensures
        o.deposit_slot(Pubkey::none()) == DEPOSIT_SLOTS <==> o.deposit_count() == DEPOSIT_SLOTS,
{
    let reserves = o.deposit_reserves();
    lemma_first_slot(reserves, Pubkey::none());
    lemma_filter_all(o.deposits, |c: ObligationCollateral| !c.is_empty());
    assert(forall|i: int|
        0 <= i < DEPOSIT_SLOTS ==> #[trigger] reserves[i] == o.deposits[i].deposit_reserve);
    if o.deposit_slot(Pubkey::none()) == DEPOSIT_SLOTS {
        assert forall|i: int| 0 <= i < DEPOSIT_SLOTS implies !(#[trigger] o.deposits[i]).is_empty() by {
            assert(reserves[i] != Pubkey::none());
        }
    } else {
        assert(o.deposits[o.deposit_slot(Pubkey::none())].is_empty());
    }
}

/// No borrow slot is empty exactly if as many are taken as there are.
pub proof fn law_borrows_full(o: ObligationView)
    requires
        o.has_all_slots(),
    ensures
        o.borrow_slot(Pubkey::none()) == BORROW_SLOTS <==> o.borrow_count() == BORROW_SLOTS,
{
    let reserves = o.borrow_reserves();
    lemma_first_slot(reserves, Pubkey::none());
    lemma_filter_all(o.borrows, |l: ObligationLiquidity| !l.is_empty());
    assert(forall|i: int|
        0 <= i < BORROW_SLOTS ==> #[trigger] reserves[i] == o.borrows[i].borrow_reserve);
    if o.borrow_slot(Pubkey::none()) == BORROW_SLOTS {
        assert forall|i: int| 0 <= i < BORROW_SLOTS implies !(#[trigger] o.borrows[i]).is_empty() by {
            assert(reserves[i] != Pubkey::none());
        }
    } else {
        assert(o.borrows[o.borrow_slot(Pubkey::none())].is_empty());
    }
}

/// A withdrawal from a taken slot takes one off the number of deposits if it
/// is of all, and leaves the number if it is of a part.
pub proof fn law_withdrawal_count(o: ObligationView, amount: u64, slot: int)
    requires
        0 <= slot < o.deposits.len(),
        !o.deposits[slot].is_empty(),
        amount <= o.deposits[slot].deposited_amount,
    ensures
        o.withdrawn(amount, slot).deposit_count() == if amount
            == o.deposits[slot].deposited_amount {
            o.deposit_count() - 1
        } else {
            o.deposit_count() as int
        },
{
    lemma_filter_update(
        o.deposits,
        |c: ObligationCollateral| !c.is_empty(),
        slot,
        o.withdrawn(amount, slot).deposits[slot],
    );
}

/// A repayment to a taken slot takes one off the number of borrows if it is of
/// all, and leaves the number if it is of a part.
pub proof fn law_repayment_count(o: ObligationView, amount_sf: u128, slot: int)
    requires
        0 <= slot < o.borrows.len(),
        !o.borrows[slot].is_empty(),
        amount_sf <= o.borrows[slot].borrowed_amount_sf,
    ensures
        o.repaid(amount_sf, slot).borrow_count() == if amount_sf
            == o.borrows[slot].borrowed_amount_sf {
            o.borrow_count() - 1
        } else {
            o.borrow_count() as int
        },
{
    lemma_filter_update(
        o.borrows,
        |l: ObligationLiquidity| !l.is_empty(),
        slot,
        o.repaid(amount_sf, slot).borrows[slot],
    );
}

// Amounts.

/// Withdrawing in two parts does what withdrawing at once does.
pub proof fn law_withdrawals_add_up(o: ObligationView, first: u64, second: u64, slot: int)
    requires
        o.has_all_slots(),
        0 <= slot < DEPOSIT_SLOTS,
        first + second <= o.deposits[slot].deposited_amount,
    ensures
        o.withdrawn(first, slot).withdrawn(second, slot) == o.withdrawn(
            (first + second) as u64,
            slot,
        ),
{
    assert(o.withdrawn(first, slot).withdrawn(second, slot) =~= o.withdrawn(
        (first + second) as u64,
        slot,
    ));
}

/// Repaying in two parts does what repaying at once does.
pub proof fn law_repayments_add_up(o: ObligationView, first: u128, second: u128, slot: int)
    requires
        o.has_all_slots(),
        0 <= slot < BORROW_SLOTS,
        first + second <= o.borrows[slot].borrowed_amount_sf,
    ensures
        o.repaid(first, slot).repaid(second, slot) == o.repaid((first + second) as u128, slot),
{
    assert(o.repaid(first, slot).repaid(second, slot) =~= o.repaid(
        (first + second) as u128,
        slot,
    ));
}

/// A withdrawal changes one deposit slot and nothing else.
pub proof fn law_withdrawal_touches_one_slot(o: ObligationView, amount: u64, slot: int)
    requires
        o.has_all_slots(),
        0 <= slot < DEPOSIT_SLOTS,
    ensures
        forall|i: int|
            0 <= i < o.deposits.len() && i != slot ==> #[trigger] o.withdrawn(
                amount,
                slot,
            ).deposits[i] == o.deposits[i],
        forall|i: int|
            0 <= i < o.deposits_asset_tiers.len() && i != slot ==> #[trigger] o.withdrawn(
                amount,
                slot,
            ).deposits_asset_tiers[i] == o.deposits_asset_tiers[i],
        o.withdrawn(amount, slot) == (ObligationView {
            deposits: o.withdrawn(amount, slot).deposits,
            deposits_asset_tiers: o.withdrawn(amount, slot).deposits_asset_tiers,
            ..o
        }),
{
}

/// A repayment changes one borrow slot and nothing else.
pub proof fn law_repayment_touches_one_slot(o: ObligationView, amount_sf: u128, slot: int)
    requires
        o.has_all_slots(),
        0 <= slot < BORROW_SLOTS,
    ensures
        forall|i: int|
            0 <= i < o.borrows.len() && i != slot ==> #[trigger] o.repaid(
                amount_sf,
                slot,
            ).borrows[i] == o.borrows[i],
        forall|i: int|
            0 <= i < o.borrows_asset_tiers.len() && i != slot ==> #[trigger] o.repaid(
                amount_sf,
                slot,
            ).borrows_asset_tiers[i] == o.borrows_asset_tiers[i],
        o.repaid(amount_sf, slot) == (ObligationView {
            borrows: o.repaid(amount_sf, slot).borrows,
            borrows_asset_tiers: o.repaid(amount_sf, slot).borrows_asset_tiers,
            ..o
        }),
{
}

/// Withdrawing what was deposited restores the deposit.
pub proof fn law_deposit_then_withdraw(c: ObligationCollateral, amount: u64)
    requires
        c.after_deposit(amount) is Ok,
    ensures
        c.after_deposit(amount)->Ok_0.after_withdrawal(amount) == Ok::<
            ObligationCollateral,
            LendingError,
        >(c),
{
}

/// Depositing what was withdrawn restores the deposit.
pub proof fn law_withdraw_then_deposit(c: ObligationCollateral, amount: u64)
    requires
        c.after_withdrawal(amount) is Ok,
    ensures
        c.after_withdrawal(amount)->Ok_0.after_deposit(amount) == Ok::<
            ObligationCollateral,
            LendingError,
        >(c),
{
}

/// Repaying what was borrowed restores the debt.
pub proof fn law_borrow_then_repay(l: ObligationLiquidity, amount_sf: u128)
    requires
        l.borrowed_amount_sf + amount_sf <= u128::MAX,
    ensures
        ({
            let borrowed = l.with_amount((l.borrowed_amount_sf + amount_sf) as u128);
            borrowed.with_amount((borrowed.borrowed_amount_sf - amount_sf) as u128) == l
        }),
{
}

/// The whole tokens that are asked for a single debt cover it, and by less than
/// one token more.
pub proof fn law_single_token_amount_covers_debt(o: ObligationView)
    requires
        o.borrow_count() <= 1,
        borrowed_total(o.borrows) <= u64::MAX * one_bits(),
    ensures
        o.single_token_amount() is Some,
        borrowed_total(o.borrows) <= o.single_token_amount()->0 * one_bits()
            < borrowed_total(o.borrows) + one_bits(),
{
    lemma_borrowed_total_grows(o.borrows, 0);
}

/// In an obligation in order with one borrow the single debt is that borrow's.
pub proof fn law_single_token_amount_is_of_the_borrow(o: ObligationView, slot: int)
    requires
        o.in_order(),
        o.borrow_count() == 1,
        0 <= slot < BORROW_SLOTS,
        !o.borrows[slot].is_empty(),
    ensures
        borrowed_total(o.borrows) == o.borrows[slot].borrowed_amount_sf,
        o.single_token_amount() == Some(ceil_of(o.borrows[slot].borrowed_amount_sf) as u64),
{
    let taken = |l: ObligationLiquidity| !l.is_empty();
    let cleared = o.borrows.update(slot, ObligationLiquidity::empty());
    lemma_filter_update(o.borrows, taken, slot, ObligationLiquidity::empty());
    lemma_filter_none(cleared, taken);
    assert forall|i: int| 0 <= i < cleared.len() implies (
    #[trigger] cleared[i]).borrowed_amount_sf == 0 by {
        assert(!taken(cleared[i]));
        if i != slot {
            assert(cleared[i] == o.borrows[i]);
        }
    }
    lemma_total_of_zeros(cleared);
    lemma_total_update(o.borrows, slot, ObligationLiquidity::empty());
}

// Limits.

/// What can be withdrawn leaves the debt within the limit, and a bit more would
/// not.
pub proof fn law_max_withdrawal_is_the_limit(
    o: ObligationView,
    market_value_sf: u128,
    ltv_pct: u8,
    check: LtvMaxWithdrawalCheck,
)
    requires
        ltv_pct != 0,
        o.withdrawal_room(check) >= 0,
    ensures
        ({
            let value = o.max_withdraw_value_sf(market_value_sf, ltv_pct, check);
            let debt = o.borrow_factor_adjusted_debt_value_sf as int;
            &&& 0 <= value
            &&& debt * 100 + value * ltv_pct <= o.withdrawal_limit(check) * 100
            &&& debt * 100 + (value + 1) * ltv_pct > o.withdrawal_limit(check) * 100
        }),
{
    let room = o.withdrawal_room(check);
    let value = o.max_withdraw_value_sf(market_value_sf, ltv_pct, check);
    let pct = ltv_pct as int;
    assert(0int / pct == 0) by (nonlinear_arith)
        requires
            pct > 0,
    ;
    assert(value == room * 100 / pct);
    lemma_fundamental_div_mod(room * 100, pct);
    assert(0 <= value) by (nonlinear_arith)
        requires
            value == room * 100 / pct,
            room >= 0,
            pct > 0,
    ;
    assert((value + 1) * pct == value * pct + pct) by (nonlinear_arith);
    assert(pct * value == value * pct) by (nonlinear_arith);
}

/// What can be withdrawn under the liquidation threshold leaves the debt below
/// the value at which liquidation starts.
pub proof fn law_max_withdrawal_stays_healthy(
    o: ObligationView,
    market_value_sf: u128,
    ltv_pct: u8,
)
    requires
        ltv_pct != 0,
        o.borrow_factor_adjusted_debt_value_sf < o.unhealthy_borrow_value_sf,
    ensures
        o.borrow_factor_adjusted_debt_value_sf * 100 + o.max_withdraw_value_sf(
            market_value_sf,
            ltv_pct,
            LtvMaxWithdrawalCheck::LiquidationThreshold,
        ) * ltv_pct < o.unhealthy_borrow_value_sf * 100,
{
    law_max_withdrawal_is_the_limit(
        o,
        market_value_sf,
        ltv_pct,
        LtvMaxWithdrawalCheck::LiquidationThreshold,
    );
}

/// Nothing can be withdrawn once the debt has reached the limit.
pub proof fn law_no_withdrawal_over_the_limit(
    o: ObligationView,
    market_value_sf: u128,
    ltv_pct: u8,
    check: LtvMaxWithdrawalCheck,
)
    requires
        o.withdrawal_limit(check) <= o.borrow_factor_adjusted_debt_value_sf,
    ensures
        o.max_withdraw_value_sf(market_value_sf, ltv_pct, check) == 0,
{
}

/// Borrowing the remaining value brings the debt to what is allowed, and leaves
/// nothing to borrow.
pub proof fn law_remaining_borrow_value(o: ObligationView)
    requires
        o.borrow_factor_adjusted_debt_value_sf <= o.allowed_borrow_value_sf,
    ensures
        o.borrow_factor_adjusted_debt_value_sf + o.remaining_borrow_value_sf()
            == o.allowed_borrow_value_sf,
        (ObligationView {
            borrow_factor_adjusted_debt_value_sf: o.allowed_borrow_value_sf,
            ..o
        }).remaining_borrow_value_sf() == 0,
{
}

/// Over the same deposits a greater value gives no smaller ratio. So a debt
/// below the value at which liquidation starts has no greater loan-to-value.
pub proof fn law_ratio_is_monotone(smaller: u128, greater: u128, deposited: u128)
    requires
        deposited != 0,
        smaller <= greater,
    ensures
        quotient_bits(smaller, deposited) <= quotient_bits(greater, deposited),
{
    lemma_div_is_ordered(smaller * one_bits(), greater * one_bits(), deposited as int);
}

/// A ratio times the deposits is the value again, short by less than one bit of
/// the ratio.
pub proof fn law_ratio_rounds_down(value: u128, deposited: u128)
    requires
        deposited != 0,
    ensures
        quotient_bits(value, deposited) * deposited <= value * one_bits() < (quotient_bits(
            value,
            deposited,
        ) + 1) * deposited,
{
    let q = quotient_bits(value, deposited);
    let d = deposited as int;
    lemma_fundamental_div_mod(value * one_bits(), d);
    assert(d * q == q * d) by (nonlinear_arith);
    assert((q + 1) * d == q * d + d) by (nonlinear_arith);
}

// Interest.

/// Interest never lowers a debt.
pub proof fn law_interest_is_not_negative(amount: int, former_rate: int, new_rate: int)
    requires
        0 <= amount,
        0 < former_rate <= new_rate,
    ensures
        amount <= accrued_amount(amount, former_rate, new_rate),
{
    assert(amount * former_rate <= amount * new_rate) by (nonlinear_arith)
        requires
            0 <= amount,
            former_rate <= new_rate,
    ;
    lemma_div_is_ordered(amount * former_rate, amount * new_rate, former_rate);
    vstd::arithmetic::div_mod::lemma_div_by_multiple(amount, former_rate);
}

/// A debt of nothing bears no interest, and a greater debt or a greater rate
/// leads to no smaller debt.
pub proof fn law_interest_is_monotone(
    amount: int,
    greater_amount: int,
    former_rate: int,
    new_rate: int,
    greater_rate: int,
)
    requires
        0 <= amount <= greater_amount,
        0 < former_rate,
        0 <= new_rate <= greater_rate,
    ensures
        accrued_amount(0, former_rate, new_rate) == 0,
        accrued_amount(amount, former_rate, new_rate) <= accrued_amount(
            greater_amount,
            former_rate,
            greater_rate,
        ),
{
    assert(0 * new_rate == 0) by (nonlinear_arith);
    assert(0int / former_rate == 0) by (nonlinear_arith)
        requires
            0 < former_rate,
    ;
    assert(amount * new_rate <= greater_amount * greater_rate) by (nonlinear_arith)
        requires
            0 <= amount <= greater_amount,
            0 <= new_rate <= greater_rate,
    ;
    lemma_div_is_ordered(amount * new_rate, greater_amount * greater_rate, former_rate);
}

/// Interest taken in two steps comes to no more than interest taken at once:
/// rounding is in favour of the debtor. What it falls short by is less than the
/// last rate over the middle rate, plus one.
pub proof fn law_interest_in_steps(amount: int, rate: int, middle_rate: int, last_rate: int)
    requires
        0 <= amount,
        0 < rate,
        0 < middle_rate,
        0 <= last_rate,
    ensures
        accrued_amount(accrued_amount(amount, rate, middle_rate), middle_rate, last_rate)
            <= accrued_amount(amount, rate, last_rate),
        (accrued_amount(amount, rate, last_rate) - accrued_amount(
            accrued_amount(amount, rate, middle_rate),
            middle_rate,
            last_rate,
        )) * middle_rate < last_rate + middle_rate,
{
    let middle = accrued_amount(amount, rate, middle_rate);
    let last = accrued_amount(middle, middle_rate, last_rate);
    let at_once = accrued_amount(amount, rate, last_rate);
    lemma_fundamental_div_mod(amount * middle_rate, rate);
    lemma_fundamental_div_mod(middle * last_rate, middle_rate);
    // last * middle_rate <= middle * last_rate and middle * rate <= amount * middle_rate.
    assert(last * middle_rate <= middle * last_rate) by (nonlinear_arith)
        requires
            middle * last_rate == middle_rate * last + (middle * last_rate) % middle_rate,
            0 <= (middle * last_rate) % middle_rate,
    ;
    assert(middle * rate <= amount * middle_rate) by (nonlinear_arith)
        requires
            amount * middle_rate == rate * middle + (amount * middle_rate) % rate,
            0 <= (amount * middle_rate) % rate,
    ;
    assert((last * rate) * middle_rate <= (amount * last_rate) * middle_rate) by (nonlinear_arith)
        requires
            last * middle_rate <= middle * last_rate,
            middle * rate <= amount * middle_rate,
            0 < rate,
            0 <= last_rate,
    ;
    assert(last * rate <= amount * last_rate) by (nonlinear_arith)
        requires
            (last * rate) * middle_rate <= (amount * last_rate) * middle_rate,
            0 < middle_rate,
    ;
    lemma_div_is_ordered(last * rate, amount * last_rate, rate);
    vstd::arithmetic::div_mod::lemma_div_by_multiple(last, rate);
    // at_once * rate <= amount * last_rate, amount * middle_rate < (middle + 1) * rate
    // and middle * last_rate < (last + 1) * middle_rate.
    lemma_fundamental_div_mod(amount * last_rate, rate);
    assert(at_once * rate <= amount * last_rate) by (nonlinear_arith)
        requires
            amount * last_rate == rate * at_once + (amount * last_rate) % rate,
            0 <= (amount * last_rate) % rate,
    ;
    assert(amount * middle_rate <= (middle + 1) * rate) by (nonlinear_arith)
        requires
            amount * middle_rate == rate * middle + (amount * middle_rate) % rate,
            (amount * middle_rate) % rate < rate,
    ;
    assert((at_once * middle_rate) * rate <= ((middle + 1) * last_rate) * rate)
        by (nonlinear_arith)
        requires
            at_once * rate <= amount * last_rate,
            amount * middle_rate <= (middle + 1) * rate,
            0 < middle_rate,
            0 <= last_rate,
    ;
    assert(at_once * middle_rate <= (middle + 1) * last_rate) by (nonlinear_arith)
        requires
            (at_once * middle_rate) * rate <= ((middle + 1) * last_rate) * rate,
            0 < rate,
    ;
    assert(middle * last_rate < last * middle_rate + middle_rate) by (nonlinear_arith)
        requires
            middle * last_rate == middle_rate * last + (middle * last_rate) % middle_rate,
            (middle * last_rate) % middle_rate < middle_rate,
    ;
    assert((at_once - last) * middle_rate < last_rate + middle_rate) by (nonlinear_arith)
        requires
            at_once * middle_rate <= (middle + 1) * last_rate,
            middle * last_rate < last * middle_rate + middle_rate,
    ;
}

/// Bringing a debt to a rate lowers neither the debt nor its rate, and changes
/// nothing else of it.
pub proof fn law_interest_on_a_debt(l: ObligationLiquidity, rate: BigFraction)
    requires
        l.can_accrue(rate),
        l.after_interest(rate) is Ok,
    ensures
        ({
            let debt = l.after_interest(rate)->Ok_0;
            &&& l.borrowed_amount_sf <= debt.borrowed_amount_sf
            &&& l.rate_bits() <= debt.rate_bits()
            &&& debt.rate_bits() == rate.bits()
            &&& debt == (ObligationLiquidity {
                borrowed_amount_sf: debt.borrowed_amount_sf,
                cumulative_borrow_rate_bsf: debt.cumulative_borrow_rate_bsf,
                ..l
            })
        }),
{
    if rate.bits() > l.rate_bits() {
        law_interest_is_not_negative(
            l.borrowed_amount_sf as int,
            l.rate_bits() as int,
            rate.bits() as int,
        );
    }
}

/// Bringing a debt to the same rate again changes nothing.
pub proof fn law_interest_is_taken_once(l: ObligationLiquidity, rate: BigFraction)
    requires
        l.after_interest(rate) is Ok,
    ensures
        l.after_interest(rate)->Ok_0.after_interest(rate) == l.after_interest(rate),
        l.after_interest(rate)->Ok_0.can_accrue(rate),
{
}

// Marks and flags.

/// A mark set at a timestamp other than zero is seen until it is taken off.
pub proof fn law_marked_until_unmarked(o: ObligationView, timestamp: u64, target_ltv_pct: u8)
    requires
        timestamp != 0,
    ensures
        o.with_mark(timestamp, target_ltv_pct).is_marked(),
        !o.with_mark(timestamp, target_ltv_pct).with_mark(0, 0).is_marked(),
        o.with_mark(timestamp, target_ltv_pct).with_mark(0, 0) == o.with_mark(0, 0),
{
}

/// After an update the flag tells whether there is a borrow, and a second update
/// changes nothing.
pub proof fn law_debt_flag(o: ObligationView)
    ensures
        o.with_debt_flag().has_debt == 0 <==> o.borrow_count() == 0,
        o.with_debt_flag().has_debt == 1 <==> o.borrow_count() > 0,
        o.with_debt_flag().with_debt_flag() == o.with_debt_flag(),
{
    law_borrow_count(o);
}

// Summaries.

/// A summary has one line on the whole, then one on each deposit, then one on
/// each borrow: a line break for each slot that is taken, and no other.
pub proof fn law_summary_lines(o: ObligationView)
    requires
        o.has_all_slots(),
    ensures
        line_breaks(o.headline()) == 0,
        line_breaks(o.summary()) == o.deposit_count() + o.borrow_count(),
{
    let deposits = deposit_lines(o.deposits, DEPOSIT_SLOTS as int);
    let borrows = borrow_lines(o.borrows, BORROW_SLOTS as int);
    lemma_headline(o);
    lemma_one_line(o.headline());
    lemma_deposit_lines(o.deposits, DEPOSIT_SLOTS as int);
    lemma_borrow_lines(o.borrows, BORROW_SLOTS as int);
    assert(o.deposits.take(DEPOSIT_SLOTS as int) =~= o.deposits);
    assert(o.borrows.take(BORROW_SLOTS as int) =~= o.borrows);
    lemma_line_breaks_add(o.headline(), deposits);
    lemma_line_breaks_add(o.headline() + deposits, borrows);
}

/// A summary lists the slots that are taken, in their order, deposits before
/// borrows, and says nothing of an empty slot.
pub proof fn law_summary_lists_the_taken_slots(o: ObligationView)
    requires
        o.has_all_slots(),
    ensures
        o.summary() == o.headline() + o.deposits.filter(
            |c: ObligationCollateral| !c.is_empty(),
        ).flat_map(|c: ObligationCollateral| line_on_deposit(c)) + o.borrows.filter(
            |l: ObligationLiquidity| !l.is_empty(),
        ).flat_map(|l: ObligationLiquidity| line_on_borrow(l)),
{
    lemma_deposit_lines(o.deposits, DEPOSIT_SLOTS as int);
    lemma_borrow_lines(o.borrows, BORROW_SLOTS as int);
    assert(o.deposits.take(DEPOSIT_SLOTS as int) =~= o.deposits);
    assert(o.borrows.take(BORROW_SLOTS as int) =~= o.borrows);
}

// Sequences.

proof fn lemma_deposit_tiers(
    deposits: Seq<ObligationCollateral>,
    codes: Seq<u8>,
    count: int,
    tier: AssetTier,
)
    requires
        0 <= count <= deposits.len(),
        forall|i: int|
            0 <= i < count && !(#[trigger] deposits[i]).is_empty() && deposits[i].deposited_amount
                > 0 ==> AssetTier::of_code(codes[i]) is Some,
    ensures
        deposit_tiers(deposits, codes, count).contains(tier) <==> exists|i: int|
            0 <= i < count && !(#[trigger] deposits[i]).is_empty() && deposits[i].deposited_amount
                > 0 && AssetTier::of_code(codes[i]) == Some(tier),
    decreases count,
{
    if count > 0 {
        lemma_deposit_tiers(deposits, codes, count - 1, tier);
        let before = deposit_tiers(deposits, codes, count - 1);
        let last = deposits[count - 1];
        if !last.is_empty() && last.deposited_amount > 0 {
            lemma_push_contains(before, AssetTier::of_code(codes[count - 1])->0, tier);
        }
    }
}

proof fn lemma_borrow_tiers(
    borrows: Seq<ObligationLiquidity>,
    codes: Seq<u8>,
    count: int,
    tier: AssetTier,
)
    requires
        0 <= count <= borrows.len(),
        forall|i: int|
            0 <= i < count && !(#[trigger] borrows[i]).is_empty() && borrows[i].borrowed_amount_sf
                > 0 ==> AssetTier::of_code(codes[i]) is Some,
    ensures
        borrow_tiers(borrows, codes, count).contains(tier) <==> exists|i: int|
            0 <= i < count && !(#[trigger] borrows[i]).is_empty() && borrows[i].borrowed_amount_sf
                > 0 && AssetTier::of_code(codes[i]) == Some(tier),
    decreases count,
{
    if count > 0 {
        lemma_borrow_tiers(borrows, codes, count - 1, tier);
        let before = borrow_tiers(borrows, codes, count - 1);
        let last = borrows[count - 1];
        if !last.is_empty() && last.borrowed_amount_sf > 0 {
            lemma_push_contains(before, AssetTier::of_code(codes[count - 1])->0, tier);
        }
    }
}

proof fn lemma_push_contains<A>(s: Seq<A>, last: A, a: A)
    ensures
        s.push(last).contains(a) <==> s.contains(a) || last == a,
{
    if s.contains(a) {
        let i = choose|i: int| 0 <= i < s.len() && s[i] == a;
        assert(s.push(last)[i] == a);
    }
    if last == a {
        assert(s.push(last)[s.len() as int] == a);
    }
    if s.push(last).contains(a) {
        let i = choose|i: int| 0 <= i < s.push(last).len() && s.push(last)[i] == a;
        if i < s.len() {
            assert(s[i] == a);
        }
    }
}

/// Replacing one element changes how many meet a predicate by that element
/// alone.
proof fn lemma_filter_update<A>(s: Seq<A>, pred: spec_fn(A) -> bool, at: int, a: A)
    requires
        0 <= at < s.len(),
    ensures
        s.update(at, a).filter(pred).len() + (if pred(s[at]) {
            1int
        } else {
            0
        }) == s.filter(pred).len() + (if pred(a) {
            1int
        } else {
            0
        }),
    decreases s.len(),
{
    reveal(Seq::filter);
    let rest = s.drop_last();
    if at == s.len() - 1 {
        assert(s.update(at, a).drop_last() =~= rest);
    } else {
        lemma_filter_update(rest, pred, at, a);
        assert(s.update(at, a).drop_last() =~= rest.update(at, a));
        assert(s.update(at, a).last() == s.last());
    }
}

/// No element meets a predicate exactly if none is left by the filter.
proof fn lemma_filter_none<A>(s: Seq<A>, pred: spec_fn(A) -> bool)
    ensures
        s.filter(pred).len() <= s.len(),
        s.filter(pred).len() == 0 <==> forall|i: int| 0 <= i < s.len() ==> !pred(#[trigger] s[i]),
    decreases s.len(),
{
    reveal(Seq::filter);
    if s.len() > 0 {
        let rest = s.drop_last();
        lemma_filter_none(rest, pred);
        assert forall|i: int| 0 <= i < rest.len() implies rest[i] == #[trigger] s[i] by {}
        if forall|i: int| 0 <= i < s.len() ==> !pred(#[trigger] s[i]) {
            assert(forall|i: int| 0 <= i < rest.len() ==> !pred(#[trigger] rest[i]));
        }
    }
}

/// Every element meets a predicate exactly if the filter leaves all.
proof fn lemma_filter_all<A>(s: Seq<A>, pred: spec_fn(A) -> bool)
    ensures
        s.filter(pred).len() <= s.len(),
        s.filter(pred).len() == s.len() <==> forall|i: int|
            0 <= i < s.len() ==> pred(#[trigger] s[i]),
    decreases s.len(),
{
    reveal(Seq::filter);
    if s.len() > 0 {
        let rest = s.drop_last();
        lemma_filter_all(rest, pred);
        assert forall|i: int| 0 <= i < rest.len() implies rest[i] == #[trigger] s[i] by {}
        if forall|i: int| 0 <= i < s.len() ==> pred(#[trigger] s[i]) {
            assert(forall|i: int| 0 <= i < rest.len() ==> pred(#[trigger] rest[i]));
        }
    }
}

proof fn lemma_total_of_zeros(borrows: Seq<ObligationLiquidity>)
    requires
        forall|i: int| 0 <= i < borrows.len() ==> (#[trigger] borrows[i]).borrowed_amount_sf == 0,
    ensures
        borrowed_total(borrows) == 0,
    decreases borrows.len(),
{
    if borrows.len() > 0 {
        lemma_total_of_zeros(borrows.drop_last());
    }
}

proof fn lemma_total_update(
    borrows: Seq<ObligationLiquidity>,
    slot: int,
    borrow: ObligationLiquidity,
)
    requires
        0 <= slot < borrows.len(),
    ensures
        borrowed_total(borrows.update(slot, borrow)) == borrowed_total(borrows)
            - borrows[slot].borrowed_amount_sf + borrow.borrowed_amount_sf,
    decreases borrows.len(),
{
    let rest = borrows.drop_last();
    if slot == borrows.len() - 1 {
        assert(borrows.update(slot, borrow).drop_last() =~= rest);
    } else {
        lemma_total_update(rest, slot, borrow);
        assert(borrows.update(slot, borrow).drop_last() =~= rest.update(slot, borrow));
    }
}

} // verus!
