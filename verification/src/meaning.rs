//! What each operation gives, said of the fields that go in and come out.
use vstd::arithmetic::div_mod::{lemma_fundamental_div_mod, lemma_fundamental_div_mod_converse};
use vstd::prelude::*;

use crate::big_fraction::{BigFraction, BigFractionBytes};
use crate::collateral::ObligationCollateral;
use crate::error::LendingError;
use crate::fraction::{ceil_of, floor_of, is_displayable, one_bits, percent_of, quotient_bits};
use crate::liquidity::ObligationLiquidity;
use crate::market::{AssetTier, LastUpdate, LtvMaxWithdrawalCheck};
use crate::model::{borrow_tiers, borrowed_total, deposit_tiers, lemma_first_slot, ObligationView};
use crate::obligation::{InitObligationParams, Obligation};
use crate::pubkey::Pubkey;
use crate::u256::{limbs_value, u256_modulus};

verus! {

// Numbers.

/// A quotient rounded down: the divisor goes into the dividend that many times,
/// and not once more.
pub proof fn lemma_rounded_down(n: int, d: int)
    requires
        0 < d,
    ensures
        (n / d) * d <= n < (n / d + 1) * d,
{
    lemma_fundamental_div_mod(n, d);
    let q = n / d;
    assert(d * q == q * d) by (nonlinear_arith);
    assert((q + 1) * d == q * d + d) by (nonlinear_arith);
}

/// Only the quotient rounded down goes into the dividend, and not once more.
pub proof fn lemma_rounded_down_unique(n: int, d: int, q: int)
    requires
        0 < d,
        q * d <= n < (q + 1) * d,
    ensures
        q == n / d,
{
    assert((q + 1) * d == q * d + d) by (nonlinear_arith);
    lemma_fundamental_div_mod_converse(n, d, q, n - q * d);
}

/// A fraction has 60 bits below the point, and a wide number 256 bits in all.
pub proof fn law_scales()
    ensures
        one_bits() == 0x1000_0000_0000_0000,
        u256_modulus()
            == 0x1_0000_0000_0000_0000_0000_0000_0000_0000_0000_0000_0000_0000_0000_0000_0000_0000nat,
{
}

/// The rate that a borrow stores, and the one that it is given, are their limbs.
pub proof fn law_rates_are_limbs(l: ObligationLiquidity, rate: BigFraction)
    ensures
        l.rate_bits() == limbs_value(l.cumulative_borrow_rate_bsf.value@),
        rate.bits() == limbs_value(rate.0.0@),
        rate.0.value() == limbs_value(rate.0.0@),
{
}

/// Four limbs are the digits of a number to the base of two to the power 64, the
/// least significant first.
pub proof fn law_limbs_are_digits(limbs: Seq<u64>)
    ensures
        limbs_value(limbs) == limbs[0] + 0x1_0000_0000_0000_0000 * (limbs[1]
            + 0x1_0000_0000_0000_0000 * (limbs[2] + 0x1_0000_0000_0000_0000 * limbs[3])),
{
}

/// The integer part and the number rounded up lie within one of the fraction.
pub proof fn law_rounding_to_integers(bits: u128)
    ensures
        floor_of(bits) * 0x1000_0000_0000_0000 <= bits < (floor_of(bits) + 1)
            * 0x1000_0000_0000_0000,
        bits <= ceil_of(bits) * 0x1000_0000_0000_0000 < bits + 0x1000_0000_0000_0000,
{
}

/// A percentage lies within half a percent of the ratio, and on a tie it is the
/// greater.
pub proof fn law_percent_is_nearest(bits: int)
    ensures
        (2 * percent_of(bits) - 1) * 0x1000_0000_0000_0000 <= 200 * bits < (2 * percent_of(bits)
            + 1) * 0x1000_0000_0000_0000,
{
}

/// A ratio is the greatest that times the deposits does not exceed the value.
pub proof fn law_ratio_of_values(value: u128, deposited: u128)
    requires
        deposited != 0,
    ensures
        quotient_bits(value, deposited) * deposited <= value * 0x1000_0000_0000_0000 < (
        quotient_bits(value, deposited) + 1) * deposited,
{
    lemma_rounded_down(value * one_bits(), deposited as int);
}

/// A fraction can be written exactly if half of the fourth decimal can be added
/// to it.
pub proof fn law_writable_fractions(bits: u128)
    ensures
        is_displayable(bits) <==> bits + 57_646_075_230_342 <= u128::MAX,
{
}

// Codes, addresses and empty slots.

/// Bytes and tiers stand for each other: 0, 1 and 2 for a tier each, and no
/// other byte for any.
pub proof fn law_tier_codes(code: u8)
    ensures
        AssetTier::of_code(code) is Some <==> code < 3,
        AssetTier::of_code(0) == Some(AssetTier::Regular),
        AssetTier::of_code(1) == Some(AssetTier::IsolatedCollateral),
        AssetTier::of_code(2) == Some(AssetTier::IsolatedDebt),
        AssetTier::Regular.code() == 0,
        AssetTier::IsolatedCollateral.code() == 1,
        AssetTier::IsolatedDebt.code() == 2,
{
}

/// The address of no account is the one whose bytes are all zero.
pub proof fn law_no_account(key: Pubkey)
    ensures
        key == Pubkey::none() <==> forall|i: int| 0 <= i < 32 ==> #[trigger] key.bytes@[i] == 0,
{
    if forall|i: int| 0 <= i < 32 ==> #[trigger] key.bytes@[i] == 0 {
        assert(key.bytes =~= Pubkey::none().bytes);
    }
}

/// A slot is empty exactly if its reserve is no account.
pub proof fn law_empty_means_no_reserve(c: ObligationCollateral, l: ObligationLiquidity)
    ensures
        c.is_empty() <==> c.deposit_reserve == Pubkey::none(),
        l.is_empty() <==> l.borrow_reserve == Pubkey::none(),
{
}

/// A new deposit is of its reserve and of nothing, and an emptied slot is that of
/// no account.
pub proof fn law_new_deposit(reserve: Pubkey)
    ensures
        ({
            let c = ObligationCollateral::opened(reserve);
            &&& c.deposit_reserve == reserve
            &&& c.deposited_amount == 0
            &&& c.market_value_sf == 0
            &&& c.borrowed_amount_against_this_collateral_in_elevation_group == 0
            &&& forall|i: int| 0 <= i < 9 ==> #[trigger] c.padding@[i] == 0
        }),
        ObligationCollateral::empty() == ObligationCollateral::opened(Pubkey::none()),
{
}

/// A new borrow is from its reserve, at its rate and of nothing, and an emptied
/// slot is that of no account at the rate zero.
pub proof fn law_new_borrow(reserve: Pubkey, rate: BigFractionBytes)
    ensures
        ({
            let l = ObligationLiquidity::opened(reserve, rate);
            &&& l.borrow_reserve == reserve
            &&& l.cumulative_borrow_rate_bsf == rate
            &&& l.padding == 0
            &&& l.borrowed_amount_sf == 0
            &&& l.market_value_sf == 0
            &&& l.borrow_factor_adjusted_market_value_sf == 0
            &&& l.borrowed_amount_outside_elevation_groups == 0
            &&& forall|i: int| 0 <= i < 7 ==> #[trigger] l.padding2@[i] == 0
        }),
        ({
            let l = ObligationLiquidity::empty();
            &&& l == ObligationLiquidity::opened(Pubkey::none(), l.cumulative_borrow_rate_bsf)
            &&& forall|i: int| 0 <= i < 4 ==> #[trigger] l.cumulative_borrow_rate_bsf.value@[i] == 0
            &&& forall|i: int|
                0 <= i < 2 ==> #[trigger] l.cumulative_borrow_rate_bsf.padding@[i] == 0
        }),
{
}

// Deposits and borrows by themselves.

/// A deposit adds to the amount and to nothing else, and is refused exactly if
/// the sum does not fit.
pub proof fn law_deposit_adds(c: ObligationCollateral, amount: u64)
    ensures
        c.deposited_amount + amount > u64::MAX ==> c.after_deposit(amount) == Err::<
            ObligationCollateral,
            LendingError,
        >(LendingError::MathOverflow),
        c.deposited_amount + amount <= u64::MAX ==> c.after_deposit(amount) == Ok::<
            ObligationCollateral,
            LendingError,
        >(ObligationCollateral { deposited_amount: (c.deposited_amount + amount) as u64, ..c }),
{
}

/// A withdrawal takes from the amount and from nothing else, and is refused
/// exactly if it is of more than there is.
pub proof fn law_withdrawal_takes(c: ObligationCollateral, amount: u64)
    ensures
        amount > c.deposited_amount ==> c.after_withdrawal(amount) == Err::<
            ObligationCollateral,
            LendingError,
        >(LendingError::MathOverflow),
        amount <= c.deposited_amount ==> c.after_withdrawal(amount) == Ok::<
            ObligationCollateral,
            LendingError,
        >(ObligationCollateral { deposited_amount: (c.deposited_amount - amount) as u64, ..c }),
{
}

/// Another amount changes nothing but the amount.
pub proof fn law_amount_alone(c: ObligationCollateral, n: u64, l: ObligationLiquidity, m: u128)
    ensures
        c.with_amount(n) == (ObligationCollateral { deposited_amount: n, ..c }),
        l.with_amount(m) == (ObligationLiquidity { borrowed_amount_sf: m, ..l }),
{
}

/// Interest scales a debt by the new rate over the former, rounded down, whatever
/// else the borrow holds. The new rate is kept, and nothing else changes.
pub proof fn law_interest_scales_the_debt(l: ObligationLiquidity, rate: BigFraction)
    requires
        0 < limbs_value(l.cumulative_borrow_rate_bsf.value@) < limbs_value(rate.0.0@),
        l.after_interest(rate) is Ok,
    ensures
        ({
            let debt = l.after_interest(rate)->Ok_0;
            let former_rate = limbs_value(l.cumulative_borrow_rate_bsf.value@);
            let new_rate = limbs_value(rate.0.0@);
            &&& debt.borrowed_amount_sf * former_rate <= l.borrowed_amount_sf * new_rate
            &&& l.borrowed_amount_sf * new_rate < (debt.borrowed_amount_sf + 1) * former_rate
            &&& debt.cumulative_borrow_rate_bsf.value == rate.0.0
            &&& debt.cumulative_borrow_rate_bsf.padding == l.cumulative_borrow_rate_bsf.padding
            &&& debt == (ObligationLiquidity {
                borrowed_amount_sf: debt.borrowed_amount_sf,
                cumulative_borrow_rate_bsf: debt.cumulative_borrow_rate_bsf,
                ..l
            })
        }),
{
    lemma_accrued(
        l.borrowed_amount_sf as int,
        limbs_value(l.cumulative_borrow_rate_bsf.value@) as int,
        limbs_value(rate.0.0@) as int,
    );
}

/// Interest is refused for a rate that falls, and for a debt that no longer fits,
/// and for nothing else. At the same rate nothing changes.
pub proof fn law_interest_refusals(l: ObligationLiquidity, rate: BigFraction)
    ensures
        ({
            let amount = l.borrowed_amount_sf;
            let former_rate = limbs_value(l.cumulative_borrow_rate_bsf.value@);
            let new_rate = limbs_value(rate.0.0@);
            let outcome = l.after_interest(rate);
            &&& new_rate < former_rate <==> outcome == Err::<ObligationLiquidity, LendingError>(
                LendingError::NegativeInterestRate,
            )
            &&& new_rate == former_rate ==> outcome == Ok::<ObligationLiquidity, LendingError>(l)
            &&& 0 < former_rate < new_rate ==> {
                &&& outcome is Ok <==> amount * new_rate
                    < 0x1_0000_0000_0000_0000_0000_0000_0000_0000 * former_rate
                &&& outcome is Err <==> outcome == Err::<ObligationLiquidity, LendingError>(
                    LendingError::MathOverflow,
                )
            }
        }),
{
    let amount = l.borrowed_amount_sf as int;
    let former_rate = limbs_value(l.cumulative_borrow_rate_bsf.value@) as int;
    let new_rate = limbs_value(rate.0.0@) as int;
    let limit = 0x1_0000_0000_0000_0000_0000_0000_0000_0000int;
    if 0 < former_rate < new_rate {
        lemma_accrued(amount, former_rate, new_rate);
        let accrued = amount * new_rate / former_rate;
        if accrued < limit {
            assert((accrued + 1) * former_rate <= limit * former_rate) by (nonlinear_arith)
                requires
                    accrued + 1 <= limit,
                    0 < former_rate,
            ;
        } else {
            assert(accrued * former_rate >= limit * former_rate) by (nonlinear_arith)
                requires
                    accrued >= limit,
                    0 < former_rate,
            ;
        }
    }
}

/// What a debt comes to depends on its amount and the two rates only.
pub proof fn law_interest_depends_on_amount_and_rates(
    l: ObligationLiquidity,
    other: ObligationLiquidity,
    rate: BigFraction,
    other_rate: BigFraction,
)
    requires
        l.borrowed_amount_sf == other.borrowed_amount_sf,
        limbs_value(l.cumulative_borrow_rate_bsf.value@) == limbs_value(
            other.cumulative_borrow_rate_bsf.value@,
        ),
        limbs_value(rate.0.0@) == limbs_value(other_rate.0.0@),
    ensures
        match (l.after_interest(rate), other.after_interest(other_rate)) {
            (Ok(debt), Ok(other_debt)) => debt.borrowed_amount_sf == other_debt.borrowed_amount_sf,
            (Err(error), Err(other_error)) => error == other_error,
            _ => false,
        },
{
}

/// Interest is defined where the rate does not grow, and where it grows from more
/// than zero and the product of debt and rate fits in 256 bits.
pub proof fn law_interest_is_defined(l: ObligationLiquidity, rate: BigFraction)
    ensures
        ({
            let former_rate = limbs_value(l.cumulative_borrow_rate_bsf.value@);
            let new_rate = limbs_value(rate.0.0@);
            l.can_accrue(rate) <==> new_rate <= former_rate || (former_rate > 0
                && l.borrowed_amount_sf * new_rate
                < 0x1_0000_0000_0000_0000_0000_0000_0000_0000_0000_0000_0000_0000_0000_0000_0000_0000)
        }),
{
}

proof fn lemma_accrued(amount: int, former_rate: int, new_rate: int)
    requires
        0 <= amount,
        0 < former_rate,
        0 <= new_rate,
    ensures
        0 <= amount * new_rate / former_rate,
        (amount * new_rate / former_rate) * former_rate <= amount * new_rate < (amount * new_rate
            / former_rate + 1) * former_rate,
{
    assert(0 <= amount * new_rate) by (nonlinear_arith)
        requires
            0 <= amount,
            0 <= new_rate,
    ;
    vstd::arithmetic::div_mod::lemma_div_pos_is_pos(amount * new_rate, former_rate);
    lemma_rounded_down(amount * new_rate, former_rate);
}

// Slots of an obligation.

/// An obligation shows each of its fields as it is.
pub proof fn law_fields_are_shown(o: Obligation)
    ensures
        o@.tag == o.tag,
        o@.last_update == o.last_update,
        o@.lending_market == o.lending_market,
        o@.owner == o.owner,
        o@.deposits == o.deposits@,
        o@.lowest_reserve_deposit_liquidation_ltv == o.lowest_reserve_deposit_liquidation_ltv,
        o@.deposited_value_sf == o.deposited_value_sf,
        o@.borrows == o.borrows@,
        o@.borrow_factor_adjusted_debt_value_sf == o.borrow_factor_adjusted_debt_value_sf,
        o@.borrowed_assets_market_value_sf == o.borrowed_assets_market_value_sf,
        o@.allowed_borrow_value_sf == o.allowed_borrow_value_sf,
        o@.unhealthy_borrow_value_sf == o.unhealthy_borrow_value_sf,
        o@.deposits_asset_tiers == o.deposits_asset_tiers@,
        o@.borrows_asset_tiers == o.borrows_asset_tiers@,
        o@.elevation_group == o.elevation_group,
        o@.num_of_obsolete_reserves == o.num_of_obsolete_reserves,
        o@.has_debt == o.has_debt,
        o@.referrer == o.referrer,
        o@.borrowing_disabled == o.borrowing_disabled,
        o@.autodeleverage_target_ltv_pct == o.autodeleverage_target_ltv_pct,
        o@.lowest_reserve_deposit_max_ltv_pct == o.lowest_reserve_deposit_max_ltv_pct,
        o@.reserved == o.reserved@,
        o@.highest_borrow_factor_pct == o.highest_borrow_factor_pct,
        o@.autodeleverage_margin_call_started_timestamp
            == o.autodeleverage_margin_call_started_timestamp,
        o@.padding_3 == o.padding_3@,
{
}

/// A new obligation has what it starts from, is stale at the current slot, has no
/// tier beside any slot, and has nothing else set.
pub proof fn law_started_fields(params: InitObligationParams)
    ensures
        ({
            let o = params.started();
            &&& o.tag == params.tag
            &&& o.last_update.slot == params.current_slot
            &&& o.last_update.stale == 1
            &&& o.last_update.price_status == 0
            &&& forall|i: int| 0 <= i < 6 ==> #[trigger] o.last_update.placeholder@[i] == 0
            &&& o.lending_market == params.lending_market
            &&& o.owner == params.owner
            &&& o.deposits == params.deposits@
            &&& o.borrows == params.borrows@
            &&& o.referrer == params.referrer
            &&& unset_beside_slots(o)
        }),
        ({
            let o = ObligationView::blank();
            &&& o.tag == 0
            &&& o.last_update.slot == 0
            &&& o.last_update.stale == 0
            &&& o.last_update.price_status == 0
            &&& forall|i: int| 0 <= i < 6 ==> #[trigger] o.last_update.placeholder@[i] == 0
            &&& o.lending_market == Pubkey::none()
            &&& o.owner == Pubkey::none()
            &&& o.referrer == Pubkey::none()
            &&& o.deposits.len() == 8
            &&& o.borrows.len() == 5
            &&& forall|i: int| 0 <= i < 8 ==> #[trigger] o.deposits[i] == ObligationCollateral::empty()
            &&& forall|i: int| 0 <= i < 5 ==> #[trigger] o.borrows[i] == ObligationLiquidity::empty()
            &&& unset_beside_slots(o)
        }),
{
}

/// No slot has a tier, and no value, flag or mark is set.
pub open spec fn unset_beside_slots(o: ObligationView) -> bool {
    &&& o.deposits_asset_tiers.len() == 8
    &&& o.borrows_asset_tiers.len() == 5
    &&& forall|i: int| 0 <= i < 8 ==> #[trigger] o.deposits_asset_tiers[i] == 255
    &&& forall|i: int| 0 <= i < 5 ==> #[trigger] o.borrows_asset_tiers[i] == 255
    &&& o.lowest_reserve_deposit_liquidation_ltv == 0
    &&& o.deposited_value_sf == 0
    &&& o.borrow_factor_adjusted_debt_value_sf == 0
    &&& o.borrowed_assets_market_value_sf == 0
    &&& o.allowed_borrow_value_sf == 0
    &&& o.unhealthy_borrow_value_sf == 0
    &&& o.elevation_group == 0
    &&& o.num_of_obsolete_reserves == 0
    &&& o.has_debt == 0
    &&& o.borrowing_disabled == 0
    &&& o.autodeleverage_target_ltv_pct == 0
    &&& o.lowest_reserve_deposit_max_ltv_pct == 0
    &&& o.reserved.len() == 5
    &&& forall|i: int| 0 <= i < 5 ==> #[trigger] o.reserved[i] == 0
    &&& o.highest_borrow_factor_pct == 0
    &&& o.autodeleverage_margin_call_started_timestamp == 0
    &&& o.padding_3.len() == 125
    &&& forall|i: int| 0 <= i < 125 ==> #[trigger] o.padding_3[i] == 0
}

/// What `new` and `default` record of an update.
pub proof fn law_update_fields(slot: u64)
    ensures
        LastUpdate::stale_at(slot).slot == slot,
        LastUpdate::stale_at(slot).stale == 1,
        LastUpdate::stale_at(slot).price_status == 0,
        LastUpdate::unset().slot == 0,
        LastUpdate::unset().stale == 0,
        LastUpdate::unset().price_status == 0,
        forall|i: int| 0 <= i < 6 ==> #[trigger] LastUpdate::stale_at(slot).placeholder@[i] == 0,
        forall|i: int| 0 <= i < 6 ==> #[trigger] LastUpdate::unset().placeholder@[i] == 0,
{
}

/// The slot of a reserve is the first that is of it, or one past the last.
pub proof fn law_first_deposit_of_a_reserve(o: ObligationView, reserve: Pubkey)
    ensures
        0 <= o.deposit_slot(reserve) <= o.deposits.len(),
        forall|i: int|
            0 <= i < o.deposit_slot(reserve) ==> (#[trigger] o.deposits[i]).deposit_reserve
                != reserve,
        o.deposit_slot(reserve) < o.deposits.len() ==> o.deposits[o.deposit_slot(
            reserve,
        )].deposit_reserve == reserve,
{
    let reserves = o.deposit_reserves();
    lemma_first_slot(reserves, reserve);
    assert forall|i: int| 0 <= i < o.deposit_slot(reserve) implies (
    #[trigger] o.deposits[i]).deposit_reserve != reserve by {
        assert(reserves[i] == o.deposits[i].deposit_reserve);
    }
}

/// The slot of a reserve is the first that is of it, or one past the last.
pub proof fn law_first_borrow_of_a_reserve(o: ObligationView, reserve: Pubkey)
    ensures
        0 <= o.borrow_slot(reserve) <= o.borrows.len(),
        forall|i: int|
            0 <= i < o.borrow_slot(reserve) ==> (#[trigger] o.borrows[i]).borrow_reserve != reserve,
        o.borrow_slot(reserve) < o.borrows.len() ==> o.borrows[o.borrow_slot(
            reserve,
        )].borrow_reserve == reserve,
{
    let reserves = o.borrow_reserves();
    lemma_first_slot(reserves, reserve);
    assert forall|i: int| 0 <= i < o.borrow_slot(reserve) implies (
    #[trigger] o.borrows[i]).borrow_reserve != reserve by {
        assert(reserves[i] == o.borrows[i].borrow_reserve);
    }
}

/// An obligation holds nothing exactly if no slot has a reserve.
pub proof fn law_nothing_held(o: ObligationView)
    ensures
        o.no_deposits() <==> forall|i: int|
            0 <= i < o.deposits.len() ==> (#[trigger] o.deposits[i]).deposit_reserve
                == Pubkey::none(),
        o.no_borrows() <==> forall|i: int|
            0 <= i < o.borrows.len() ==> (#[trigger] o.borrows[i]).borrow_reserve == Pubkey::none(),
{
    if forall|i: int|
        0 <= i < o.deposits.len() ==> (#[trigger] o.deposits[i]).deposit_reserve == Pubkey::none() {
        assert(o.no_deposits());
    }
    if o.no_deposits() {
        assert forall|i: int| 0 <= i < o.deposits.len() implies (
        #[trigger] o.deposits[i]).deposit_reserve == Pubkey::none() by {
            assert(o.deposits[i].is_empty());
        }
    }
    if forall|i: int|
        0 <= i < o.borrows.len() ==> (#[trigger] o.borrows[i]).borrow_reserve == Pubkey::none() {
        assert(o.no_borrows());
    }
    if o.no_borrows() {
        assert forall|i: int| 0 <= i < o.borrows.len() implies (
        #[trigger] o.borrows[i]).borrow_reserve == Pubkey::none() by {
            assert(o.borrows[i].is_empty());
        }
    }
}

/// One for a deposit slot that has a reserve, none for another.
pub open spec fn one_if_deposit(c: ObligationCollateral) -> int {
    if c.deposit_reserve != Pubkey::none() {
        1
    } else {
        0
    }
}

/// One for a borrow slot that has a reserve, none for another.
pub open spec fn one_if_borrow(l: ObligationLiquidity) -> int {
    if l.borrow_reserve != Pubkey::none() {
        1
    } else {
        0
    }
}

/// The number of deposits is one for each slot that has a reserve.
pub proof fn law_deposits_are_counted(o: ObligationView)
    requires
        o.deposits.len() == 8,
    ensures
        o.deposit_count() == one_if_deposit(o.deposits[0]) + one_if_deposit(o.deposits[1])
            + one_if_deposit(o.deposits[2]) + one_if_deposit(o.deposits[3]) + one_if_deposit(
            o.deposits[4],
        ) + one_if_deposit(o.deposits[5]) + one_if_deposit(o.deposits[6]) + one_if_deposit(
            o.deposits[7],
        ),
{
    let taken = |c: ObligationCollateral| !c.is_empty();
    lemma_count_starts(o.deposits, taken);
    lemma_count_step(o.deposits, taken, 0);
    lemma_count_step(o.deposits, taken, 1);
    lemma_count_step(o.deposits, taken, 2);
    lemma_count_step(o.deposits, taken, 3);
    lemma_count_step(o.deposits, taken, 4);
    lemma_count_step(o.deposits, taken, 5);
    lemma_count_step(o.deposits, taken, 6);
    lemma_count_step(o.deposits, taken, 7);
    assert(o.deposits.take(8) =~= o.deposits);
}

/// The number of borrows is one for each slot that has a reserve.
pub proof fn law_borrows_are_counted(o: ObligationView)
    requires
        o.borrows.len() == 5,
    ensures
        o.borrow_count() == one_if_borrow(o.borrows[0]) + one_if_borrow(o.borrows[1])
            + one_if_borrow(o.borrows[2]) + one_if_borrow(o.borrows[3]) + one_if_borrow(
            o.borrows[4],
        ),
{
    let taken = |l: ObligationLiquidity| !l.is_empty();
    lemma_count_starts(o.borrows, taken);
    lemma_count_step(o.borrows, taken, 0);
    lemma_count_step(o.borrows, taken, 1);
    lemma_count_step(o.borrows, taken, 2);
    lemma_count_step(o.borrows, taken, 3);
    lemma_count_step(o.borrows, taken, 4);
    assert(o.borrows.take(5) =~= o.borrows);
}

proof fn lemma_count_starts<A>(s: Seq<A>, pred: spec_fn(A) -> bool)
    ensures
        s.take(0).filter(pred).len() == 0,
{
    reveal(Seq::filter);
}

/// One slot more counts one more if it meets the predicate.
proof fn lemma_count_step<A>(s: Seq<A>, pred: spec_fn(A) -> bool, at: int)
    requires
        0 <= at < s.len(),
    ensures
        s.take(at + 1).filter(pred).len() == s.take(at).filter(pred).len() + (if pred(s[at]) {
            1int
        } else {
            0
        }),
{
    reveal(Seq::filter);
    assert(s.take(at + 1).drop_last() =~= s.take(at));
}

/// What is put into a slot, or beside it, is there, and nothing else changes.
pub proof fn law_one_slot_changes(
    o: ObligationView,
    slot: int,
    deposit: ObligationCollateral,
    borrow: ObligationLiquidity,
    code: u8,
)
    ensures
        o.with_deposit(slot, deposit) == (ObligationView {
            deposits: o.deposits.update(slot, deposit),
            ..o
        }),
        o.with_deposit_tier(slot, code) == (ObligationView {
            deposits_asset_tiers: o.deposits_asset_tiers.update(slot, code),
            ..o
        }),
        o.with_borrow(slot, borrow) == (ObligationView {
            borrows: o.borrows.update(slot, borrow),
            ..o
        }),
        o.with_borrow_tier(slot, code) == (ObligationView {
            borrows_asset_tiers: o.borrows_asset_tiers.update(slot, code),
            ..o
        }),
{
}

/// A withdrawal of a part takes that from the amount of its slot, and changes
/// nothing else. A withdrawal of all empties the slot and takes its tier off.
pub proof fn law_withdrawal_from_a_slot(o: ObligationView, amount: u64, slot: int)
    requires
        0 <= slot < o.deposits.len(),
        amount <= o.deposits[slot].deposited_amount,
    ensures
        amount < o.deposits[slot].deposited_amount ==> o.withdrawn(amount, slot)
            == (ObligationView {
            deposits: o.deposits.update(
                slot,
                ObligationCollateral {
                    deposited_amount: (o.deposits[slot].deposited_amount - amount) as u64,
                    ..o.deposits[slot]
                },
            ),
            ..o
        }),
        amount == o.deposits[slot].deposited_amount ==> o.withdrawn(amount, slot)
            == (ObligationView {
            deposits: o.deposits.update(slot, ObligationCollateral::opened(Pubkey::none())),
            deposits_asset_tiers: o.deposits_asset_tiers.update(slot, 255),
            ..o
        }),
{
}

/// A repayment of a part takes that from the debt of its slot, and changes
/// nothing else. A repayment of all empties the slot and takes its tier off.
pub proof fn law_repayment_to_a_slot(o: ObligationView, amount_sf: u128, slot: int)
    requires
        0 <= slot < o.borrows.len(),
        amount_sf <= o.borrows[slot].borrowed_amount_sf,
    ensures
        amount_sf < o.borrows[slot].borrowed_amount_sf ==> o.repaid(amount_sf, slot)
            == (ObligationView {
            borrows: o.borrows.update(
                slot,
                ObligationLiquidity {
                    borrowed_amount_sf: (o.borrows[slot].borrowed_amount_sf - amount_sf) as u128,
                    ..o.borrows[slot]
                },
            ),
            ..o
        }),
        amount_sf == o.borrows[slot].borrowed_amount_sf ==> o.repaid(amount_sf, slot)
            == (ObligationView {
            borrows: o.borrows.update(slot, ObligationLiquidity::empty()),
            borrows_asset_tiers: o.borrows_asset_tiers.update(slot, 255),
            ..o
        }),
{
}

// Limits.

/// Under the maximum loan-to-value what can be withdrawn takes the debt to what is
/// allowed, and a bit more would take it over. Nothing can be withdrawn once the
/// debt is there, and all of a collateral that supports no debt can be before.
pub proof fn law_withdrawal_under_max_ltv(o: ObligationView, market_value_sf: u128, pct: u8)
    ensures
        ({
            let value = o.max_withdraw_value_sf(market_value_sf, pct, LtvMaxWithdrawalCheck::MaxLtv);
            let debt = o.borrow_factor_adjusted_debt_value_sf;
            let allowed = o.allowed_borrow_value_sf;
            &&& debt <= allowed && pct != 0 ==> {
                &&& debt * 100 + value * pct <= allowed * 100
                &&& allowed * 100 < debt * 100 + (value + 1) * pct
            }
            &&& debt < allowed && pct == 0 ==> value == market_value_sf
            &&& allowed <= debt ==> value == 0
        }),
{
    lemma_room(
        o.allowed_borrow_value_sf as int,
        o.borrow_factor_adjusted_debt_value_sf as int,
        pct as int,
    );
}

/// Under the liquidation threshold what can be withdrawn takes the debt to the
/// last bit below the value at which liquidation starts, and a bit more would take
/// it there. Nothing can be withdrawn once the debt is at that last bit.
pub proof fn law_withdrawal_under_liquidation_threshold(
    o: ObligationView,
    market_value_sf: u128,
    pct: u8,
)
    ensures
        ({
            let value = o.max_withdraw_value_sf(
                market_value_sf,
                pct,
                LtvMaxWithdrawalCheck::LiquidationThreshold,
            );
            let debt = o.borrow_factor_adjusted_debt_value_sf;
            let unhealthy = o.unhealthy_borrow_value_sf;
            &&& debt < unhealthy && pct != 0 ==> {
                &&& debt * 100 + value * pct <= (unhealthy - 1) * 100
                &&& (unhealthy - 1) * 100 < debt * 100 + (value + 1) * pct
            }
            &&& debt + 1 < unhealthy && pct == 0 ==> value == market_value_sf
            &&& unhealthy <= debt + 1 ==> value == 0
        }),
{
    lemma_room(
        o.unhealthy_borrow_value_sf - 1,
        o.borrow_factor_adjusted_debt_value_sf as int,
        pct as int,
    );
}

proof fn lemma_room(limit: int, debt: int, pct: int)
    requires
        0 <= debt,
        0 <= pct,
    ensures
        pct > 0 ==> {
            let value = (limit - debt) * 100 / pct;
            &&& debt * 100 + value * pct <= limit * 100
            &&& limit * 100 < debt * 100 + (value + 1) * pct
        },
        pct > 0 && debt == limit ==> (limit - debt) * 100 / pct == 0,
{
    if pct > 0 {
        lemma_rounded_down((limit - debt) * 100, pct);
        assert(0int / pct == 0) by (nonlinear_arith)
            requires
                pct > 0,
        ;
    }
}

/// What a withdrawal may add to the debt is what is left up to the limit that the
/// check names.
pub proof fn law_withdrawal_room(o: ObligationView)
    ensures
        o.withdrawal_room(LtvMaxWithdrawalCheck::MaxLtv) + o.borrow_factor_adjusted_debt_value_sf
            == o.allowed_borrow_value_sf,
        o.unhealthy_borrow_value_sf > 0 ==> o.withdrawal_room(
            LtvMaxWithdrawalCheck::LiquidationThreshold,
        ) + o.borrow_factor_adjusted_debt_value_sf + 1 == o.unhealthy_borrow_value_sf,
        o.unhealthy_borrow_value_sf == 0 ==> o.withdrawal_room(
            LtvMaxWithdrawalCheck::LiquidationThreshold,
        ) + o.borrow_factor_adjusted_debt_value_sf == 0,
{
}

/// What remains to be borrowed and the debt make up what is allowed. Nothing
/// remains where the debt has reached that, at whatever value liquidation starts.
pub proof fn law_remaining_value(o: ObligationView)
    ensures
        o.borrow_factor_adjusted_debt_value_sf <= o.allowed_borrow_value_sf
            ==> o.borrow_factor_adjusted_debt_value_sf + o.remaining_borrow_value_sf()
            == o.allowed_borrow_value_sf,
        o.borrow_factor_adjusted_debt_value_sf >= o.allowed_borrow_value_sf
            ==> o.remaining_borrow_value_sf() == 0,
{
}

/// The debts of the five slots together.
pub proof fn law_total_is_of_all_slots(o: ObligationView)
    requires
        o.borrows.len() == 5,
    ensures
        borrowed_total(o.borrows) == o.borrows[0].borrowed_amount_sf
            + o.borrows[1].borrowed_amount_sf + o.borrows[2].borrowed_amount_sf
            + o.borrows[3].borrowed_amount_sf + o.borrows[4].borrowed_amount_sf,
{
    reveal_with_fuel(borrowed_total, 6);
}

/// With two borrows there is no single debt. With at most one it is the debts of
/// all slots together, in whole tokens and by less than one too many.
pub proof fn law_single_debt(o: ObligationView)
    requires
        o.borrows.len() == 5,
    ensures
        o.single_token_amount() is None <==> exists|i: int, j: int|
            0 <= i < j < 5 && (#[trigger] o.borrows[i]).borrow_reserve != Pubkey::none() && (
            #[trigger] o.borrows[j]).borrow_reserve != Pubkey::none(),
        ({
            let total = o.borrows[0].borrowed_amount_sf + o.borrows[1].borrowed_amount_sf
                + o.borrows[2].borrowed_amount_sf + o.borrows[3].borrowed_amount_sf
                + o.borrows[4].borrowed_amount_sf;
            o.single_token_amount() is Some && total <= u64::MAX * 0x1000_0000_0000_0000 ==> {
                &&& total <= o.single_token_amount()->0 * 0x1000_0000_0000_0000
                &&& o.single_token_amount()->0 * 0x1000_0000_0000_0000 < total
                    + 0x1000_0000_0000_0000
            }
        }),
{
    law_borrows_are_counted(o);
    law_total_is_of_all_slots(o);
    let two = exists|i: int, j: int|
        0 <= i < j < 5 && (#[trigger] o.borrows[i]).borrow_reserve != Pubkey::none() && (
        #[trigger] o.borrows[j]).borrow_reserve != Pubkey::none();
    if two {
        let (i, j) = choose|i: int, j: int|
            0 <= i < j < 5 && (#[trigger] o.borrows[i]).borrow_reserve != Pubkey::none() && (
            #[trigger] o.borrows[j]).borrow_reserve != Pubkey::none();
        assert(i == 0 || i == 1 || i == 2 || i == 3);
        assert(j == 1 || j == 2 || j == 3 || j == 4);
    }
}

// Tiers.

/// The tiers of the deposits are one for each slot that has a reserve and an
/// amount, in the order of the slots.
pub proof fn law_deposit_tiers_by_slot(o: ObligationView)
    requires
        o.deposits.len() == 8,
        o.deposit_tiers_known(),
    ensures
        ({
            let tiers = deposit_tiers(o.deposits, o.deposits_asset_tiers, 8);
            let held = |c: ObligationCollateral|
                c.deposit_reserve != Pubkey::none() && c.deposited_amount > 0;
            &&& tiers.len() == o.deposits.filter(held).len()
            &&& forall|i: int|
                0 <= i < 8 && (#[trigger] o.deposits[i]).deposit_reserve != Pubkey::none()
                    && o.deposits[i].deposited_amount > 0 ==> {
                    let at = o.deposits.take(i).filter(held).len() as int;
                    &&& at < tiers.len()
                    &&& stands_for(o.deposits_asset_tiers[i], tiers[at])
                }
        }),
{
    lemma_deposit_tiers_by_slot(o, 8);
    assert(o.deposits.take(8) =~= o.deposits);
}

/// The tiers of the borrows are one for each slot that has a reserve and a debt,
/// in the order of the slots.
pub proof fn law_borrow_tiers_by_slot(o: ObligationView)
    requires
        o.borrows.len() == 5,
        o.borrow_tiers_known(),
    ensures
        ({
            let tiers = borrow_tiers(o.borrows, o.borrows_asset_tiers, 5);
            let held = |l: ObligationLiquidity|
                l.borrow_reserve != Pubkey::none() && l.borrowed_amount_sf > 0;
            &&& tiers.len() == o.borrows.filter(held).len()
            &&& forall|i: int|
                0 <= i < 5 && (#[trigger] o.borrows[i]).borrow_reserve != Pubkey::none()
                    && o.borrows[i].borrowed_amount_sf > 0 ==> {
                    let at = o.borrows.take(i).filter(held).len() as int;
                    &&& at < tiers.len()
                    &&& stands_for(o.borrows_asset_tiers[i], tiers[at])
                }
        }),
{
    lemma_borrow_tiers_by_slot(o, 5);
    assert(o.borrows.take(5) =~= o.borrows);
}

/// A byte is that of a tier.
pub open spec fn stands_for(code: u8, tier: AssetTier) -> bool {
    match tier {
        AssetTier::Regular => code == 0,
        AssetTier::IsolatedCollateral => code == 1,
        AssetTier::IsolatedDebt => code == 2,
    }
}

/// The tiers can be read exactly if beside every slot with a reserve and an amount
/// stands a byte of a tier.
pub proof fn law_known_tiers(o: ObligationView)
    ensures
        o.deposit_tiers_known() <==> forall|i: int|
            0 <= i < o.deposits.len() && (#[trigger] o.deposits[i]).deposit_reserve
                != Pubkey::none() && o.deposits[i].deposited_amount > 0
                ==> o.deposits_asset_tiers[i] < 3,
        o.borrow_tiers_known() <==> forall|i: int|
            0 <= i < o.borrows.len() && (#[trigger] o.borrows[i]).borrow_reserve != Pubkey::none()
                && o.borrows[i].borrowed_amount_sf > 0 ==> o.borrows_asset_tiers[i] < 3,
{
    if o.deposit_tiers_known() {
        assert forall|i: int|
            0 <= i < o.deposits.len() && (#[trigger] o.deposits[i]).deposit_reserve
                != Pubkey::none() && o.deposits[i].deposited_amount
                > 0 implies o.deposits_asset_tiers[i] < 3 by {
            assert(!o.deposits[i].is_empty());
        }
    }
    if o.borrow_tiers_known() {
        assert forall|i: int|
            0 <= i < o.borrows.len() && (#[trigger] o.borrows[i]).borrow_reserve != Pubkey::none()
                && o.borrows[i].borrowed_amount_sf > 0 implies o.borrows_asset_tiers[i] < 3 by {
            assert(!o.borrows[i].is_empty());
        }
    }
}

proof fn lemma_deposit_tiers_by_slot(o: ObligationView, count: int)
    requires
        0 <= count <= o.deposits.len(),
        o.deposit_tiers_known(),
    ensures
        ({
            let tiers = deposit_tiers(o.deposits, o.deposits_asset_tiers, count);
            let held = |c: ObligationCollateral|
                c.deposit_reserve != Pubkey::none() && c.deposited_amount > 0;
            &&& tiers.len() == o.deposits.take(count).filter(held).len()
            &&& forall|i: int|
                0 <= i < count && (#[trigger] o.deposits[i]).deposit_reserve != Pubkey::none()
                    && o.deposits[i].deposited_amount > 0 ==> {
                    let at = o.deposits.take(i).filter(held).len() as int;
                    &&& at < tiers.len()
                    &&& stands_for(o.deposits_asset_tiers[i], tiers[at])
                }
        }),
    decreases count,
{
    let held = |c: ObligationCollateral|
        c.deposit_reserve != Pubkey::none() && c.deposited_amount > 0;
    if count == 0 {
        lemma_count_starts(o.deposits, held);
    } else {
        lemma_deposit_tiers_by_slot(o, count - 1);
        lemma_count_step(o.deposits, held, count - 1);
    }
}

proof fn lemma_borrow_tiers_by_slot(o: ObligationView, count: int)
    requires
        0 <= count <= o.borrows.len(),
        o.borrow_tiers_known(),
    ensures
        ({
            let tiers = borrow_tiers(o.borrows, o.borrows_asset_tiers, count);
            let held = |l: ObligationLiquidity|
                l.borrow_reserve != Pubkey::none() && l.borrowed_amount_sf > 0;
            &&& tiers.len() == o.borrows.take(count).filter(held).len()
            &&& forall|i: int|
                0 <= i < count && (#[trigger] o.borrows[i]).borrow_reserve != Pubkey::none()
                    && o.borrows[i].borrowed_amount_sf > 0 ==> {
                    let at = o.borrows.take(i).filter(held).len() as int;
                    &&& at < tiers.len()
                    &&& stands_for(o.borrows_asset_tiers[i], tiers[at])
                }
        }),
    decreases count,
{
    let held = |l: ObligationLiquidity|
        l.borrow_reserve != Pubkey::none() && l.borrowed_amount_sf > 0;
    if count == 0 {
        lemma_count_starts(o.borrows, held);
    } else {
        lemma_borrow_tiers_by_slot(o, count - 1);
        lemma_count_step(o.borrows, held, count - 1);
    }
}

// Marks and flags.

/// A mark is its timestamp and its target, and a timestamp of zero is none.
pub proof fn law_mark_fields(o: ObligationView, timestamp: u64, target_ltv_pct: u8)
    ensures
        o.is_marked() <==> o.autodeleverage_margin_call_started_timestamp != 0,
        o.with_mark(timestamp, target_ltv_pct) == (ObligationView {
            autodeleverage_margin_call_started_timestamp: timestamp,
            autodeleverage_target_ltv_pct: target_ltv_pct,
            ..o
        }),
{
}

/// The flag is one if some borrow slot has a reserve and zero if none has, and
/// nothing else changes with it.
pub proof fn law_flag_fields(o: ObligationView)
    ensures
        (exists|i: int|
            0 <= i < o.borrows.len() && (#[trigger] o.borrows[i]).borrow_reserve != Pubkey::none())
            ==> o.with_debt_flag() == (ObligationView { has_debt: 1, ..o }),
        (forall|i: int|
            0 <= i < o.borrows.len() ==> (#[trigger] o.borrows[i]).borrow_reserve == Pubkey::none())
            ==> o.with_debt_flag() == (ObligationView { has_debt: 0, ..o }),
{
    law_nothing_held(o);
}

} // verus!
