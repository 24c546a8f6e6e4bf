use obligation::big_fraction::BigFraction;
use obligation::collateral::ObligationCollateral;
use obligation::error::LendingError;
use obligation::fraction::Fraction;
use obligation::liquidity::ObligationLiquidity;
use obligation::market::LtvMaxWithdrawalCheck;
use obligation::obligation::Obligation;
use obligation::pubkey::Pubkey;
use obligation::summary::{push_borrow_line, push_deposit_line};
use obligation::u256::U256;

const ONE: u128 = 1 << 60;

fn key(n: u8) -> Pubkey {
    Pubkey::new_from_array([n; 32])
}

fn position() -> Obligation {
    let mut o = Obligation::default();
    o.deposited_value_sf = 1000 * ONE;
    o.borrow_factor_adjusted_debt_value_sf = 500 * ONE;
    o.borrowed_assets_market_value_sf = 400 * ONE;
    o.allowed_borrow_value_sf = 700 * ONE;
    o.unhealthy_borrow_value_sf = 800 * ONE;
    o
}

#[test]
fn loan_to_value_ratios() {
    let o = position();
    assert_eq!(o.loan_to_value().to_bits(), ONE / 2);
    assert_eq!(o.no_bf_loan_to_value().to_bits(), 461168601842738790);
    assert_eq!(o.unhealthy_loan_to_value().to_bits(), 922337203685477580);
    assert!(o.loan_to_value() <= o.unhealthy_loan_to_value());
    assert_eq!(o.get_bf_adjusted_debt_value(), Fraction::from_bits(500 * ONE));
    assert_eq!(o.get_allowed_borrow_value(), Fraction::from_bits(700 * ONE));
    assert_eq!(o.get_unhealthy_borrow_value(), Fraction::from_bits(800 * ONE));
}

#[test]
fn max_withdrawal_under_max_ltv() {
    let o = position();
    let mut c = ObligationCollateral::new(key(1));
    c.market_value_sf = 123;
    let value = o.max_withdraw_value(&c, 70, 80, LtvMaxWithdrawalCheck::MaxLtv);
    assert_eq!(value.to_bits(), 200 * ONE * 100 / 70);
    // It leaves the debt within the limit, and a bit more would not.
    assert!(500 * ONE * 100 + value.to_bits() * 70 <= 700 * ONE * 100);
    assert!(500 * ONE * 100 + (value.to_bits() + 1) * 70 > 700 * ONE * 100);
    // Collateral that supports no debt can go entirely.
    let all = o.max_withdraw_value(&c, 0, 80, LtvMaxWithdrawalCheck::MaxLtv);
    assert_eq!(all.to_bits(), 123);
}

#[test]
fn max_withdrawal_under_liquidation_threshold() {
    let mut o = position();
    let mut c = ObligationCollateral::new(key(1));
    c.market_value_sf = 123;
    let check = LtvMaxWithdrawalCheck::LiquidationThreshold;
    let value = o.max_withdraw_value(&c, 0, 80, check);
    assert_eq!(value.to_bits(), (300 * ONE - 1) * 100 / 80);
    assert!(500 * ONE * 100 + value.to_bits() * 80 < 800 * ONE * 100);
    assert_eq!(o.max_withdraw_value(&c, 70, 0, check).to_bits(), 123);
    o.unhealthy_borrow_value_sf = 0;
    assert_eq!(o.max_withdraw_value(&c, 70, 80, check), Fraction::zero());
}

#[test]
fn no_withdrawal_at_the_limit() {
    let mut o = position();
    let mut c = ObligationCollateral::new(key(1));
    c.market_value_sf = 123;
    o.allowed_borrow_value_sf = 500 * ONE;
    assert_eq!(
        o.max_withdraw_value(&c, 0, 80, LtvMaxWithdrawalCheck::MaxLtv),
        Fraction::zero()
    );
    o.allowed_borrow_value_sf = 499 * ONE;
    assert_eq!(
        o.max_withdraw_value(&c, 70, 80, LtvMaxWithdrawalCheck::MaxLtv),
        Fraction::zero()
    );
}

#[test]
fn remaining_borrow_value() {
    let mut o = position();
    assert_eq!(o.remaining_borrow_value().to_bits(), 200 * ONE);
    o.borrow_factor_adjusted_debt_value_sf = 701 * ONE;
    assert_eq!(o.remaining_borrow_value().to_bits(), 0);
}

#[test]
fn interest_grows_with_the_rate() {
    let former = (1u128 << 60) * 3 + 17;
    let new = (1u128 << 60) * 5 + 23;
    let mut l = ObligationLiquidity::new(key(1), BigFraction(U256::from_u128(former)));
    l.borrow(Fraction::from_bits((1 << 127) + 12345678901234567890));
    let new_rate = BigFraction(U256::from_u128(new));
    assert_eq!(l.accrue_interest(new_rate), Ok(()));
    assert_eq!(l.borrowed_amount_sf, 283568639100782052644367944202439723206);
    assert_eq!(l.cumulative_borrow_rate_bsf.value, new_rate.0 .0);
    // Taken once.
    let before = l;
    assert_eq!(l.accrue_interest(new_rate), Ok(()));
    assert_eq!(l, before);
    // Never backwards.
    assert_eq!(
        l.accrue_interest(BigFraction(U256::from_u128(new - 1))),
        Err(LendingError::NegativeInterestRate)
    );
    assert_eq!(l, before);
}

#[test]
fn interest_at_rates_over_128_bits() {
    let mut l = ObligationLiquidity::new(key(1), BigFraction(U256([9, 2, 4, 0])));
    l.borrow(Fraction::from_bits(100000000000000000000));
    l.cumulative_borrow_rate_bsf.padding = [6, 7];
    let new_rate = BigFraction(U256([7378697629483820670, 11068046444225730972, 5, 0]));
    assert_eq!(l.accrue_interest(new_rate), Ok(()));
    assert_eq!(l.borrowed_amount_sf, 140000000000000000000);
    assert_eq!(l.cumulative_borrow_rate_bsf.padding, [6, 7]);
}

#[test]
fn interest_that_does_not_fit_is_refused() {
    let mut l = ObligationLiquidity::new(key(1), BigFraction(U256::from_u128(1)));
    l.borrow(Fraction::from_bits(u128::MAX));
    let before = l;
    assert_eq!(
        l.accrue_interest(BigFraction(U256::from_u128(2))),
        Err(LendingError::MathOverflow)
    );
    assert_eq!(l, before);
}

#[test]
fn interest_in_steps_is_no_more() {
    let mut at_once = ObligationLiquidity::new(key(1), BigFraction(U256::from_u128(3)));
    at_once.borrow(Fraction::from_bits(10));
    let mut in_steps = at_once;
    assert_eq!(at_once.accrue_interest(BigFraction(U256::from_u128(12))), Ok(()));
    assert_eq!(in_steps.accrue_interest(BigFraction(U256::from_u128(4))), Ok(()));
    assert_eq!(in_steps.borrowed_amount_sf, 13);
    assert_eq!(in_steps.accrue_interest(BigFraction(U256::from_u128(12))), Ok(()));
    assert_eq!(at_once.borrowed_amount_sf, 40);
    assert_eq!(in_steps.borrowed_amount_sf, 39);
    // What is lost, times the middle rate, is less than the two later rates together.
    assert!((at_once.borrowed_amount_sf - in_steps.borrowed_amount_sf) * 4 < 12 + 4);
}

#[test]
fn interest_lost_in_steps_is_bounded() {
    let mut at_once = ObligationLiquidity::new(key(1), BigFraction(U256::from_u128(1000)));
    at_once.borrow(Fraction::from_bits(999));
    let mut in_steps = at_once;
    assert_eq!(at_once.accrue_interest(BigFraction(U256::from_u128(10_010))), Ok(()));
    assert_eq!(in_steps.accrue_interest(BigFraction(U256::from_u128(1001))), Ok(()));
    assert_eq!(in_steps.borrowed_amount_sf, 999);
    assert_eq!(in_steps.accrue_interest(BigFraction(U256::from_u128(10_010))), Ok(()));
    assert_eq!(at_once.borrowed_amount_sf, 9999);
    assert_eq!(in_steps.borrowed_amount_sf, 9990);
    assert!((9999 - 9990) * 1001 < 10_010 + 1001);
}

#[test]
fn interest_that_can_be_taken() {
    let mut debt = ObligationLiquidity::new(key(1), BigFraction(U256::from_u128(3)));
    debt.borrow(Fraction::from_bits(2));
    let half = BigFraction(U256([0, 0, 0, 1 << 63]));
    let below_half = BigFraction(U256([u64::MAX, u64::MAX, u64::MAX, u64::MAX >> 1]));
    assert!(debt.can_accrue_interest(BigFraction(U256::from_u128(2))));
    assert!(debt.can_accrue_interest(BigFraction(U256::from_u128(3))));
    assert!(debt.can_accrue_interest(BigFraction(U256::from_u128(4))));
    assert!(debt.can_accrue_interest(below_half));
    assert!(!debt.can_accrue_interest(half));
    debt.repay(Fraction::from_bits(2));
    assert!(debt.can_accrue_interest(half));
    let unborn = ObligationLiquidity::default();
    assert!(unborn.can_accrue_interest(BigFraction(U256::from_u128(0))));
    assert!(!unborn.can_accrue_interest(BigFraction(U256::from_u128(1))));
}

#[test]
fn keys_are_written_in_base_58() {
    assert_eq!(Pubkey::default().to_text(), "11111111111111111111111111111111");
    assert_eq!(key(1).to_text(), "4vJ9JU1bJJE96FWSJKvHsmmFADCg4gpZQff4P3bkLKi");
    assert_eq!(key(2).to_text(), "8qbHbw2BbbTHBW1sbeqakYXVKRQM8Ne7pLK7m6CVfeR");
    assert_eq!(key(255).to_text(), "JEKNVnkbo3jma5nREBBJCDoXFVeKkD56V3xKrvRmWxFG");
    let mut counting = [0u8; 32];
    for i in 0..32u8 {
        counting[usize::from(i)] = i;
    }
    assert_eq!(
        Pubkey::new_from_array(counting).to_text(),
        "1thX6LZfHDZZKUs92febYZhYRcXddmzfzF2NvTkPNE"
    );
    let mut small = [0u8; 32];
    small[31] = 7;
    assert_eq!(
        Pubkey::new_from_array(small).to_text(),
        "11111111111111111111111111111118"
    );
    small[31] = 58;
    assert_eq!(
        Pubkey::new_from_array(small).to_text(),
        "111111111111111111111111111111121"
    );
}

#[test]
fn slot_lines() {
    let mut text = String::from(">");
    push_deposit_line(&mut text, "abc", Fraction::from_bits(ONE / 4), 12);
    assert_eq!(text, ">\n  Collateral reserve: abc, value: $0.2500, lamports: 12");
    let mut text = String::new();
    push_borrow_line(
        &mut text,
        "xyz",
        Fraction::from_bits(2 * ONE),
        Fraction::from_bits(7 * ONE + 5),
    );
    assert_eq!(text, "\n  Borrowed reserve  : xyz, value: $2.0000, lamports: 7");
}

#[test]
fn summary_of_a_blank_obligation() {
    assert_eq!(
        Obligation::default().to_string(),
        "Obligation summary, collateral value $0.0000, liquidity risk adjusted value $0.0000, \
         liquidity risk unadjusted value $0.0000 ltv 0%"
    );
}

#[test]
fn summary_lists_the_slots_taken() {
    let mut o = position();
    o.borrow_factor_adjusted_debt_value_sf = 666 * ONE + ONE / 2;
    o.deposits[3] = ObligationCollateral::new(key(1));
    o.deposits[3].deposited_amount = 55;
    o.deposits[3].market_value_sf = 1000 * ONE;
    o.borrows[1] = ObligationLiquidity::new(key(2), BigFraction(U256::from_u128(ONE)));
    o.borrows[1].borrowed_amount_sf = 9 * ONE + ONE / 3;
    o.borrows[1].market_value_sf = 400 * ONE;
    assert_eq!(
        o.to_string(),
        "Obligation summary, collateral value $1000.0000, liquidity risk adjusted value \
         $666.5000, liquidity risk unadjusted value $400.0000 ltv 67%\
         \n  Collateral reserve: 4vJ9JU1bJJE96FWSJKvHsmmFADCg4gpZQff4P3bkLKi, \
         value: $1000.0000, lamports: 55\
         \n  Borrowed reserve  : 8qbHbw2BbbTHBW1sbeqakYXVKRQM8Ne7pLK7m6CVfeR, \
         value: $400.0000, lamports: 9"
    );
}

#[test]
fn summary_has_a_line_for_each_slot_taken() {
    let mut o = position();
    assert_eq!(o.to_string().matches('\n').count(), 0);
    let mut texts = vec![];
    for slot in [1usize, 2, 7] {
        o.deposits[slot] = ObligationCollateral::new(key(slot as u8));
        texts.push(key(slot as u8).to_text());
    }
    for slot in [0usize, 4] {
        let reserve = key(10 + slot as u8);
        o.borrows[slot] = ObligationLiquidity::new(reserve, BigFraction(U256::from_u128(ONE)));
        texts.push(reserve.to_text());
    }
    let text = o.to_string();
    assert_eq!(text.matches('\n').count(), o.deposits_count() + o.borrows_count());
    assert_eq!(text.lines().count(), 6);
    for (line, reserve) in text.lines().skip(1).zip(texts) {
        assert!(line.contains(&reserve));
    }
    for line in text.lines().skip(1).take(3) {
        assert!(line.starts_with("  Collateral reserve: "));
    }
    for line in text.lines().skip(4) {
        assert!(line.starts_with("  Borrowed reserve  : "));
    }
}

#[test]
fn summaries_that_can_be_written() {
    let largest = u128::MAX - ONE / 20_000;
    assert!(Obligation::default().can_be_written());
    assert!(position().can_be_written());
    assert!(Fraction::from_bits(largest).can_be_written());
    assert!(!Fraction::from_bits(largest + 1).can_be_written());

    let mut o = position();
    o.deposited_value_sf = largest;
    assert!(o.can_be_written());
    o.deposited_value_sf = largest + 1;
    assert!(!o.can_be_written());

    let mut o = position();
    o.borrowed_assets_market_value_sf = largest + 1;
    assert!(!o.can_be_written());

    let mut o = position();
    o.deposited_value_sf = 0;
    o.borrow_factor_adjusted_debt_value_sf = largest;
    assert!(o.can_be_written());
    o.borrow_factor_adjusted_debt_value_sf = largest + 1;
    assert!(!o.can_be_written());
}

#[test]
fn summaries_of_small_enough_ratios_can_be_written() {
    let mut o = Obligation::default();
    o.deposited_value_sf = 1000 * ONE;
    // The quotient is rounded down, so 655.355 comes out just below the half percent.
    o.borrow_factor_adjusted_debt_value_sf = 655_355 * ONE;
    assert!(o.can_be_written());
    assert!(o.to_string().ends_with(" ltv 65535%"));
    o.borrow_factor_adjusted_debt_value_sf = 655_355 * ONE + 1000;
    assert!(!o.can_be_written());
    // The quotient does not fit in 128 bits.
    o.deposited_value_sf = 1;
    assert!(!o.can_be_written());
}

#[test]
fn only_slots_taken_are_written() {
    let largest = u128::MAX - ONE / 20_000;
    let mut o = position();
    o.deposits[7].market_value_sf = u128::MAX;
    o.borrows[4].market_value_sf = u128::MAX;
    assert!(o.can_be_written());
    let mut with_deposit = o;
    with_deposit.deposits[7].deposit_reserve = key(1);
    assert!(!with_deposit.can_be_written());
    with_deposit.deposits[7].market_value_sf = largest;
    assert!(with_deposit.can_be_written());
    let mut with_borrow = o;
    with_borrow.borrows[4].borrow_reserve = key(1);
    assert!(!with_borrow.can_be_written());
    with_borrow.borrows[4].market_value_sf = largest;
    assert!(with_borrow.can_be_written());
}
