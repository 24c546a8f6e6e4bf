use obligation::big_fraction::{BigFraction, BigFractionBytes};
use obligation::collateral::ObligationCollateral;
use obligation::error::LendingError;
use obligation::fraction::Fraction;
use obligation::liquidity::ObligationLiquidity;
use obligation::market::{AssetTier, LastUpdate};
use obligation::obligation::{InitObligationParams, Obligation, WithdrawResult};
use obligation::pubkey::Pubkey;
use obligation::u256::U256;

const ONE: u128 = 1 << 60;

fn key(n: u8) -> Pubkey {
    Pubkey::new_from_array([n; 32])
}

fn rate(n: u128) -> BigFraction {
    BigFraction(U256::from_u128(n))
}

fn add_deposit(o: &mut Obligation, n: u8, tier: AssetTier, amount: u64) {
    let deposit = o
        .find_or_add_collateral_to_deposits(key(n), tier, |c| c.deposit(amount))
        .unwrap();
    assert_eq!(deposit.deposit_reserve, key(n));
}

fn add_borrow(o: &mut Obligation, n: u8, tier: AssetTier, amount_sf: u128) -> usize {
    let (borrow, slot) = o
        .find_or_add_liquidity_to_borrows(key(n), rate(ONE), tier)
        .unwrap();
    borrow.borrow(Fraction::from_bits(amount_sf));
    slot
}

#[test]
fn default_is_blank() {
    let o = Obligation::default();
    assert_eq!(o.tag, 0);
    assert_eq!(o.last_update, LastUpdate::default());
    assert_eq!(o.owner, Pubkey::default());
    assert!(o.deposits.iter().all(|c| *c == ObligationCollateral::default()));
    assert!(o.borrows.iter().all(|l| *l == ObligationLiquidity::default()));
    assert_eq!(o.deposits_asset_tiers, [u8::MAX; 8]);
    assert_eq!(o.borrows_asset_tiers, [u8::MAX; 5]);
    assert_eq!(o.elevation_group, 0);
    assert_eq!(o.padding_3, [0; 125]);
    assert_eq!(Obligation::LEN, 1784);
}

#[test]
fn init_replaces_everything() {
    let mut o = Obligation::default();
    o.has_debt = 1;
    o.elevation_group = 3;
    o.deposits_asset_tiers = [0; 8];
    o.allowed_borrow_value_sf = 17;
    let mut deposits = [ObligationCollateral::default(); 8];
    deposits[2] = ObligationCollateral::new(key(9));
    o.init(InitObligationParams {
        current_slot: 77,
        lending_market: key(1),
        owner: key(2),
        deposits,
        borrows: [ObligationLiquidity::default(); 5],
        tag: 5,
        referrer: key(3),
    });
    let mut expected = Obligation::default();
    expected.tag = 5;
    expected.last_update = LastUpdate::new(77);
    expected.lending_market = key(1);
    expected.owner = key(2);
    expected.deposits = deposits;
    expected.referrer = key(3);
    assert!(o == expected);
    assert_eq!(o.last_update.slot, 77);
    assert_eq!(o.last_update.stale, 1);
    assert!(o.has_referrer());
    assert!(!Obligation::default().has_referrer());
}

#[test]
fn new_slots_are_zero() {
    let c = ObligationCollateral::new(key(4));
    assert_eq!(c.deposit_reserve, key(4));
    assert_eq!(c.deposited_amount, 0);
    assert_eq!(c.market_value_sf, 0);
    assert_eq!(c.padding, [0; 9]);
    let l = ObligationLiquidity::new(key(5), BigFraction(U256([1, 2, 3, 4])));
    assert_eq!(l.borrow_reserve, key(5));
    assert_eq!(
        l.cumulative_borrow_rate_bsf,
        BigFractionBytes { value: [1, 2, 3, 4], padding: [0, 0] }
    );
    assert_eq!(l.borrowed_amount_sf, 0);
}

#[test]
fn keys_compare_by_every_byte() {
    let mut bytes = [7u8; 32];
    assert!(Pubkey::new_from_array(bytes) == key(7));
    bytes[31] = 8;
    assert!(Pubkey::new_from_array(bytes) != key(7));
    bytes[31] = 7;
    bytes[0] = 8;
    assert!(Pubkey::new_from_array(bytes) != key(7));
    assert_eq!(Pubkey::default().to_bytes(), [0; 32]);
}

#[test]
fn lookups_on_an_empty_obligation() {
    let mut o = Obligation::default();
    assert_eq!(
        o.find_collateral_in_deposits(key(1)),
        Err(LendingError::ObligationDepositsEmpty)
    );
    assert_eq!(
        o.position_of_collateral_in_deposits(Pubkey::default()),
        Err(LendingError::ObligationDepositsEmpty)
    );
    assert_eq!(
        o.find_liquidity_in_borrows(key(1)),
        Err(LendingError::ObligationBorrowsEmpty)
    );
    assert_eq!(
        o.find_liquidity_in_borrows_mut(key(1)),
        Err(LendingError::ObligationBorrowsEmpty)
    );
    assert!(o.deposits_empty());
    assert!(o.borrows_empty());
    assert_eq!(o.deposits_count(), 0);
    assert_eq!(o.borrows_count(), 0);
}

#[test]
fn deposits_are_added_once_and_found() {
    let mut o = Obligation::default();
    add_deposit(&mut o, 1, AssetTier::Regular, 10);
    add_deposit(&mut o, 2, AssetTier::IsolatedCollateral, 20);
    // Found again: neither the tier nor the setup runs a second time.
    let again = o
        .find_or_add_collateral_to_deposits(key(1), AssetTier::IsolatedDebt, |_| {
            Err(LendingError::MathOverflow)
        })
        .unwrap();
    assert_eq!(again.deposited_amount, 10);
    again.deposited_amount = 11;
    assert_eq!(o.deposits_count(), 2);
    assert!(!o.deposits_empty());
    assert_eq!(o.position_of_collateral_in_deposits(key(2)), Ok(1));
    assert_eq!(o.find_collateral_in_deposits(key(1)).unwrap().deposited_amount, 11);
    assert_eq!(
        o.find_collateral_in_deposits(key(3)),
        Err(LendingError::InvalidObligationCollateral)
    );
    assert_eq!(
        o.position_of_collateral_in_deposits(key(3)),
        Err(LendingError::InvalidObligationCollateral)
    );
    // The address of no account finds the first empty slot.
    assert_eq!(o.position_of_collateral_in_deposits(Pubkey::default()), Ok(2));
    assert_eq!(o.deposits_asset_tiers[0], 0);
    assert_eq!(o.deposits_asset_tiers[1], 1);
    assert_eq!(o.deposits_asset_tiers[2], u8::MAX);
}

#[test]
fn refused_setup_leaves_the_slot_taken() {
    let mut o = Obligation::default();
    let refused = o.find_or_add_collateral_to_deposits(key(6), AssetTier::IsolatedDebt, |c| {
        c.deposited_amount = 3;
        Err(LendingError::MathOverflow)
    });
    assert_eq!(refused, Err(LendingError::MathOverflow));
    assert_eq!(o.deposits[0].deposit_reserve, key(6));
    assert_eq!(o.deposits[0].deposited_amount, 3);
    assert_eq!(o.deposits_asset_tiers[0], 2);
}

#[test]
fn deposit_slots_run_out() {
    let mut o = Obligation::default();
    for n in 1..=8 {
        add_deposit(&mut o, n, AssetTier::Regular, 1);
    }
    assert_eq!(o.deposits_count(), 8);
    let before = o;
    let full = o.find_or_add_collateral_to_deposits(key(9), AssetTier::Regular, |_| Ok(()));
    assert_eq!(full, Err(LendingError::ObligationReserveLimit));
    assert!(o == before);
    // A freed slot in the middle is taken next.
    assert_eq!(o.withdraw(1, 4), Ok(WithdrawResult::Full));
    add_deposit(&mut o, 9, AssetTier::Regular, 1);
    assert_eq!(o.position_of_collateral_in_deposits(key(9)), Ok(4));
}

#[test]
fn borrows_are_added_once_and_found() {
    let mut o = Obligation::default();
    assert_eq!(add_borrow(&mut o, 1, AssetTier::Regular, 100), 0);
    assert_eq!(add_borrow(&mut o, 2, AssetTier::IsolatedDebt, 200), 1);
    assert_eq!(add_borrow(&mut o, 1, AssetTier::IsolatedDebt, 5), 0);
    assert_eq!(o.borrows_asset_tiers, [0, 2, u8::MAX, u8::MAX, u8::MAX]);
    assert_eq!(o.borrows_count(), 2);
    let (borrow, slot) = o.find_liquidity_in_borrows(key(1)).unwrap();
    assert_eq!((borrow.borrowed_amount_sf, slot), (105, 0));
    let (borrow, slot) = o.find_liquidity_in_borrows_mut(key(2)).unwrap();
    assert_eq!(slot, 1);
    borrow.market_value_sf = 42;
    assert_eq!(o.borrows[1].market_value_sf, 42);
    assert_eq!(
        o.find_liquidity_in_borrows(key(3)),
        Err(LendingError::InvalidObligationLiquidity)
    );
    assert_eq!(
        o.find_liquidity_in_borrows_mut(key(3)),
        Err(LendingError::InvalidObligationLiquidity)
    );
}

#[test]
fn borrow_slots_run_out() {
    let mut o = Obligation::default();
    for n in 1..=5 {
        add_borrow(&mut o, n, AssetTier::Regular, 1);
    }
    let before = o;
    let full = o.find_or_add_liquidity_to_borrows(key(6), rate(ONE), AssetTier::Regular);
    assert_eq!(full, Err(LendingError::ObligationReserveLimit));
    assert!(o == before);
}

#[test]
fn withdrawals() {
    let mut o = Obligation::default();
    add_deposit(&mut o, 1, AssetTier::Regular, 10);
    add_deposit(&mut o, 2, AssetTier::Regular, 20);
    assert_eq!(o.withdraw(21, 1), Err(LendingError::MathOverflow));
    assert_eq!(o.deposits[1].deposited_amount, 20);
    assert_eq!(o.withdraw(5, 1), Ok(WithdrawResult::Partial));
    assert_eq!(o.deposits[1].deposited_amount, 15);
    assert_eq!(o.deposits_count(), 2);
    assert_eq!(o.withdraw(15, 1), Ok(WithdrawResult::Full));
    assert_eq!(o.deposits[1], ObligationCollateral::default());
    assert_eq!(o.deposits_asset_tiers[1], u8::MAX);
    assert_eq!(o.deposits_count(), 1);
    assert_eq!(o.deposits[0].deposited_amount, 10);
    // Withdrawing in two parts is withdrawing at once.
    let mut at_once = o;
    assert_eq!(o.withdraw(4, 0), Ok(WithdrawResult::Partial));
    assert_eq!(o.withdraw(6, 0), Ok(WithdrawResult::Full));
    assert_eq!(at_once.withdraw(10, 0), Ok(WithdrawResult::Full));
    assert!(o == at_once);
}

#[test]
fn repayments() {
    let mut o = Obligation::default();
    add_borrow(&mut o, 1, AssetTier::Regular, 10);
    add_borrow(&mut o, 2, AssetTier::IsolatedDebt, 30);
    o.repay(Fraction::from_bits(12), 1);
    assert_eq!(o.borrows[1].borrowed_amount_sf, 18);
    assert_eq!(o.borrows_asset_tiers[1], 2);
    let mut at_once = o;
    o.repay(Fraction::from_bits(8), 1);
    o.repay(Fraction::from_bits(10), 1);
    at_once.repay(Fraction::from_bits(18), 1);
    assert!(o == at_once);
    assert_eq!(o.borrows[1], ObligationLiquidity::default());
    assert_eq!(o.borrows_asset_tiers[1], u8::MAX);
    assert_eq!(o.borrows[0].borrowed_amount_sf, 10);
}

#[test]
fn deposit_and_withdraw_are_inverse() {
    let mut c = ObligationCollateral::new(key(1));
    assert_eq!(c.deposit(u64::MAX - 1), Ok(()));
    assert_eq!(c.deposit(2), Err(LendingError::MathOverflow));
    assert_eq!(c.deposited_amount, u64::MAX - 1);
    let before = c;
    assert_eq!(c.deposit(1), Ok(()));
    assert_eq!(c.withdraw(1), Ok(()));
    assert_eq!(c, before);
    assert_eq!(c.withdraw(u64::MAX), Err(LendingError::MathOverflow));
    assert_eq!(c, before);
}

#[test]
fn borrow_and_repay_are_inverse() {
    let mut l = ObligationLiquidity::new(key(1), rate(ONE));
    l.borrow(Fraction::from_bits(u128::MAX - 3));
    let before = l;
    l.borrow(Fraction::from_bits(3));
    assert_eq!(l.borrowed_amount_sf, u128::MAX);
    l.repay(Fraction::from_bits(3));
    assert_eq!(l, before);
}

#[test]
fn tiers_of_what_is_held() {
    let mut o = Obligation::default();
    assert_eq!(o.get_deposit_asset_tiers(), vec![]);
    assert_eq!(o.get_borrows_asset_tiers(), vec![]);
    add_deposit(&mut o, 1, AssetTier::IsolatedCollateral, 1);
    add_deposit(&mut o, 2, AssetTier::Regular, 0);
    add_deposit(&mut o, 3, AssetTier::Regular, 1);
    assert_eq!(
        o.get_deposit_asset_tiers(),
        vec![AssetTier::IsolatedCollateral, AssetTier::Regular]
    );
    add_borrow(&mut o, 1, AssetTier::IsolatedDebt, 0);
    add_borrow(&mut o, 2, AssetTier::IsolatedDebt, 1);
    assert_eq!(o.get_borrows_asset_tiers(), vec![AssetTier::IsolatedDebt]);
    assert_eq!(AssetTier::from_code(3), None);
    assert_eq!(u8::from(AssetTier::IsolatedDebt), 2);
}

#[test]
fn single_token_amount() {
    let mut o = Obligation::default();
    assert_eq!(o.get_borrowed_amount_if_single_token(), Some(0));
    add_borrow(&mut o, 1, AssetTier::Regular, 2 * ONE + 1);
    assert_eq!(o.get_borrowed_amount_if_single_token(), Some(3));
    add_borrow(&mut o, 2, AssetTier::Regular, 0);
    assert_eq!(o.get_borrowed_amount_if_single_token(), None);
}

#[test]
fn debt_flag_follows_the_borrows() {
    let mut o = Obligation::default();
    o.has_debt = 9;
    o.update_has_debt();
    assert_eq!(o.has_debt, 0);
    add_borrow(&mut o, 1, AssetTier::Regular, 0);
    o.update_has_debt();
    assert_eq!(o.has_debt, 1);
    let before = o;
    o.update_has_debt();
    assert!(o == before);
}

#[test]
fn marks_for_deleveraging() {
    let mut o = Obligation::default();
    assert!(!o.is_marked_for_deleveraging());
    assert_eq!(o.check_not_marked_for_deleveraging(), Ok(()));
    let blank = o;
    o.mark_for_deleveraging(1700000000, 60);
    assert!(o.is_marked_for_deleveraging());
    assert_eq!(o.autodeleverage_margin_call_started_timestamp, 1700000000);
    assert_eq!(o.autodeleverage_target_ltv_pct, 60);
    assert_eq!(
        o.check_not_marked_for_deleveraging(),
        Err(LendingError::ObligationCurrentlyMarkedForDeleveraging)
    );
    o.unmark_for_deleveraging();
    assert!(o == blank);
}

#[test]
fn slots_open_where_others_are_out_of_order() {
    let mut o = Obligation::default();
    // A reserve twice, a tier that stands for none, and rests in an empty slot.
    o.deposits[0] = ObligationCollateral::new(key(1));
    o.deposits[2] = ObligationCollateral::new(key(1));
    o.deposits_asset_tiers[0] = 77;
    o.deposits[1].deposited_amount = 5;
    o.borrows[0] = ObligationLiquidity::new(key(3), rate(ONE));
    o.borrows[1] = ObligationLiquidity::new(key(3), rate(ONE));
    o.borrows_asset_tiers[1] = 77;
    add_deposit(&mut o, 2, AssetTier::IsolatedDebt, 10);
    assert_eq!(o.position_of_collateral_in_deposits(key(2)), Ok(1));
    assert_eq!(o.deposits[1].deposited_amount, 10);
    assert_eq!(o.deposits_asset_tiers[1], 2);
    assert_eq!(o.deposits_count(), 3);
    assert_eq!(add_borrow(&mut o, 4, AssetTier::Regular, ONE), 2);
    assert_eq!(o.find_liquidity_in_borrows(key(4)).unwrap().1, 2);
    assert_eq!(o.borrows_asset_tiers[2], 0);
    assert_eq!(o.borrows_count(), 3);
}
