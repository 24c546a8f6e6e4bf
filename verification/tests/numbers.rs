use fixed::types::U68F60;
use obligation::decimal::{push_decimal, push_decimal4};
use obligation::fraction::Fraction;
use obligation::u256::U256;

const ONE: u128 = 1 << 60;

#[test]
fn fractions_add_and_subtract() {
    let a = Fraction::from_bits(3 * ONE + 1);
    let b = Fraction::from_bits(ONE / 2);
    assert_eq!((a + b).to_bits(), 3 * ONE + 1 + ONE / 2);
    assert_eq!((a - b).to_bits(), 3 * ONE + 1 - ONE / 2);
    assert_eq!((a - a).to_bits(), 0);
}

#[test]
fn fraction_subtraction_saturates_at_zero() {
    let a = Fraction::from_bits(5);
    let b = Fraction::from_bits(7);
    assert_eq!(b.saturating_sub(a).to_bits(), 2);
    assert_eq!(a.saturating_sub(b), Fraction::zero());
}

#[test]
fn fractions_scale_by_integers() {
    assert_eq!((Fraction::from_bits(7) * 100u128).to_bits(), 700);
    assert_eq!((Fraction::from_bits(7) / 2u128).to_bits(), 3);
}

#[test]
fn fraction_quotient_rounds_down() {
    let third = Fraction::from_bits(ONE) / Fraction::from_bits(3 * ONE);
    assert_eq!(third.to_bits(), 384307168202282325);
    let same = U68F60::from_bits(ONE) / U68F60::from_bits(3 * ONE);
    assert_eq!(third.to_bits(), same.to_bits());
    // The dividend needs more than 128 bits once it is scaled.
    let large = Fraction::from_bits(u128::MAX) / Fraction::from_bits(ONE * 4);
    assert_eq!(large.to_bits(), u128::MAX / 4);
}

#[test]
fn fraction_to_integers() {
    assert_eq!(Fraction::from_bits(2 * ONE + 1).to_num(), 2);
    assert_eq!(Fraction::from_bits(2 * ONE + 1).to_ceil(), 3);
    assert_eq!(Fraction::from_bits(2 * ONE).to_ceil(), 2);
    assert_eq!(Fraction::from_bits(0).to_ceil(), 0);
    assert_eq!(Fraction::from_bits(u64::MAX as u128 * ONE).to_ceil(), u64::MAX);
}

#[test]
fn fraction_to_percent_rounds_to_nearest() {
    assert_eq!(Fraction::from_bits(ONE / 2).to_percent(), Some(50));
    assert_eq!(Fraction::from_bits(ONE / 3).to_percent(), Some(33));
    assert_eq!(Fraction::from_bits(ONE * 2 / 3).to_percent(), Some(67));
    assert_eq!(Fraction::from_bits(ONE / 200).to_percent(), Some(0));
    assert_eq!(Fraction::from_bits(ONE / 200 + 1).to_percent(), Some(1));
    assert_eq!(Fraction::from_bits(ONE * 65535 / 100).to_percent(), Some(65535));
    assert_eq!(Fraction::from_bits(ONE * 656).to_percent(), None);
}

#[test]
fn fraction_display_has_four_decimals() {
    assert_eq!(Fraction::from_bits(0).to_display(), "0.0000");
    assert_eq!(Fraction::from_bits(ONE).to_display(), "1.0000");
    assert_eq!(Fraction::from_bits(ONE / 2).to_display(), "0.5000");
    assert_eq!(Fraction::from_bits(ONE / 3).to_display(), "0.3333");
    assert_eq!(Fraction::from_bits(ONE * 2 / 3).to_display(), "0.6667");
    assert_eq!(Fraction::from_bits(3 * ONE + ONE / 4).to_display(), "3.2500");
    assert_eq!(
        Fraction::from_bits(1234567 * ONE + ONE * 99999 / 100000).to_display(),
        "1234568.0000"
    );
}

#[test]
fn decimal_text() {
    for n in [0u128, 1, 9, 10, 11, 99, 100, 1234567890, u64::MAX as u128, u128::MAX] {
        let mut text = String::new();
        push_decimal(&mut text, n);
        assert_eq!(text, format!("{}", n));
    }
    for n in [0u128, 7, 10, 123, 9999] {
        let mut text = String::from("x");
        push_decimal4(&mut text, n);
        assert_eq!(text, format!("x{:0>4}", n));
    }
}

#[test]
fn wide_numbers_convert() {
    assert_eq!(U256::from_u128(0).0, [0, 0, 0, 0]);
    assert_eq!(U256::from_u128(u128::MAX).0, [u64::MAX, u64::MAX, 0, 0]);
    assert_eq!(U256([5, 1, 0, 0]).to_u128(), Some((1 << 64) + 5));
    assert_eq!(U256([0, 0, 1, 0]).to_u128(), None);
    assert_eq!(U256([0, 0, 0, 1]).to_u128(), None);
}

#[test]
fn wide_numbers_compare() {
    assert!(U256([9, 0, 0, 0]).less_than(&U256([0, 1, 0, 0])));
    assert!(!U256([0, 1, 0, 0]).less_than(&U256([9, 0, 0, 0])));
    assert!(!U256([1, 2, 3, 4]).less_than(&U256([1, 2, 3, 4])));
    assert!(U256([u64::MAX, u64::MAX, u64::MAX, 3]).less_than(&U256([0, 0, 0, 4])));
    assert!(U256([0, 0, 1, 4]).less_than(&U256([0, 0, 2, 4])));
}

#[test]
fn wide_product() {
    let x = U256::from_u128(u128::MAX);
    let y = U256::from_u128((1 << 127) + 0xdead_beef);
    assert_eq!(
        x.times(&y).0,
        [
            18446744069973623057,
            9223372036854775807,
            3735928558,
            9223372036854775808
        ]
    );
    assert_eq!(U256([1, 2, 3, 4]).times(&U256::from_u128(1)).0, [1, 2, 3, 4]);
    assert_eq!(U256([1, 2, 3, 4]).times(&U256::from_u128(0)).0, [0, 0, 0, 0]);
    assert_eq!(U256([7, 0, 0, 0]).times(&U256([0, 0, 0, 1])).0, [0, 0, 0, 7]);
}

#[test]
fn wide_quotient() {
    // (2^200 + 98765) / (2^130 + 77)
    let n = U256([98765, 0, 0, 1 << 8]);
    let d = U256([77, 0, 4, 0]);
    assert_eq!(n.divided_by(&d).0, [u64::MAX, 63, 0, 0]);
    let all = U256([u64::MAX; 4]);
    assert_eq!(all.divided_by(&U256::from_u128(3)).0, [6148914691236517205; 4]);
    assert_eq!(all.divided_by(&U256::from_u128(1)).0, [u64::MAX; 4]);
    assert_eq!(all.divided_by(&all).0, [1, 0, 0, 0]);
    // The remainder doubled does not fit in 256 bits.
    assert_eq!(all.divided_by(&U256([5, 0, 0, 1 << 63])).0, [1, 0, 0, 0]);
    assert_eq!(U256::from_u128(41).divided_by(&U256::from_u128(42)).0, [0, 0, 0, 0]);
}

#[test]
fn wide_division_undoes_multiplication() {
    let a = U256::from_u128(123456789012345678901234567890);
    let product = a.times(&U256([3, 5, 0, 0]));
    assert_eq!(product.divided_by(&U256([3, 5, 0, 0])), a);
    assert_eq!(product.divided_by(&a).0, [3, 5, 0, 0]);
}
