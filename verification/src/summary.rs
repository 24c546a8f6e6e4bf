//! The summary of an obligation in words and numbers.
use vstd::prelude::*;
use vstd::string::*;

use crate::collateral::ObligationCollateral;
use crate::decimal::{decimal, push_decimal};
use crate::fraction::{floor_of, fraction_text, is_displayable};
use crate::fraction::{lemma_quotient_not_negative, percent_of, quotient_bits, Fraction};
use crate::laws::law_summary_lines;
use crate::lines::line_breaks;
use crate::liquidity::ObligationLiquidity;
use crate::model::{ObligationView, BORROW_SLOTS, DEPOSIT_SLOTS};
use crate::obligation::Obligation;
use crate::pubkey::{pubkey_text, Pubkey};
use crate::reading::{gives_obligation, law_summary_reads_back};
use crate::u256::{u256_modulus, U256};

verus! {

/// The line on a deposit whose reserve is written `reserve`.
pub open spec fn deposit_line(
    reserve: Seq<char>,
    market_value_sf: u128,
    amount: u64,
) -> Seq<char> {
    "\n  Collateral reserve: "@ + reserve + ", value: $"@ + fraction_text(market_value_sf)
        + ", lamports: "@ + decimal(amount as nat)
}

/// The line on a borrow whose reserve is written `reserve`.
pub open spec fn borrow_line(
    reserve: Seq<char>,
    market_value_sf: u128,
    borrowed_amount_sf: u128,
) -> Seq<char> {
    "\n  Borrowed reserve  : "@ + reserve + ", value: $"@ + fraction_text(market_value_sf)
        + ", lamports: "@ + decimal(floor_of(borrowed_amount_sf) as nat)
}

/// The line on a deposit.
pub open spec fn line_on_deposit(deposit: ObligationCollateral) -> Seq<char> {
    deposit_line(
        pubkey_text(deposit.deposit_reserve.bytes@),
        deposit.market_value_sf,
        deposit.deposited_amount,
    )
}

/// The line on a borrow.
pub open spec fn line_on_borrow(borrow: ObligationLiquidity) -> Seq<char> {
    borrow_line(
        pubkey_text(borrow.borrow_reserve.bytes@),
        borrow.market_value_sf,
        borrow.borrowed_amount_sf,
    )
}

/// The lines on the first `count` deposit slots: one on each that is not empty.
pub open spec fn deposit_lines(deposits: Seq<ObligationCollateral>, count: int) -> Seq<char>
    decreases count,
{
    if count <= 0 {
        Seq::empty()
    } else {
        let before = deposit_lines(deposits, count - 1);
        let deposit = deposits[count - 1];
        if deposit.is_empty() {
            before
        } else {
            before + line_on_deposit(deposit)
        }
    }
}

/// The lines on the first `count` borrow slots: one on each that is not empty.
pub open spec fn borrow_lines(borrows: Seq<ObligationLiquidity>, count: int) -> Seq<char>
    decreases count,
{
    if count <= 0 {
        Seq::empty()
    } else {
        let before = borrow_lines(borrows, count - 1);
        let borrow = borrows[count - 1];
        if borrow.is_empty() {
            before
        } else {
            before + line_on_borrow(borrow)
        }
    }
}

impl ObligationView {
    /// The loan-to-value ratio in percent, zero without deposits.
    pub open spec fn ltv_percent(self) -> int {
        if self.deposited_value_sf > 0 {
            percent_of(
                quotient_bits(self.borrow_factor_adjusted_debt_value_sf, self.deposited_value_sf),
            )
        } else {
            0
        }
    }

    /// The first line of the summary.
    pub open spec fn headline(self) -> Seq<char> {
        "Obligation summary, collateral value $"@ + fraction_text(self.deposited_value_sf)
            + ", liquidity risk adjusted value $"@ + fraction_text(
            self.borrow_factor_adjusted_debt_value_sf,
        ) + ", liquidity risk unadjusted value $"@ + fraction_text(
            self.borrowed_assets_market_value_sf,
        ) + " ltv "@ + decimal(self.ltv_percent() as nat) + "%"@
    }

    /// The whole summary.
    pub open spec fn summary(self) -> Seq<char> {
        self.headline() + deposit_lines(self.deposits, DEPOSIT_SLOTS as int) + borrow_lines(
            self.borrows,
            BORROW_SLOTS as int,
        )
    }

    /// Every number of the first line can be written.
    pub open spec fn headline_is_displayable(self) -> bool {
        &&& is_displayable(self.deposited_value_sf)
        &&& is_displayable(self.borrow_factor_adjusted_debt_value_sf)
        &&& is_displayable(self.borrowed_assets_market_value_sf)
        &&& self.ltv_percent() <= u16::MAX
    }

    /// Every number of the summary can be written.
    pub open spec fn summary_is_displayable(self) -> bool {
        &&& self.headline_is_displayable()
        &&& forall|i: int|
            0 <= i < self.deposits.len() && !(#[trigger] self.deposits[i]).is_empty()
                ==> is_displayable(self.deposits[i].market_value_sf)
        &&& forall|i: int|
            0 <= i < self.borrows.len() && !(#[trigger] self.borrows[i]).is_empty()
                ==> is_displayable(self.borrows[i].market_value_sf)
    }
}

/// Appends the line on a deposit whose reserve is written `reserve`.
pub fn push_deposit_line(text: &mut String, reserve: &str, market_value: Fraction, amount: u64)
    requires
        is_displayable(market_value.bits),
    ensures
        final(text)@ == old(text)@ + deposit_line(reserve@, market_value.bits, amount),
{
    text.append("\n  Collateral reserve: ");
    text.append(reserve);
    text.append(", value: $");
    market_value.push_display(text);
    text.append(", lamports: ");
    push_decimal(text, amount as u128);
    assert(text@ =~= old(text)@ + deposit_line(reserve@, market_value.bits, amount));
}

/// Appends the line on a borrow whose reserve is written `reserve`.
pub fn push_borrow_line(
    text: &mut String,
    reserve: &str,
    market_value: Fraction,
    borrowed_amount: Fraction,
)
    requires
        is_displayable(market_value.bits),
    ensures
        final(text)@ == old(text)@ + borrow_line(
            reserve@,
            market_value.bits,
            borrowed_amount.bits,
        ),
{
    text.append("\n  Borrowed reserve  : ");
    text.append(reserve);
    text.append(", value: $");
    market_value.push_display(text);
    text.append(", lamports: ");
    push_decimal(text, borrowed_amount.to_num());
    assert(text@ =~= old(text)@ + borrow_line(reserve@, market_value.bits, borrowed_amount.bits));
}

impl Obligation {
    /// Appends the first line of the summary.
    fn push_headline(&self, text: &mut String)
        requires
            self@.headline_is_displayable(),
        ensures
            final(text)@ == old(text)@ + self@.headline(),
    {
        let percent: u16 = if self.deposited_value_sf > 0 {
            proof {
                lemma_quotient_not_negative(
                    self.borrow_factor_adjusted_debt_value_sf,
                    self.deposited_value_sf,
                );
            }
            match self.loan_to_value().to_percent() {
                Some(percent) => percent,
                None => {
                    assert(false);
                    0
                },
            }
        } else {
            0
        };
        text.append("Obligation summary, collateral value $");
        Fraction::from_bits(self.deposited_value_sf).push_display(text);
        text.append(", liquidity risk adjusted value $");
        Fraction::from_bits(self.borrow_factor_adjusted_debt_value_sf).push_display(text);
        text.append(", liquidity risk unadjusted value $");
        Fraction::from_bits(self.borrowed_assets_market_value_sf).push_display(text);
        text.append(" ltv ");
        push_decimal(text, percent as u128);
        text.append("%");
        assert(percent == self@.ltv_percent());
        assert(text@ =~= old(text)@ + self@.headline());
    }

    /// Whether the first line of the summary can be written.
    fn headline_can_be_written(&self) -> (r: bool)
        ensures
            r == self@.headline_is_displayable(),
    {
        let values_fit = Fraction::from_bits(self.deposited_value_sf).can_be_written()
            && Fraction::from_bits(self.borrow_factor_adjusted_debt_value_sf).can_be_written()
            && Fraction::from_bits(self.borrowed_assets_market_value_sf).can_be_written();
        if self.deposited_value_sf == 0 {
            return values_fit;
        }
        let debt = U256::from_u128(self.borrow_factor_adjusted_debt_value_sf);
        let one = U256::from_u128(0x1000_0000_0000_0000);
        assert(debt.value() * one.value() < u256_modulus()) by (nonlinear_arith)
            requires
                debt.value() <= u128::MAX,
                one.value() == 0x1000_0000_0000_0000,
        ;
        let ratio = debt.times(&one).divided_by(&U256::from_u128(self.deposited_value_sf));
        assert(ratio.value() == quotient_bits(
            self.borrow_factor_adjusted_debt_value_sf,
            self.deposited_value_sf,
        ));
        let percent_fits = match ratio.to_u128() {
            // The largest ratio that rounds to 65 535 percent.
            Some(bits) => bits <= 755_572_872_651_620_199_956,
            None => false,
        };
        values_fit && percent_fits
    }

    /// Whether every number of the summary can be written.
    pub fn can_be_written(&self) -> (r: bool)
        ensures
            r == self@.summary_is_displayable(),
    {
        let none = Pubkey::default();
        if !self.headline_can_be_written() {
            return false;
        }
        let mut i: usize = 0;
        while i < 8
            invariant
                i <= 8,
                none == Pubkey::none(),
                forall|k: int|
                    0 <= k < i && !(#[trigger] self@.deposits[k]).is_empty() ==> is_displayable(
                        self@.deposits[k].market_value_sf,
                    ),
            decreases 8 - i,
        {
            let collateral = &self.deposits[i];
            assert(*collateral == self@.deposits[i as int]);
            if collateral.deposit_reserve != none && !Fraction::from_bits(
                collateral.market_value_sf,
            ).can_be_written() {
                return false;
            }
            i = i + 1;
        }
        let mut j: usize = 0;
        while j < 5
            invariant
                j <= 5,
                none == Pubkey::none(),
                forall|k: int|
                    0 <= k < j && !(#[trigger] self@.borrows[k]).is_empty() ==> is_displayable(
                        self@.borrows[k].market_value_sf,
                    ),
            decreases 5 - j,
        {
            let liquidity = &self.borrows[j];
            assert(*liquidity == self@.borrows[j as int]);
            if liquidity.borrow_reserve != none && !Fraction::from_bits(
                liquidity.market_value_sf,
            ).can_be_written() {
                return false;
            }
            j = j + 1;
        }
        true
    }

    /// The summary: a line on the whole, then one on each slot that is taken.
    pub fn to_string(&self) -> (r: String)
        requires
            self@.summary_is_displayable(),
        ensures
            r@ == self@.summary(),
            line_breaks(r@) == self@.deposit_count() + self@.borrow_count(),
            gives_obligation(r@, self@),
    {
        let none = Pubkey::default();
        let mut text = String::new();
        self.push_headline(&mut text);
        assert(text@ =~= self@.headline());
        let mut i: usize = 0;
        while i < 8
            invariant
                i <= 8,
                none == Pubkey::none(),
                self@.summary_is_displayable(),
                text@ == self@.headline() + deposit_lines(self@.deposits, i as int),
            decreases 8 - i,
        {
            let collateral = &self.deposits[i];
            assert(*collateral == self@.deposits[i as int]);
            if collateral.deposit_reserve != none {
                push_deposit_line(
                    &mut text,
                    collateral.deposit_reserve.to_text().as_str(),
                    Fraction::from_bits(collateral.market_value_sf),
                    collateral.deposited_amount,
                );
            }
            i = i + 1;
            assert(text@ =~= self@.headline() + deposit_lines(self@.deposits, i as int));
        }
        let ghost above = text@;
        let mut j: usize = 0;
        while j < 5
            invariant
                j <= 5,
                none == Pubkey::none(),
                self@.summary_is_displayable(),
                text@ == above + borrow_lines(self@.borrows, j as int),
            decreases 5 - j,
        {
            let liquidity = &self.borrows[j];
            assert(*liquidity == self@.borrows[j as int]);
            if liquidity.borrow_reserve != none {
                push_borrow_line(
                    &mut text,
                    liquidity.borrow_reserve.to_text().as_str(),
                    Fraction::from_bits(liquidity.market_value_sf),
                    Fraction::from_bits(liquidity.borrowed_amount_sf),
                );
            }
            j = j + 1;
            assert(text@ =~= above + borrow_lines(self@.borrows, j as int));
        }
        proof {
            law_summary_lines(self@);
            law_summary_reads_back(self@);
        }
        text
    }
}

} // verus!
