//! Lines of text.
use vstd::prelude::*;

use crate::collateral::ObligationCollateral;
use crate::decimal::{decimal, decimal4, digit};
use crate::fraction::{floor_of, fraction_text, one_bits};
use crate::liquidity::ObligationLiquidity;
use crate::model::ObligationView;
use crate::pubkey::{base58, base58_digit, big_endian, pubkey_text};
use crate::summary::{borrow_line, borrow_lines, deposit_line, deposit_lines};
use crate::summary::{line_on_borrow, line_on_deposit};

verus! {

/// How many line breaks a text holds.
pub open spec fn line_breaks(text: Seq<char>) -> nat {
    text.filter(|c: char| c == '\n').len()
}

/// A text without line breaks.
pub open spec fn is_one_line(text: Seq<char>) -> bool {
    forall|i: int| 0 <= i < text.len() ==> #[trigger] text[i] != '\n'
}

/// The line breaks of two texts add up.
pub proof fn lemma_line_breaks_add(first: Seq<char>, second: Seq<char>)
    ensures
        line_breaks(first + second) == line_breaks(first) + line_breaks(second),
{
    Seq::filter_distributes_over_add(first, second, |c: char| c == '\n');
}

/// A text of one line has no line breaks.
pub proof fn lemma_one_line(text: Seq<char>)
    requires
        is_one_line(text),
    ensures
        line_breaks(text) == 0,
    decreases text.len(),
{
    reveal(Seq::filter);
    if text.len() > 0 {
        assert(text.last() != '\n');
        assert(is_one_line(text.drop_last())) by {
            assert forall|i: int| 0 <= i < text.len() - 1 implies #[trigger] text.drop_last()[i]
                != '\n' by {
                assert(text.drop_last()[i] == text[i]);
            }
        }
        lemma_one_line(text.drop_last());
    }
}

/// A text that starts with a line break and holds no other has one.
pub proof fn lemma_next_line(text: Seq<char>)
    requires
        text.len() > 0,
        text[0] == '\n',
        is_one_line(text.skip(1)),
    ensures
        line_breaks(text) == 1,
{
    reveal(Seq::filter);
    let start = seq!['\n'];
    assert(text =~= start + text.skip(1));
    lemma_line_breaks_add(start, text.skip(1));
    lemma_one_line(text.skip(1));
    assert(start.last() == '\n');
    assert(start.drop_last() =~= Seq::<char>::empty());
    lemma_one_line(start.drop_last());
}

proof fn lemma_digit(d: int)
    requires
        0 <= d < 10,
    ensures
        digit(d) != '\n',
{
}

proof fn lemma_decimal(n: nat)
    ensures
        is_one_line(decimal(n)),
    decreases n,
{
    if n < 10 {
        lemma_digit(n as int);
    } else {
        lemma_decimal(n / 10);
        lemma_digit((n % 10) as int);
    }
}

proof fn lemma_decimal4(n: nat)
    requires
        n < 10_000,
    ensures
        is_one_line(decimal4(n)),
{
    lemma_digit((n / 1000) as int);
    lemma_digit((n / 100 % 10) as int);
    lemma_digit((n / 10 % 10) as int);
    lemma_digit((n % 10) as int);
}

/// A fraction is written on one line.
pub proof fn lemma_fraction_text(bits: u128)
    ensures
        is_one_line(fraction_text(bits)),
{
    let moved = bits + one_bits() / 20_000;
    let part = moved % one_bits();
    lemma_decimal((moved / one_bits()) as nat);
    lemma_decimal4((part / 0x4000_0000 * 10_000 / 0x4000_0000) as nat);
    reveal_strlit(".");
}

proof fn lemma_base58_digit(d: int)
    requires
        0 <= d < 58,
    ensures
        base58_digit(d) != '\n',
{
    reveal_strlit("123456789ABCDEFGHJKLMNPQRSTUVWXYZabcdefghijkmnopqrstuvwxyz");
}

proof fn lemma_base58(n: nat)
    ensures
        is_one_line(base58(n)),
    decreases n,
{
    if n > 0 {
        lemma_base58(n / 58);
        lemma_base58_digit((n % 58) as int);
    }
}

/// An address is written on one line.
pub proof fn lemma_pubkey_text(bytes: Seq<u8>)
    ensures
        is_one_line(pubkey_text(bytes)),
{
    lemma_base58(big_endian(bytes));
}

proof fn lemma_deposit_line(reserve: Seq<char>, market_value_sf: u128, amount: u64)
    requires
        is_one_line(reserve),
    ensures
        line_breaks(deposit_line(reserve, market_value_sf, amount)) == 1,
{
    reveal_strlit("\n  Collateral reserve: ");
    reveal_strlit(", value: $");
    reveal_strlit(", lamports: ");
    lemma_fraction_text(market_value_sf);
    lemma_decimal(amount as nat);
    lemma_next_line(deposit_line(reserve, market_value_sf, amount));
}

proof fn lemma_borrow_line(reserve: Seq<char>, market_value_sf: u128, borrowed_amount_sf: u128)
    requires
        is_one_line(reserve),
    ensures
        line_breaks(borrow_line(reserve, market_value_sf, borrowed_amount_sf)) == 1,
{
    reveal_strlit("\n  Borrowed reserve  : ");
    reveal_strlit(", value: $");
    reveal_strlit(", lamports: ");
    lemma_fraction_text(market_value_sf);
    lemma_decimal(floor_of(borrowed_amount_sf) as nat);
    lemma_next_line(borrow_line(reserve, market_value_sf, borrowed_amount_sf));
}

/// The first line of a summary is one line.
pub proof fn lemma_headline(o: ObligationView)
    ensures
        is_one_line(o.headline()),
{
    reveal_strlit("Obligation summary, collateral value $");
    reveal_strlit(", liquidity risk adjusted value $");
    reveal_strlit(", liquidity risk unadjusted value $");
    reveal_strlit(" ltv ");
    reveal_strlit("%");
    lemma_fraction_text(o.deposited_value_sf);
    lemma_fraction_text(o.borrow_factor_adjusted_debt_value_sf);
    lemma_fraction_text(o.borrowed_assets_market_value_sf);
    lemma_decimal(o.ltv_percent() as nat);
}

/// The lines on deposit slots are those on the slots that are not empty, in
/// their order, with one line break each.
pub proof fn lemma_deposit_lines(deposits: Seq<ObligationCollateral>, count: int)
    requires
        0 <= count <= deposits.len(),
    ensures
        ({
            let taken = deposits.take(count).filter(|c: ObligationCollateral| !c.is_empty());
            &&& deposit_lines(deposits, count) == taken.flat_map(
                |c: ObligationCollateral| line_on_deposit(c),
            )
            &&& line_breaks(deposit_lines(deposits, count)) == taken.len()
        }),
    decreases count,
{
    reveal(Seq::filter);
    let line = |c: ObligationCollateral| line_on_deposit(c);
    if count == 0 {
        lemma_one_line(deposit_lines(deposits, count));
    } else {
        lemma_deposit_lines(deposits, count - 1);
        let deposit = deposits[count - 1];
        let before = deposits.take(count - 1);
        assert(deposits.take(count).drop_last() =~= before);
        if !deposit.is_empty() {
            lemma_pubkey_text(deposit.deposit_reserve.bytes@);
            lemma_deposit_line(
                pubkey_text(deposit.deposit_reserve.bytes@),
                deposit.market_value_sf,
                deposit.deposited_amount,
            );
            lemma_line_breaks_add(deposit_lines(deposits, count - 1), line_on_deposit(deposit));
            before.filter(|c: ObligationCollateral| !c.is_empty()).lemma_flat_map_push(
                line,
                deposit,
            );
        }
    }
}

/// The lines on borrow slots are those on the slots that are not empty, in
/// their order, with one line break each.
pub proof fn lemma_borrow_lines(borrows: Seq<ObligationLiquidity>, count: int)
    requires
        0 <= count <= borrows.len(),
    ensures
        ({
            let taken = borrows.take(count).filter(|l: ObligationLiquidity| !l.is_empty());
            &&& borrow_lines(borrows, count) == taken.flat_map(
                |l: ObligationLiquidity| line_on_borrow(l),
            )
            &&& line_breaks(borrow_lines(borrows, count)) == taken.len()
        }),
    decreases count,
{
    reveal(Seq::filter);
    let line = |l: ObligationLiquidity| line_on_borrow(l);
    if count == 0 {
        lemma_one_line(borrow_lines(borrows, count));
    } else {
        lemma_borrow_lines(borrows, count - 1);
        let borrow = borrows[count - 1];
        let before = borrows.take(count - 1);
        assert(borrows.take(count).drop_last() =~= before);
        if !borrow.is_empty() {
            lemma_pubkey_text(borrow.borrow_reserve.bytes@);
            lemma_borrow_line(
                pubkey_text(borrow.borrow_reserve.bytes@),
                borrow.market_value_sf,
                borrow.borrowed_amount_sf,
            );
            lemma_line_breaks_add(borrow_lines(borrows, count - 1), line_on_borrow(borrow));
            before.filter(|l: ObligationLiquidity| !l.is_empty()).lemma_flat_map_push(line, borrow);
        }
    }
}

} // verus!
