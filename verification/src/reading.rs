//! Reading a summary back: what its text says, apart from how it is written.
use vstd::prelude::*;

use crate::collateral::ObligationCollateral;
use crate::decimal::{decimal, decimal4};
use crate::fraction::{floor_of, fraction_text, lemma_quotient_not_negative};
use crate::fraction::{one_bits, quotient_bits};
use crate::lines::{lemma_borrow_lines, lemma_deposit_lines};
use crate::liquidity::ObligationLiquidity;
use crate::meaning::{law_percent_is_nearest, law_ratio_of_values, lemma_rounded_down_unique};
use crate::model::{ObligationView, BORROW_SLOTS, DEPOSIT_SLOTS};
use crate::pubkey::{base58, base58_digit, big_endian, leading_zeros, pubkey_text, Pubkey};
use crate::summary::{borrow_line, deposit_line, line_on_borrow, line_on_deposit};

verus! {

/// A text of decimal digits.
pub open spec fn is_digits(text: Seq<char>) -> bool {
    forall|i: int| 0 <= i < text.len() ==> '0' <= #[trigger] text[i] <= '9'
}

/// A number as it is commonly written: digits, the first not zero unless it is
/// the only one.
pub open spec fn is_number(text: Seq<char>) -> bool {
    &&& is_digits(text)
    &&& text.len() > 0
    &&& text.len() > 1 ==> text[0] != '0'
}

/// The number that digits stand for.
pub open spec fn read_number(text: Seq<char>) -> int
    decreases text.len(),
{
    if text.len() == 0 {
        0
    } else {
        10 * read_number(text.drop_last()) + (text.last() as int - '0' as int)
    }
}

/// A text that gives the number `n`.
pub open spec fn gives_number(text: Seq<char>, n: int) -> bool {
    is_number(text) && read_number(text) == n
}

/// A text that gives a fraction to four decimals: the fraction moved by half of
/// the last decimal, with its lowest 30 bits cut, rounded down.
pub open spec fn gives_value(text: Seq<char>, bits: u128) -> bool {
    exists|whole: Seq<char>, decimals: Seq<char>|
        {
            let shown = 10_000 * read_number(whole) + read_number(decimals);
            let moved = (bits + 57_646_075_230_342) / 0x4000_0000;
            &&& #[trigger] (whole + seq!['.'] + decimals) == text
            &&& is_number(whole)
            &&& is_digits(decimals)
            &&& decimals.len() == 4
            &&& shown * 0x4000_0000 <= moved * 10_000
            &&& moved * 10_000 < (shown + 1) * 0x4000_0000
        }
}

/// A line that gives the reserve, the value and the amount of a deposit.
pub open spec fn gives_deposit(line: Seq<char>, deposit: ObligationCollateral) -> bool {
    exists|value: Seq<char>, lamports: Seq<char>|
        {
            &&& line == "\n  Collateral reserve: "@ + pubkey_text(deposit.deposit_reserve.bytes@)
                + ", value: $"@ + value + ", lamports: "@ + lamports
            &&& #[trigger] gives_value(value, deposit.market_value_sf)
            &&& #[trigger] gives_number(lamports, deposit.deposited_amount as int)
        }
}

/// A line that gives the reserve, the value and the whole tokens of a borrow.
pub open spec fn gives_borrow(line: Seq<char>, borrow: ObligationLiquidity) -> bool {
    exists|value: Seq<char>, lamports: Seq<char>, tokens: int|
        {
            &&& line == "\n  Borrowed reserve  : "@ + pubkey_text(borrow.borrow_reserve.bytes@)
                + ", value: $"@ + value + ", lamports: "@ + lamports
            &&& #[trigger] gives_value(value, borrow.market_value_sf)
            &&& #[trigger] gives_number(lamports, tokens)
            &&& tokens * 0x1000_0000_0000_0000 <= borrow.borrowed_amount_sf
            &&& borrow.borrowed_amount_sf < (tokens + 1) * 0x1000_0000_0000_0000
        }
}

/// A percentage that is nearest to the ratio of a debt to deposits, rounded down,
/// or zero without deposits.
pub open spec fn is_ltv_percent(percent: int, debt: u128, deposited: u128) -> bool {
    if deposited == 0 {
        percent == 0
    } else {
        exists|ratio: int|
            {
                &&& #[trigger] (ratio * deposited) <= debt * 0x1000_0000_0000_0000
                &&& debt * 0x1000_0000_0000_0000 < (ratio + 1) * deposited
                &&& (2 * percent - 1) * 0x1000_0000_0000_0000 <= 200 * ratio
                &&& 200 * ratio < (2 * percent + 1) * 0x1000_0000_0000_0000
            }
    }
}

/// A line that gives the three values and the loan-to-value of an obligation.
pub open spec fn gives_headline(line: Seq<char>, o: ObligationView) -> bool {
    exists|
        deposited: Seq<char>,
        adjusted: Seq<char>,
        unadjusted: Seq<char>,
        ltv: Seq<char>,
        percent: int,
    |
        {
            &&& line == "Obligation summary, collateral value $"@ + deposited
                + ", liquidity risk adjusted value $"@ + adjusted
                + ", liquidity risk unadjusted value $"@ + unadjusted + " ltv "@ + ltv + "%"@
            &&& #[trigger] gives_value(deposited, o.deposited_value_sf)
            &&& #[trigger] gives_value(adjusted, o.borrow_factor_adjusted_debt_value_sf)
            &&& #[trigger] gives_value(unadjusted, o.borrowed_assets_market_value_sf)
            &&& #[trigger] gives_number(ltv, percent)
            &&& is_ltv_percent(
                percent,
                o.borrow_factor_adjusted_debt_value_sf,
                o.deposited_value_sf,
            )
        }
}

/// Lines that give the deposits of the slots with a reserve, in their order.
pub open spec fn give_deposits(lines: Seq<Seq<char>>, deposits: Seq<ObligationCollateral>) -> bool {
    let taken = |c: ObligationCollateral| c.deposit_reserve != Pubkey::none();
    &&& lines.len() == deposits.filter(taken).len()
    &&& forall|i: int|
        0 <= i < deposits.len() && (#[trigger] deposits[i]).deposit_reserve != Pubkey::none() ==> {
            let at = deposits.take(i).filter(taken).len() as int;
            at < lines.len() && gives_deposit(lines[at], deposits[i])
        }
}

/// Lines that give the borrows of the slots with a reserve, in their order.
pub open spec fn give_borrows(lines: Seq<Seq<char>>, borrows: Seq<ObligationLiquidity>) -> bool {
    let taken = |l: ObligationLiquidity| l.borrow_reserve != Pubkey::none();
    &&& lines.len() == borrows.filter(taken).len()
    &&& forall|i: int|
        0 <= i < borrows.len() && (#[trigger] borrows[i]).borrow_reserve != Pubkey::none() ==> {
            let at = borrows.take(i).filter(taken).len() as int;
            at < lines.len() && gives_borrow(lines[at], borrows[i])
        }
}

/// A text that gives an obligation: its first line, then its deposits, then its
/// borrows.
pub open spec fn gives_obligation(text: Seq<char>, o: ObligationView) -> bool {
    exists|headline: Seq<char>, deposits: Seq<Seq<char>>, borrows: Seq<Seq<char>>|
        {
            &&& text == headline + deposits.flatten() + borrows.flatten()
            &&& #[trigger] gives_headline(headline, o)
            &&& #[trigger] give_deposits(deposits, o.deposits)
            &&& #[trigger] give_borrows(borrows, o.borrows)
        }
}

/// A number that is written reads back as it is, whatever it is.
pub proof fn law_numbers_read_back(n: nat)
    ensures
        gives_number(decimal(n), n as int),
    decreases n,
{
    if n < 10 {
        reveal_with_fuel(read_number, 2);
        assert(decimal(n).drop_last() =~= Seq::<char>::empty());
    } else {
        let text = decimal(n);
        let front = decimal(n / 10);
        law_numbers_read_back(n / 10);
        assert(text.drop_last() =~= front);
        if front.len() == 1 {
            reveal_with_fuel(read_number, 2);
            assert(front.drop_last() =~= Seq::<char>::empty());
        }
        assert(text[0] == front[0]);
    }
}

/// Two numbers that are written alike are the same.
pub proof fn law_numbers_are_told_apart(n: nat, m: nat)
    requires
        decimal(n) == decimal(m),
    ensures
        n == m,
{
    law_numbers_read_back(n);
    law_numbers_read_back(m);
}

/// A number below 10 000 that is written with four digits reads back as it is.
pub proof fn law_decimals_read_back(n: nat)
    requires
        n < 10_000,
    ensures
        is_digits(decimal4(n)),
        decimal4(n).len() == 4,
        read_number(decimal4(n)) == n,
{
    let text = decimal4(n);
    let three = text.drop_last();
    let two = three.drop_last();
    let one = two.drop_last();
    assert(one.drop_last() =~= Seq::<char>::empty());
    reveal_with_fuel(read_number, 5);
    assert(read_number(one) == n / 1000);
    assert(read_number(two) == n / 100);
    assert(read_number(three) == n / 10);
}

/// A fraction that is written reads back to four decimals.
pub proof fn law_fractions_read_back(bits: u128)
    ensures
        gives_value(fraction_text(bits), bits),
{
    let moved = bits + 57_646_075_230_342;
    let units = moved / one_bits();
    let part = moved % one_bits();
    let cut = part / 0x4000_0000 * 10_000 / 0x4000_0000;
    let whole = decimal(units as nat);
    let decimals = decimal4(cut as nat);
    law_numbers_read_back(units as nat);
    law_decimals_read_back(cut as nat);
    reveal_strlit(".");
    assert("."@ =~= seq!['.']);
    assert(moved / 0x4000_0000 == units * 0x4000_0000 + part / 0x4000_0000);
    assert(whole + seq!['.'] + decimals == fraction_text(bits));
}

/// A line on a deposit holds the reserve as it was written, then what reads back
/// as the value and the amount.
pub proof fn law_deposit_lines_read_back(reserve: Seq<char>, market_value_sf: u128, amount: u64)
    ensures
        exists|value: Seq<char>, lamports: Seq<char>|
            {
                &&& deposit_line(reserve, market_value_sf, amount) == "\n  Collateral reserve: "@
                    + reserve + ", value: $"@ + value + ", lamports: "@ + lamports
                &&& #[trigger] gives_value(value, market_value_sf)
                &&& #[trigger] gives_number(lamports, amount as int)
            },
{
    law_fractions_read_back(market_value_sf);
    law_numbers_read_back(amount as nat);
}

/// A line on a borrow holds the reserve as it was written, then what reads back as
/// the value and the whole tokens.
pub proof fn law_borrow_lines_read_back(
    reserve: Seq<char>,
    market_value_sf: u128,
    borrowed_amount_sf: u128,
)
    ensures
        exists|value: Seq<char>, lamports: Seq<char>, tokens: int|
            {
                &&& borrow_line(reserve, market_value_sf, borrowed_amount_sf)
                    == "\n  Borrowed reserve  : "@ + reserve + ", value: $"@ + value
                    + ", lamports: "@ + lamports
                &&& #[trigger] gives_value(value, market_value_sf)
                &&& #[trigger] gives_number(lamports, tokens)
                &&& tokens * 0x1000_0000_0000_0000 <= borrowed_amount_sf
                &&& borrowed_amount_sf < (tokens + 1) * 0x1000_0000_0000_0000
            },
{
    law_fractions_read_back(market_value_sf);
    law_numbers_read_back(floor_of(borrowed_amount_sf) as nat);
}

/// The line on a deposit gives its reserve, its value and its amount.
pub proof fn law_deposit_line_reads_back(deposit: ObligationCollateral)
    ensures
        gives_deposit(line_on_deposit(deposit), deposit),
{
    law_fractions_read_back(deposit.market_value_sf);
    law_numbers_read_back(deposit.deposited_amount as nat);
}

/// The line on a borrow gives its reserve, its value and its whole tokens.
pub proof fn law_borrow_line_reads_back(borrow: ObligationLiquidity)
    ensures
        gives_borrow(line_on_borrow(borrow), borrow),
{
    law_fractions_read_back(borrow.market_value_sf);
    law_numbers_read_back(floor_of(borrow.borrowed_amount_sf) as nat);
}

/// The loan-to-value in percent is the nearest to the ratio of debt to deposits.
pub proof fn law_ltv_percent(o: ObligationView)
    ensures
        0 <= o.ltv_percent(),
        is_ltv_percent(
            o.ltv_percent(),
            o.borrow_factor_adjusted_debt_value_sf,
            o.deposited_value_sf,
        ),
{
    let debt = o.borrow_factor_adjusted_debt_value_sf;
    let deposited = o.deposited_value_sf;
    if deposited != 0 {
        let ratio = quotient_bits(debt, deposited);
        law_ratio_of_values(debt, deposited);
        law_percent_is_nearest(ratio);
        lemma_quotient_not_negative(debt, deposited);
        assert(ratio * deposited <= debt * 0x1000_0000_0000_0000);
    }
}

/// The first line gives the three values and the loan-to-value.
pub proof fn law_headline_reads_back(o: ObligationView)
    ensures
        gives_headline(o.headline(), o),
{
    law_fractions_read_back(o.deposited_value_sf);
    law_fractions_read_back(o.borrow_factor_adjusted_debt_value_sf);
    law_fractions_read_back(o.borrowed_assets_market_value_sf);
    law_ltv_percent(o);
    law_numbers_read_back(o.ltv_percent() as nat);
}

/// A summary gives all that it is of: the first line, then every deposit and every
/// borrow in the order of the slots.
pub proof fn law_summary_reads_back(o: ObligationView)
    requires
        o.has_all_slots(),
    ensures
        gives_obligation(o.summary(), o),
{
    let taken = |c: ObligationCollateral| !c.is_empty();
    let owed = |l: ObligationLiquidity| !l.is_empty();
    let deposit_text = |c: ObligationCollateral| line_on_deposit(c);
    let borrow_text = |l: ObligationLiquidity| line_on_borrow(l);
    let deposits = o.deposits.filter(taken).map_values(deposit_text);
    let borrows = o.borrows.filter(owed).map_values(borrow_text);
    assert(taken =~= (|c: ObligationCollateral| c.deposit_reserve != Pubkey::none()));
    assert(owed =~= (|l: ObligationLiquidity| l.borrow_reserve != Pubkey::none()));
    lemma_deposit_lines(o.deposits, DEPOSIT_SLOTS as int);
    lemma_borrow_lines(o.borrows, BORROW_SLOTS as int);
    assert(o.deposits.take(DEPOSIT_SLOTS as int) =~= o.deposits);
    assert(o.borrows.take(BORROW_SLOTS as int) =~= o.borrows);
    law_headline_reads_back(o);
    assert(give_deposits(deposits, o.deposits)) by {
        assert forall|i: int|
            0 <= i < o.deposits.len() && (#[trigger] o.deposits[i]).deposit_reserve
                != Pubkey::none() implies {
            let at = o.deposits.take(i).filter(taken).len() as int;
            at < deposits.len() && gives_deposit(deposits[at], o.deposits[i])
        } by {
            lemma_filter_keeps(o.deposits, taken, i);
            law_deposit_line_reads_back(o.deposits[i]);
        }
    }
    assert(give_borrows(borrows, o.borrows)) by {
        assert forall|i: int|
            0 <= i < o.borrows.len() && (#[trigger] o.borrows[i]).borrow_reserve
                != Pubkey::none() implies {
            let at = o.borrows.take(i).filter(owed).len() as int;
            at < borrows.len() && gives_borrow(borrows[at], o.borrows[i])
        } by {
            lemma_filter_keeps(o.borrows, owed, i);
            law_borrow_line_reads_back(o.borrows[i]);
        }
    }
}

/// What a digit of base 58 stands for.
pub open spec fn base58_value(c: char) -> int {
    if '1' <= c <= '9' {
        c as int - '1' as int
    } else if 'A' <= c <= 'H' {
        9 + (c as int - 'A' as int)
    } else if 'J' <= c <= 'N' {
        17 + (c as int - 'J' as int)
    } else if 'P' <= c <= 'Z' {
        22 + (c as int - 'P' as int)
    } else if 'a' <= c <= 'k' {
        33 + (c as int - 'a' as int)
    } else {
        44 + (c as int - 'm' as int)
    }
}

/// The number that digits of base 58 stand for.
pub open spec fn read_base58(text: Seq<char>) -> int
    decreases text.len(),
{
    if text.len() == 0 {
        0
    } else {
        58 * read_base58(text.drop_last()) + base58_value(text.last())
    }
}

/// An address that is written reads back as the number that its bytes are.
pub proof fn law_addresses_read_back(bytes: Seq<u8>)
    ensures
        read_base58(pubkey_text(bytes)) == big_endian(bytes),
{
    lemma_base58_reads_back(
        Seq::new(leading_zeros(bytes), |i: int| '1'),
        big_endian(bytes),
    );
}

/// Two addresses that are written alike are the same.
pub proof fn law_addresses_are_told_apart(a: Pubkey, b: Pubkey)
    requires
        pubkey_text(a.bytes@) == pubkey_text(b.bytes@),
    ensures
        a == b,
{
    law_addresses_read_back(a.bytes@);
    law_addresses_read_back(b.bytes@);
    lemma_bytes_of_a_number(a.bytes@, b.bytes@);
    assert(a.bytes =~= b.bytes);
}

proof fn lemma_base58_digit_reads_back(d: int)
    requires
        0 <= d < 58,
    ensures
        base58_value(base58_digit(d)) == d,
{
    reveal_strlit("123456789ABCDEFGHJKLMNPQRSTUVWXYZabcdefghijkmnopqrstuvwxyz");
}

proof fn lemma_zeros_read_back(zeros: Seq<char>)
    requires
        forall|i: int| 0 <= i < zeros.len() ==> #[trigger] zeros[i] == '1',
    ensures
        read_base58(zeros) == 0,
    decreases zeros.len(),
{
    if zeros.len() > 0 {
        lemma_zeros_read_back(zeros.drop_last());
        assert(zeros.last() == '1');
    }
}

proof fn lemma_base58_reads_back(zeros: Seq<char>, n: nat)
    requires
        forall|i: int| 0 <= i < zeros.len() ==> #[trigger] zeros[i] == '1',
    ensures
        read_base58(zeros + base58(n)) == n,
    decreases n,
{
    let text = zeros + base58(n);
    if n == 0 {
        lemma_zeros_read_back(zeros);
        assert(text =~= zeros);
    } else {
        lemma_base58_reads_back(zeros, n / 58);
        lemma_base58_digit_reads_back((n % 58) as int);
        assert(text.drop_last() =~= zeros + base58(n / 58));
        assert(text.last() == base58_digit((n % 58) as int));
    }
}

proof fn lemma_bytes_of_a_number(a: Seq<u8>, b: Seq<u8>)
    requires
        a.len() == b.len(),
        big_endian(a) == big_endian(b),
    ensures
        a =~= b,
    decreases a.len(),
{
    if a.len() > 0 {
        lemma_bytes_of_a_number(a.drop_last(), b.drop_last());
        assert(a =~= a.drop_last().push(a.last()));
        assert(b =~= b.drop_last().push(b.last()));
    }
}

/// An element that a filter keeps stands behind those that it keeps before it.
proof fn lemma_filter_keeps<A>(s: Seq<A>, pred: spec_fn(A) -> bool, at: int)
    requires
        0 <= at < s.len(),
        pred(s[at]),
    ensures
        s.take(at).filter(pred).len() < s.filter(pred).len(),
        s.filter(pred)[s.take(at).filter(pred).len() as int] == s[at],
    decreases s.len(),
{
    reveal(Seq::filter);
    let rest = s.drop_last();
    if at == s.len() - 1 {
        assert(s.take(at) =~= rest);
    } else {
        lemma_filter_keeps(rest, pred, at);
        assert(rest.take(at) =~= s.take(at));
    }
}

/// A summary can be written exactly if half of the fourth decimal can be added to
/// each value in it and the loan-to-value is at most 65 535 percent.
pub proof fn law_writable_summaries(o: ObligationView)
    ensures
        o.summary_is_displayable() <==> {
            &&& o.deposited_value_sf + 57_646_075_230_342 <= u128::MAX
            &&& o.borrow_factor_adjusted_debt_value_sf + 57_646_075_230_342 <= u128::MAX
            &&& o.borrowed_assets_market_value_sf + 57_646_075_230_342 <= u128::MAX
            &&& forall|percent: int|
                #[trigger] is_ltv_percent(
                    percent,
                    o.borrow_factor_adjusted_debt_value_sf,
                    o.deposited_value_sf,
                ) ==> percent <= 65_535
            &&& forall|i: int|
                0 <= i < o.deposits.len() && (#[trigger] o.deposits[i]).deposit_reserve
                    != Pubkey::none() ==> o.deposits[i].market_value_sf + 57_646_075_230_342
                    <= u128::MAX
            &&& forall|i: int|
                0 <= i < o.borrows.len() && (#[trigger] o.borrows[i]).borrow_reserve
                    != Pubkey::none() ==> o.borrows[i].market_value_sf + 57_646_075_230_342
                    <= u128::MAX
        },
{
    let debt = o.borrow_factor_adjusted_debt_value_sf;
    let deposited = o.deposited_value_sf;
    law_ltv_percent(o);
    assert forall|percent: int| #[trigger]
        is_ltv_percent(percent, debt, deposited) implies percent == o.ltv_percent() by {
        if deposited != 0 {
            let ratio = choose|ratio: int|
                {
                    &&& #[trigger] (ratio * deposited) <= debt * 0x1000_0000_0000_0000
                    &&& debt * 0x1000_0000_0000_0000 < (ratio + 1) * deposited
                    &&& (2 * percent - 1) * 0x1000_0000_0000_0000 <= 200 * ratio
                    &&& 200 * ratio < (2 * percent + 1) * 0x1000_0000_0000_0000
                };
            lemma_rounded_down_unique(debt * one_bits(), deposited as int, ratio);
            law_percent_is_nearest(ratio);
        }
    }
    assert(forall|i: int|
        0 <= i < o.deposits.len() ==> ((#[trigger] o.deposits[i]).is_empty()
            <==> o.deposits[i].deposit_reserve == Pubkey::none()));
    assert(forall|i: int|
        0 <= i < o.borrows.len() ==> ((#[trigger] o.borrows[i]).is_empty()
            <==> o.borrows[i].borrow_reserve == Pubkey::none()));
}

} // verus!
