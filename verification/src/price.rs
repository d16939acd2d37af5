//! Price arithmetic. Prices are whole paise (hundredths of a rupee); stop
//! prices are counted in ticks of 5 paise, the exchange's price step.
use vstd::prelude::*;
use crate::number::{decimal, digit_char, push_decimal, digit_text_of};

verus! {

/// `n / d` rounded to the nearest whole number, halves upward (what
/// `f64::round` does for a non-negative quotient).
pub open spec fn round_div(n: nat, d: nat) -> nat
    recommends
        d > 0,
{
    ((2 * n + d) / (2 * d)) as nat
}

/// The entry tolerance in paise for a signal at `price` paise: 2 paise under
/// 100 rupees, else 0.02% of the price rounded to 5 paise, at least 5 paise.
pub open spec fn delta_of(price: nat) -> nat {
    if price < 10000 {
        2
    } else {
        let ticks = round_div(price, 25000);
        if ticks == 0 {
            5
        } else {
            5 * ticks
        }
    }
}

/// Rounds `numer / denom` paise to the nearest 5 paise; the result is the
/// number of 5-paise ticks.
pub fn round_to_5_paisa(numer: u128, denom: u128) -> (ticks: u128)
    requires
        0 < denom,
        2 * numer + 5 * denom <= u128::MAX,
    ensures
        ticks == round_div(numer as nat, (5 * denom) as nat),
{
    if denom > u128::MAX / 10 {
        assert((2 * numer + 5 * denom) / (10 * denom) == 0) by (nonlinear_arith)
            requires
                denom > u128::MAX / 10,
                2 * numer + 5 * denom <= u128::MAX,
        ;
        0
    } else {
        (2 * numer + 5 * denom) / (10 * denom)
    }
}

/// The nearest tick lies within half a tick (2.5 paise) of the amount, and
/// rounding an amount that is already a whole number of ticks keeps it.
pub proof fn law_round_to_tick(numer: nat, denom: nat, ticks: nat)
    requires
        denom > 0,
    ensures
        -5 * (denom as int) <= 10 * (round_div(numer, 5 * denom) as int) * (denom as int) - 2
            * (numer as int) <= 5 * (denom as int),
        round_div(5 * ticks, 5) == ticks,
{
    let t = round_div(numer, 5 * denom);
    assert(t == (2 * numer + 5 * denom) / (10 * denom));
    assert(-5 * (denom as int) <= 10 * (t as int) * (denom as int) - 2 * (numer as int) <= 5 * (
    denom as int)) by (nonlinear_arith)
        requires
            denom > 0,
            t == (2 * numer + 5 * denom) / (10 * denom),
    ;
    assert(round_div(5 * ticks, 5) == (10 * ticks + 5) / 10);
    assert((10 * ticks + 5) / 10 == ticks) by (nonlinear_arith);
}

/// The entry tolerance, in paise, for a signal priced at `price` paise.
pub fn calculate_delta(price: u64) -> (delta: u64)
    ensures
        delta == delta_of(price as nat),
{
    if price < 10000 {
        2
    } else {
        let ticks = round_to_5_paisa(price as u128, 5000);
        assert(ticks <= 2 * (price as u128) + 25000);
        if ticks == 0 {
            5
        } else {
            assert(ticks <= (price as u128) / 10000 + 1) by (nonlinear_arith)
                requires ticks == (2 * (price as u128) + 25000) / 50000;
            (5 * ticks) as u64
        }
    }
}

/// A tolerance is 2 paise below 100 rupees; from there on it is a whole
/// number of 5-paise ticks, never less than one tick, and from 125 rupees on
/// it is 0.02% of the price to within half a tick (2.5 paise).
pub proof fn law_delta_is_tick_multiple(price: nat)
    ensures
        price < 10000 ==> delta_of(price) == 2,
        price >= 10000 ==> delta_of(price) >= 5 && delta_of(price) % 5 == 0,
        10000 <= price < 12500 ==> delta_of(price) == 5,
        price >= 12500 ==> -12500 <= 5000 * (delta_of(price) as int) - (price as int) <= 12500,
{
    if price >= 10000 {
        let t = round_div(price, 25000);
        assert(t == (2 * price + 25000) / 50000);
        if price < 12500 {
            assert(t == 0) by (nonlinear_arith)
                requires t == (2 * price + 25000) / 50000, price < 12500;
        } else {
            assert(-12500 <= 25000 * (t as int) - (price as int) <= 12500 && t >= 1) by (nonlinear_arith)
                requires t == (2 * price + 25000) / 50000, price >= 12500;
        }
    }
}

/// Decimal text of a price of `p` paise, as `f64` displays `p / 100`:
/// no fraction for whole rupees, otherwise the fraction without a trailing zero.
pub open spec fn price_text(p: nat) -> Seq<char> {
    let whole = decimal(p / 100);
    let frac = p % 100;
    if frac == 0 {
        whole
    } else if frac % 10 == 0 {
        whole + seq!['.', digit_char((frac / 10) as int)]
    } else {
        whole + seq!['.', digit_char((frac / 10) as int), digit_char((frac % 10) as int)]
    }
}

/// Renders a price of `paise` paise in rupees, as `f64::to_string` renders it.
pub fn format_price(paise: u128) -> (r: String)
    ensures
        r@ == price_text(paise as nat),
{
    let mut s = String::new();
    push_decimal(&mut s, paise / 100);
    let frac = paise % 100;
    if frac != 0 {
        proof { reveal_strlit("."); }
        s.append(".");
        s.append(digit_text_of((frac / 10) as u64));
        if frac % 10 != 0 {
            s.append(digit_text_of((frac % 10) as u64));
        }
    }
    assert(s@ =~= price_text(paise as nat));
    s
}

} // verus!
