//! Which digit of the count a position shows.
//!
//! Positions count from 1 at the least significant digit. A position beyond
//! the count's length shows the blank marker, which is no digit at all.

use vstd::arithmetic::div_mod::lemma_div_denominator;
use vstd::prelude::*;

verus! {

/// Ten to the power `e`.
pub open spec fn pow10(e: nat) -> nat
    decreases e,
{
    if e == 0 {
        1
    } else {
        10 * pow10((e - 1) as nat)
    }
}

/// The number of decimal digits of `count`. Zero is written with one digit.
pub open spec fn digit_count(count: nat) -> nat
    decreases count,
{
    if count < 10 {
        1
    } else {
        1 + digit_count(count / 10)
    }
}

/// What position `n` of `count` shows, for `n` from 1 on: the digit of
/// `count` at that place, or `None`, the blank marker, beyond its length.
pub open spec fn shown_digit(count: nat, n: nat) -> Option<nat> {
    if n > digit_count(count) {
        None
    } else {
        Some((count / pow10((n - 1) as nat)) % 10)
    }
}

pub proof fn lemma_pow10_positive(e: nat)
    ensures
        pow10(e) >= 1,
        e >= 1 ==> pow10(e) >= 10,
    decreases e,
{
    if e > 0 {
        lemma_pow10_positive((e - 1) as nat);
    }
}

/// A count is below a power of ten exactly when it has no more digits than
/// the exponent.
pub proof fn lemma_digit_count_bound(count: nat, e: nat)
    requires
        e >= 1,
    ensures
        count < pow10(e) <==> digit_count(count) <= e,
    decreases e,
{
    lemma_pow10_positive(e);
    if e == 1 {
        assert(pow10(1) == 10) by {
            reveal_with_fuel(pow10, 2);
        }
        if count >= 10 {
            assert(digit_count(count / 10) >= 1);
        }
    } else {
        lemma_digit_count_bound(count / 10, (e - 1) as nat);
        let p = pow10((e - 1) as nat);
        assert(count < 10 * p <==> count / 10 < p) by (nonlinear_arith)
            requires
                p >= 1,
        ;
    }
}

/// Beyond position 1, a position is past the count's length exactly when
/// dividing the count by that position's power of ten leaves nothing.
pub proof fn lemma_blank_is_zero_quotient(count: nat, n: nat)
    requires
        n >= 1,
    ensures
        shown_digit(count, n) is None <==> n > 1 && count / pow10((n - 1) as nat) == 0,
{
    let e = (n - 1) as nat;
    lemma_pow10_positive(e);
    let p = pow10(e);
    assert(count / p == 0 <==> count < p) by (nonlinear_arith)
        requires
            p >= 1,
    ;
    if n > 1 {
        lemma_digit_count_bound(count, e);
    }
}

/// Within the count's length, a position shows the digit at its place.
pub proof fn lemma_digit_within_length(count: nat, n: nat)
    requires
        1 <= n <= digit_count(count),
    ensures
        shown_digit(count, n) == Some((count / pow10((n - 1) as nat)) % 10),
        shown_digit(count, n)->0 < 10,
{
}

/// Past the count's length, a position shows the blank marker and no digit.
pub proof fn lemma_blank_past_length(count: nat, n: nat)
    requires
        n > digit_count(count),
    ensures
        shown_digit(count, n) is None,
{
}

/// Zero has one digit, so its position 1 shows the digit 0 and not the
/// blank marker.
pub proof fn lemma_zero_has_one_digit()
    ensures
        digit_count(0) == 1,
        shown_digit(0, 1) == Some(0nat),
{
    assert(pow10(0) == 1);
}

/// What position `position` of `count` shows: its digit there, or `None`
/// for the blank marker.
pub fn select_digit(count: usize, position: u8) -> (r: Option<u8>)
    requires
        position >= 1,
    ensures
        match r {
            Some(d) => d < 10 && shown_digit(count as nat, position as nat) == Some(d as nat),
            None => shown_digit(count as nat, position as nat) is None,
        },
{
    let mut quotient: usize = count;
    let mut place: u8 = 1;
    assert(count as nat / pow10(0) == count as nat) by {
        assert(pow10(0) == 1);
    }
    while place < position && quotient > 0
        invariant
            1 <= place <= position,
            quotient == count as nat / pow10((place - 1) as nat),
        decreases position - place,
    {
        proof {
            let p = pow10((place - 1) as nat);
            lemma_pow10_positive((place - 1) as nat);
            lemma_div_denominator(count as int, p as int, 10);
            assert(p * 10 == pow10(place as nat));
        }
        quotient = quotient / 10;
        place = place + 1;
    }
    proof {
        let reached = pow10((place - 1) as nat);
        let asked = pow10((position - 1) as nat);
        lemma_pow10_positive((place - 1) as nat);
        lemma_pow10_positive((position - 1) as nat);
        lemma_blank_is_zero_quotient(count as nat, position as nat);
        if place < position {
            lemma_pow10_grows((place - 1) as nat, (position - 1) as nat);
            assert(count as nat / asked == 0) by (nonlinear_arith)
                requires
                    count as nat / reached == 0,
                    1 <= reached <= asked,
            ;
        }
    }
    if quotient == 0 && position > 1 {
        None
    } else {
        Some((quotient % 10) as u8)
    }
}

/// Powers of ten grow with the exponent.
pub proof fn lemma_pow10_grows(low: nat, high: nat)
    requires
        low <= high,
    ensures
        pow10(low) <= pow10(high),
    decreases high - low,
{
    if low < high {
        lemma_pow10_grows(low, (high - 1) as nat);
    }
}

} // verus!
