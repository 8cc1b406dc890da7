//! Minor units and whole tokens.
//!
//! Amounts are counted in minor units. An asset with `d` decimals shows
//! `10^d` minor units as one whole token.

use vstd::prelude::*;
use vstd::arithmetic::div_mod::lemma_div_denominator;
use vstd::arithmetic::mul::{lemma_mul_inequality, lemma_mul_is_commutative};

verus! {

/// Ten to the power `n`.
pub open spec fn pow10(n: nat) -> nat
    decreases n,
{
    if n == 0 {
        1
    } else {
        10 * pow10((n - 1) as nat)
    }
}

/// The whole tokens that an amount shows at a precision, fractions dropped.
pub open spec fn whole_units(amount: u64, decimals: u8) -> nat {
    amount as nat / pow10(decimals as nat)
}

/// Ten to a power is positive and grows with the exponent.
pub proof fn lemma_pow10_grows(i: nat, j: nat)
    requires
        i <= j,
    ensures
        0 < pow10(i) <= pow10(j),
    decreases j,
{
    if j == 0 {
    } else if i == j {
        lemma_pow10_grows(0, (j - 1) as nat);
    } else {
        lemma_pow10_grows(i, (j - 1) as nat);
    }
}

/// The whole tokens that `amount` minor units show at a precision.
pub fn whole_tokens(amount: u64, decimals: u8) -> (r: u64)
    ensures
        r == whole_units(amount, decimals),
{
    let mut rest: u64 = amount;
    let mut i: u8 = 0;
    assert(pow10(0) == 1);
    while i < decimals
        invariant
            0 <= i <= decimals,
            rest == amount as nat / pow10(i as nat),
        decreases decimals - i,
    {
        proof {
            lemma_pow10_grows(0, i as nat);
            lemma_div_denominator(amount as int, pow10(i as nat) as int, 10);
            lemma_mul_is_commutative(pow10(i as nat) as int, 10);
        }
        rest = rest / 10;
        i += 1;
    }
    rest
}

/// The minor units of a number of whole tokens at a precision, or `None`
/// where they do not fit in 64 bits.
pub fn minor_units(whole: u64, decimals: u8) -> (r: Option<u64>)
    ensures
        match r {
            Some(minor) => minor == whole * pow10(decimals as nat),
            None => whole * pow10(decimals as nat) > u64::MAX,
        },
{
    if whole == 0 {
        assert(0 * pow10(decimals as nat) == 0) by (nonlinear_arith);
        return Some(0);
    }
    let mut minor: u64 = whole;
    let mut i: u8 = 0;
    assert(whole * pow10(0) == whole) by {
        assert(pow10(0) == 1);
    }
    while i < decimals
        invariant
            0 <= i <= decimals,
            whole > 0,
            minor == whole * pow10(i as nat),
        decreases decimals - i,
    {
        if minor > u64::MAX / 10 {
            proof {
                let next = pow10((i + 1) as nat);
                lemma_pow10_grows((i + 1) as nat, decimals as nat);
                assert(whole * next == 10 * (whole * pow10(i as nat))) by (nonlinear_arith)
                    requires
                        next == 10 * pow10(i as nat),
                ;
                lemma_mul_inequality(next as int, pow10(decimals as nat) as int, whole as int);
                lemma_mul_is_commutative(next as int, whole as int);
                lemma_mul_is_commutative(pow10(decimals as nat) as int, whole as int);
            }
            return None;
        }
        proof {
            assert(whole * pow10((i + 1) as nat) == 10 * (whole * pow10(i as nat)))
                by (nonlinear_arith)
                requires
                    pow10((i + 1) as nat) == 10 * pow10(i as nat),
            ;
        }
        minor = minor * 10;
        i += 1;
    }
    Some(minor)
}

} // verus!
