//! Amounts as people write them, turned into token amounts.

use vstd::prelude::*;
use std::str::FromStr;

verus! {

/// Ten to the power `n`.
pub open spec fn ten_pow(n: nat) -> nat
    decreases n,
{
    if n == 0 {
        1
    } else {
        10 * ten_pow((n - 1) as nat)
    }
}

/// The decimal number that a text stands for, as its mantissa and scale
/// (the number is the mantissa divided by ten to the scale), where the text
/// is a decimal number.
pub uninterp spec fn decimal_parsed(text: Seq<char>) -> Option<(i128, u32)>;

/// The product of two decimal numbers, each given by mantissa and scale,
/// where both are decimal numbers and the product is in range.
pub uninterp spec fn decimal_product(m1: i128, s1: u32, m2: i128, s2: u32) -> Option<(i128, u32)>;

/// The largest whole number that is not above a decimal number, given by
/// mantissa and scale, where that is a decimal number.
pub uninterp spec fn decimal_floored(m: i128, s: u32) -> Option<(i128, u32)>;

/// A decimal number, given by mantissa and scale, as an unsigned integer
/// of 64 bits, where it is a decimal number that has such a value.
pub uninterp spec fn decimal_as_u64(m: i128, s: u32) -> Option<u64>;

/// Calls `rust_decimal::Decimal::from_str` and returns the mantissa and the
/// scale of the number read, or `None` where the call reports an error. The
/// contract claims only that the result is a function of the text, which
/// `decimal_parsed` names.
#[verifier::external_body]
fn parse_decimal(text: &str) -> (r: Option<(i128, u32)>)
    ensures
        r == decimal_parsed(text@),
{
    match rust_decimal::Decimal::from_str(text) {
        Ok(d) => Some((d.mantissa(), d.scale())),
        Err(_) => None,
    }
}

/// Calls `rust_decimal::Decimal::checked_mul` on the two numbers given by
/// mantissa and scale and returns the mantissa and the scale of the
/// product; `None` where a pair is no decimal number or the call gives none.
/// The contract claims only that the result is a function of the four
/// values, which `decimal_product` names.
#[verifier::external_body]
fn multiply_decimals(m1: i128, s1: u32, m2: i128, s2: u32) -> (r: Option<(i128, u32)>)
    ensures
        r == decimal_product(m1, s1, m2, s2),
{
    let a = rust_decimal::Decimal::try_from_i128_with_scale(m1, s1).ok()?;
    let b = rust_decimal::Decimal::try_from_i128_with_scale(m2, s2).ok()?;
    let product = a.checked_mul(b)?;
    Some((product.mantissa(), product.scale()))
}

/// Calls `rust_decimal::Decimal::floor` on the number given by mantissa and
/// scale and returns the mantissa and the scale of the result; `None` where
/// the pair is no decimal number. The contract claims only that the result
/// is a function of the two values, which `decimal_floored` names.
#[verifier::external_body]
fn floor_decimal(m: i128, s: u32) -> (r: Option<(i128, u32)>)
    ensures
        r == decimal_floored(m, s),
{
    let d = rust_decimal::Decimal::try_from_i128_with_scale(m, s).ok()?;
    let floored = d.floor();
    Some((floored.mantissa(), floored.scale()))
}

/// Calls `u64::try_from` on the `rust_decimal::Decimal` given by mantissa
/// and scale; `None` where the pair is no decimal number or the call reports
/// an error. The contract claims only that the result is a function of the
/// two values, which `decimal_as_u64` names.
#[verifier::external_body]
fn decimal_to_u64(m: i128, s: u32) -> (r: Option<u64>)
    ensures
        r == decimal_as_u64(m, s),
{
    let d = rust_decimal::Decimal::try_from_i128_with_scale(m, s).ok()?;
    u64::try_from(d).ok()
}

/// Powers of ten are positive and grow with the exponent.
pub proof fn lemma_ten_pow_monotone(a: nat, b: nat)
    requires
        a <= b,
    ensures
        1 <= ten_pow(a) <= ten_pow(b),
    decreases b,
{
    if b == 0 {
    } else if a == b {
        lemma_ten_pow_monotone((a - 1) as nat, (b - 1) as nat);
    } else {
        lemma_ten_pow_monotone(a, (b - 1) as nat);
    }
}

/// Ten to the power `decimals`, or `None` where it does not fit in 64 bits.
pub fn checked_ten_pow(decimals: u32) -> (r: Option<u64>)
    ensures
        match r {
            Some(p) => p == ten_pow(decimals as nat),
            None => ten_pow(decimals as nat) > u64::MAX,
        },
{
    let mut p: u64 = 1;
    let mut k: u32 = 0;
    while k < decimals
        invariant
            k <= decimals,
            p == ten_pow(k as nat),
        decreases decimals - k,
    {
        if p > u64::MAX / 10 {
            proof {
                lemma_ten_pow_monotone((k + 1) as nat, decimals as nat);
            }
            return None;
        }
        p = p * 10;
        k += 1;
    }
    Some(p)
}

/// The token amount that a ui amount stands for at a number of decimals,
/// given what the decimal arithmetic returns: the amount is read as a
/// decimal number, multiplied by ten to the decimals, rounded down and
/// taken as an integer. There is none where a step gives none.
pub open spec fn token_amount(text: Seq<char>, decimals: u32) -> Option<u64> {
    match decimal_parsed(text) {
        None => None,
        Some(amount) => if ten_pow(decimals as nat) > u64::MAX {
            None
        } else {
            match decimal_product(amount.0, amount.1, ten_pow(decimals as nat) as i128, 0) {
                None => None,
                Some(scaled) => match decimal_floored(scaled.0, scaled.1) {
                    None => None,
                    Some(whole) => decimal_as_u64(whole.0, whole.1),
                },
            }
        },
    }
}

/// Converts a ui amount to a token amount (with decimals). There is none
/// where the text is no decimal number, ten to the decimals does not fit in
/// 64 bits, or the result is negative or too large.
pub fn ui_amount_to_token_amount(amount: &str, decimals: u32) -> (r: Option<u64>)
    ensures
        r == token_amount(amount@, decimals),
{
    let parsed = match parse_decimal(amount) {
        Some(parsed) => parsed,
        None => {
            return None;
        },
    };
    let factor = match checked_ten_pow(decimals) {
        Some(factor) => factor,
        None => {
            return None;
        },
    };
    let scaled = match multiply_decimals(parsed.0, parsed.1, factor as i128, 0) {
        Some(scaled) => scaled,
        None => {
            return None;
        },
    };
    match floor_decimal(scaled.0, scaled.1) {
        Some(whole) => decimal_to_u64(whole.0, whole.1),
        None => None,
    }
}

} // verus!
