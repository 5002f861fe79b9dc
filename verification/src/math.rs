//! Shares of amounts: products divided in 128 bits.

use vstd::prelude::*;
use vstd::arithmetic::div_mod::{lemma_div_is_ordered, lemma_div_multiples_vanish};

verus! {

/// `floor(a * b / d)` as a natural number.
pub open spec fn mul_div_floor(a: nat, b: nat, d: nat) -> nat
    recommends
        d > 0,
{
    (a * b / d) as nat
}

/// A share `a / d` of `b` with `a <= d` is at most `b`.
pub proof fn lemma_share_bounded(a: nat, b: nat, d: nat)
    requires
        d > 0,
        a <= d,
    ensures
        mul_div_floor(a, b, d) <= b,
{
    assert(a * b <= d * b) by (nonlinear_arith)
        requires
            a <= d,
    ;
    lemma_div_is_ordered((a * b) as int, (d * b) as int, d as int);
    lemma_div_multiples_vanish(b as int, d as int);
    assert(d * b == (d as int) * (b as int));
}

/// A larger numerator gives a share at least as large.
pub proof fn lemma_share_monotone(a1: nat, a2: nat, b: nat, d: nat)
    requires
        d > 0,
        a1 <= a2,
    ensures
        mul_div_floor(a1, b, d) <= mul_div_floor(a2, b, d),
{
    assert(a1 * b <= a2 * b) by (nonlinear_arith)
        requires
            a1 <= a2,
    ;
    lemma_div_is_ordered((a1 * b) as int, (a2 * b) as int, d as int);
}

/// `floor(a * b / d)`, computed in 128 bits so that the product cannot
/// overflow.
pub fn mul_div(a: u64, b: u64, d: u64) -> (r: u128)
    requires
        d > 0,
    ensures
        r == mul_div_floor(a as nat, b as nat, d as nat),
{
    assert(a * b <= 0xffff_ffff_ffff_ffff * 0xffff_ffff_ffff_ffff) by (nonlinear_arith)
        requires
            a <= 0xffff_ffff_ffff_ffff,
            b <= 0xffff_ffff_ffff_ffff,
    ;
    let wide: u128 = (a as u128) * (b as u128);
    wide / (d as u128)
}

} // verus!
