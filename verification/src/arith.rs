use vstd::prelude::*;

verus! {

/// `10^e`, the scale factor between a raw balance and a displayed amount
/// with `e` decimal places.
pub open spec fn pow10(e: nat) -> nat
    decreases e,
{
    if e == 0 {
        1
    } else {
        10 * pow10((e - 1) as nat)
    }
}

/// Division rounded to the nearest integer, halves rounding up.
pub open spec fn round_div(n: nat, d: nat) -> nat
    recommends
        d > 0,
{
    (n + d / 2) / d
}

pub proof fn lemma_pow10_positive(e: nat)
    ensures
        pow10(e) >= 1,
    decreases e,
{
    if e > 0 {
        lemma_pow10_positive((e - 1) as nat);
    }
}

pub proof fn lemma_pow10_mono(a: nat, b: nat)
    requires
        a <= b,
    ensures
        pow10(a) <= pow10(b),
    decreases b,
{
    if a < b {
        lemma_pow10_mono(a, (b - 1) as nat);
        lemma_pow10_positive((b - 1) as nat);
    }
}

pub proof fn lemma_pow10_even(e: nat)
    requires
        e >= 1,
    ensures
        pow10(e) % 2 == 0,
{
    lemma_pow10_positive((e - 1) as nat);
    let p = pow10((e - 1) as nat);
    assert(pow10(e) == 10 * p);
    assert((10 * p) % 2 == 0) by (nonlinear_arith);
}

pub proof fn lemma_pow10_19()
    ensures
        pow10(19) == 10_000_000_000_000_000_000,
{
    reveal_with_fuel(pow10, 20);
}

pub proof fn lemma_pow10_20()
    ensures
        pow10(20) == 100_000_000_000_000_000_000,
{
    reveal_with_fuel(pow10, 21);
}

pub proof fn lemma_pow10_21()
    ensures
        pow10(21) == 1_000_000_000_000_000_000_000,
{
    reveal_with_fuel(pow10, 22);
}

pub proof fn lemma_pow10_22()
    ensures
        pow10(22) == 10_000_000_000_000_000_000_000,
{
    reveal_with_fuel(pow10, 23);
}

pub proof fn lemma_pow10_38()
    ensures
        pow10(38) == 100_000_000_000_000_000_000_000_000_000_000_000_000,
{
    reveal_with_fuel(pow10, 39);
}

pub fn pow10_u128(e: u32) -> (r: u128)
    requires
        e <= 38,
    ensures
        r == pow10(e as nat),
{
    proof {
        lemma_pow10_38();
    }
    let mut r: u128 = 1;
    let mut i: u32 = 0;
    while i < e
        invariant
            i <= e <= 38,
            r == pow10(i as nat),
            pow10(38) <= u128::MAX,
        decreases e - i,
    {
        proof {
            lemma_pow10_mono((i + 1) as nat, 38);
        }
        r = r * 10;
        i = i + 1;
    }
    r
}

/// Compares a raw balance against `10^e`, for any exponent a `u8` holds.
pub fn balance_ge_pow10(balance: u64, e: u32) -> (r: bool)
    ensures
        r == (balance as nat >= pow10(e as nat)),
{
    if e > 19 {
        proof {
            lemma_pow10_20();
            lemma_pow10_mono(20, e as nat);
        }
        false
    } else {
        (balance as u128) >= pow10_u128(e)
    }
}

} // verus!
