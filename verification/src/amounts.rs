//! Integer arithmetic on token amounts: proportional shares and running sums.

use vstd::arithmetic::div_mod::{lemma_fundamental_div_mod, lemma_hoist_over_denominator};
use vstd::arithmetic::mul::{lemma_mul_inequality, lemma_mul_is_commutative};
use vstd::prelude::*;

verus! {

/// `x * n / d`, rounded down.
pub open spec fn scaled(x: int, n: int, d: int) -> int {
    (x * n) / d
}

/// The part of a gross deposit that goes to the security pool, so that the
/// pool accrues `pct` percent of what is left for the milestones.
pub open spec fn security_share(deposit: u128, pct: u8) -> int {
    scaled(deposit as int, pct as int, 100 + pct as int)
}

/// The part of a deposit that goes towards the milestones.
pub open spec fn main_share(deposit: u128, pct: u8) -> int {
    deposit - security_share(deposit, pct)
}

/// The freelancer's part of `amount` under a split of `pct` percent.
pub open spec fn split_share(amount: u128, pct: u8) -> int {
    scaled(amount as int, pct as int, 100)
}

/// The sum of the first `n` amounts.
pub open spec fn sum_first(amounts: Seq<u128>, n: int) -> int
    decreases n,
{
    if n <= 0 {
        0
    } else {
        sum_first(amounts, n - 1) + amounts[n - 1]
    }
}

/// The sum of all the amounts.
pub open spec fn sum_all(amounts: Seq<u128>) -> int {
    sum_first(amounts, amounts.len() as int)
}

/// A share never exceeds the whole, and is never negative.
pub proof fn lemma_scaled_bounds(x: int, n: int, d: int)
    requires
        0 <= x,
        0 <= n <= d,
        0 < d,
    ensures
        0 <= scaled(x, n, d) <= x,
{
    assert(0 <= x * n) by (nonlinear_arith)
        requires
            0 <= x,
            0 <= n,
    ;
    assert(x * n <= x * d) by (nonlinear_arith)
        requires
            0 <= x,
            n <= d,
    ;
    assert((x * n) / d <= x && 0 <= (x * n) / d) by (nonlinear_arith)
        requires
            0 <= x * n <= x * d,
            0 < d,
    ;
}

/// Splitting `x` into quotient and remainder by `d` splits the share too.
pub proof fn lemma_scaled_by_parts(x: int, n: int, d: int)
    requires
        0 <= x,
        0 <= n,
        0 < d,
    ensures
        scaled(x, n, d) == (x / d) * n + ((x % d) * n) / d,
{
    let q = x / d;
    let r = x % d;
    lemma_fundamental_div_mod(x, d);
    assert(x * n == r * n + (q * n) * d) by (nonlinear_arith)
        requires
            x == d * q + r,
    ;
    lemma_hoist_over_denominator(r * n, q * n, d as nat);
}

/// The running sum grows with the number of amounts taken.
pub proof fn lemma_sum_first_monotonic(amounts: Seq<u128>, n: int, m: int)
    requires
        n <= m,
    ensures
        sum_first(amounts, n) <= sum_first(amounts, m),
        0 <= sum_first(amounts, n),
    decreases m,
{
    if m <= 0 {
    } else if n == m {
        lemma_sum_first_monotonic(amounts, n - 1, m - 1);
    } else {
        lemma_sum_first_monotonic(amounts, n, m - 1);
    }
}

/// Computes `x * n / d` without overflow.
fn scale(x: u128, n: u128, d: u128) -> (r: u128)
    requires
        0 < d <= 1000,
        n <= d,
    ensures
        r == scaled(x as int, n as int, d as int),
        r <= x,
{
    let q: u128 = x / d;
    let rem: u128 = x % d;
    proof {
        lemma_scaled_by_parts(x as int, n as int, d as int);
        lemma_scaled_bounds(x as int, n as int, d as int);
        lemma_fundamental_div_mod(x as int, d as int);
        lemma_mul_inequality(n as int, d as int, q as int);
        lemma_mul_is_commutative(d as int, q as int);
        assert(q * n <= x) by (nonlinear_arith)
            requires
                n * q <= d * q,
                d * q <= x,
        ;
        assert(rem * n <= 1000 * 1000) by (nonlinear_arith)
            requires
                0 <= rem < d,
                0 <= n <= d,
                d <= 1000,
        ;
    }
    q * n + (rem * n) / d
}

/// The security part of a deposit at `pct` percent.
pub fn security_part(deposit: u128, pct: u8) -> (r: u128)
    ensures
        r == security_share(deposit, pct),
        r <= deposit,
{
    let n: u128 = pct as u128;
    scale(deposit, n, 100 + n)
}

/// The freelancer's part of `amount` under a split of `pct` percent; `None`
/// when `pct` is more than 100.
pub fn split_part(amount: u128, pct: u8) -> (r: Option<u128>)
    ensures
        pct > 100 ==> r is None,
        pct <= 100 ==> r == Some(split_share(amount, pct) as u128) && split_share(amount, pct)
            <= amount,
{
    if pct > 100 {
        None
    } else {
        Some(scale(amount, pct as u128, 100))
    }
}

} // verus!
