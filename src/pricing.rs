//! The constant-product pricing rules, stated over unbounded integers and
//! computed exactly.
use vstd::prelude::*;
use vstd::arithmetic::div_mod::{
    lemma_div_is_ordered, lemma_div_is_ordered_by_denominator, lemma_fundamental_div_mod,
    lemma_multiply_divide_le, lemma_multiply_divide_lt,
};
use crate::error::PoolError;

verus! {

/// Scale of the quoted price: the price is given in millionths.
pub const PRICE_SCALE: u64 = 1_000_000;

/// Amount of the output asset that `input` of the input asset buys from a pool
/// holding `input_reserve` and `output_reserve`: the constant-product formula,
/// without fee, rounded down.
pub open spec fn output_for(input: int, input_reserve: int, output_reserve: int) -> int {
    (input * output_reserve) / (input_reserve + input)
}

/// The price of one unit of asset A in units of asset B, scaled by
/// `PRICE_SCALE` and rounded down.
pub open spec fn price_of(reserve_a: int, reserve_b: int) -> int {
    (reserve_b * PRICE_SCALE) / reserve_a
}

/// The product of `a` and `b`, where both are at most `u64::MAX`, fits in a `u128`.
proof fn lemma_wide_product_fits(a: int, b: int)
    requires
        0 <= a <= u64::MAX,
        0 <= b <= u64::MAX,
    ensures
        0 <= a * b <= u128::MAX,
{
    assert(0 <= a * b <= u64::MAX * u64::MAX) by (nonlinear_arith)
        requires
            0 <= a <= u64::MAX,
            0 <= b <= u64::MAX,
    ;
}

/// The output never exceeds the output reserve.
proof fn lemma_output_at_most_reserve(input: int, input_reserve: int, output_reserve: int)
    requires
        input >= 0,
        input_reserve >= 0,
        output_reserve >= 0,
        input_reserve + input > 0,
    ensures
        0 <= output_for(input, input_reserve, output_reserve) <= output_reserve,
{
    assert(input * output_reserve <= (input_reserve + input) * output_reserve) by (nonlinear_arith)
        requires
            input >= 0,
            input_reserve >= 0,
            output_reserve >= 0,
    ;
    assert(input * output_reserve >= 0) by (nonlinear_arith)
        requires
            input >= 0,
            output_reserve >= 0,
    ;
    lemma_multiply_divide_le(input * output_reserve, input_reserve + input, output_reserve);
}

/// Quotes the amount of the output asset that `input_amount` of the input asset
/// buys, given the reserves of the two assets. The only failure is a division
/// by zero, when both `input_reserve` and `input_amount` are zero.
pub fn compute_output(input_amount: u64, input_reserve: u64, output_reserve: u64) -> (r: Result<
    u64,
    PoolError,
>)
    ensures
        input_reserve + input_amount == 0 <==> r == Err::<u64, PoolError>(PoolError::DivideByZero),
        input_reserve + input_amount > 0 ==> r == Ok::<u64, PoolError>(
            output_for(input_amount as int, input_reserve as int, output_reserve as int) as u64,
        ),
        r is Ok ==> r->Ok_0 as int == output_for(
            input_amount as int,
            input_reserve as int,
            output_reserve as int,
        ),
{
    let denominator: u128 = input_reserve as u128 + input_amount as u128;
    if denominator == 0 {
        return Err(PoolError::DivideByZero);
    }
    proof {
        lemma_wide_product_fits(input_amount as int, output_reserve as int);
        lemma_output_at_most_reserve(input_amount as int, input_reserve as int, output_reserve as int);
    }
    let numerator: u128 = input_amount as u128 * output_reserve as u128;
    let output: u128 = numerator / denominator;
    Ok(output as u64)
}

/// Quotes the price of one unit of asset A in units of asset B, scaled by
/// `PRICE_SCALE` and rounded down. Fails with `DivideByZero` exactly when the
/// reserve of asset A is empty.
pub fn quote_price(reserve_a: u64, reserve_b: u64) -> (r: Result<u128, PoolError>)
    ensures
        reserve_a == 0 <==> r == Err::<u128, PoolError>(PoolError::DivideByZero),
        reserve_a != 0 ==> r == Ok::<u128, PoolError>(
            price_of(reserve_a as int, reserve_b as int) as u128,
        ),
        r is Ok ==> r->Ok_0 as int == price_of(reserve_a as int, reserve_b as int),
{
    if reserve_a == 0 {
        return Err(PoolError::DivideByZero);
    }
    proof {
        lemma_wide_product_fits(reserve_b as int, PRICE_SCALE as int);
    }
    let scaled: u128 = reserve_b as u128 * PRICE_SCALE as u128;
    let price: u128 = scaled / reserve_a as u128;
    proof {
        lemma_price_fits(reserve_a as int, reserve_b as int);
    }
    Ok(price)
}

/// The price of reserves that fit in a `u64` fits in a `u128`.
proof fn lemma_price_fits(reserve_a: int, reserve_b: int)
    requires
        0 < reserve_a <= u64::MAX,
        0 <= reserve_b <= u64::MAX,
    ensures
        0 <= price_of(reserve_a, reserve_b) <= u128::MAX,
{
    lemma_wide_product_fits(reserve_b, PRICE_SCALE as int);
    lemma_div_is_ordered_by_denominator(reserve_b * PRICE_SCALE, 1, reserve_a);
}

/// The price never rises when reserve A grows and reserve B shrinks.
pub proof fn lemma_price_falls_as_a_grows(
    reserve_a: int,
    reserve_b: int,
    new_reserve_a: int,
    new_reserve_b: int,
)
    requires
        0 < reserve_a <= new_reserve_a,
        0 <= new_reserve_b <= reserve_b,
    ensures
        price_of(new_reserve_a, new_reserve_b) <= price_of(reserve_a, reserve_b),
{
    let k = PRICE_SCALE as int;
    assert(0 <= new_reserve_b * k <= reserve_b * k) by (nonlinear_arith)
        requires
            0 <= new_reserve_b <= reserve_b,
            k > 0,
    ;
    lemma_div_is_ordered(new_reserve_b * k, reserve_b * k, new_reserve_a);
    lemma_div_is_ordered_by_denominator(reserve_b * k, reserve_a, new_reserve_a);
}

/// The quoted output never decreases as the input grows, the reserves staying
/// the same.
pub proof fn lemma_output_monotonic(
    smaller_input: int,
    larger_input: int,
    input_reserve: int,
    output_reserve: int,
)
    requires
        0 <= smaller_input <= larger_input,
        input_reserve >= 0,
        output_reserve >= 0,
        input_reserve + smaller_input > 0,
    ensures
        output_for(smaller_input, input_reserve, output_reserve) <= output_for(
            larger_input,
            input_reserve,
            output_reserve,
        ),
{
    let i = smaller_input;
    let j = larger_input;
    let s = input_reserve;
    let t = output_reserve;
    let q = output_for(i, s, t);
    lemma_fundamental_div_mod(i * t, s + i);
    assert(0 <= (i * t) % (s + i));
    assert((s + i) * q <= i * t);
    // q * (s + j) * (s + i) <= i * t * (s + j) <= j * t * (s + i)
    assert(q * (s + j) <= j * t) by (nonlinear_arith)
        requires
            (s + i) * q <= i * t,
            0 <= i <= j,
            s >= 0,
            t >= 0,
            s + i > 0,
    ;
    lemma_multiply_divide_le_flip(q, s + j, j * t);
}

/// Where `q * d <= n` with `d > 0`, the quotient `n / d` is at least `q`.
proof fn lemma_multiply_divide_le_flip(q: int, d: int, n: int)
    requires
        d > 0,
        q * d <= n,
    ensures
        q <= n / d,
{
    lemma_fundamental_div_mod(n, d);
    if n / d < q {
        assert(d * (n / d) + d <= d * q) by (nonlinear_arith)
            requires
                n / d < q,
                d > 0,
        ;
        assert(n % d < d);
        assert(d * q == q * d) by (nonlinear_arith);
    }
}

/// A positive input never buys the whole output reserve while both reserves
/// are positive.
pub proof fn lemma_output_below_reserve(input: int, input_reserve: int, output_reserve: int)
    requires
        input > 0,
        input_reserve > 0,
        output_reserve > 0,
    ensures
        output_for(input, input_reserve, output_reserve) < output_reserve,
{
    assert(input * output_reserve < (input_reserve + input) * output_reserve) by (nonlinear_arith)
        requires
            input > 0,
            input_reserve > 0,
            output_reserve > 0,
    ;
    lemma_multiply_divide_lt(input * output_reserve, input_reserve + input, output_reserve);
}

/// Paying `input` into one reserve and taking the quoted output from the other
/// never lowers the product of the two reserves.
pub proof fn lemma_output_keeps_product(input: int, input_reserve: int, output_reserve: int)
    requires
        input >= 0,
        input_reserve >= 0,
        output_reserve >= 0,
        input_reserve + input > 0,
    ensures
        (input_reserve + input) * (output_reserve - output_for(input, input_reserve, output_reserve))
            >= input_reserve * output_reserve,
{
    let q = output_for(input, input_reserve, output_reserve);
    lemma_fundamental_div_mod(input * output_reserve, input_reserve + input);
    assert(0 <= (input * output_reserve) % (input_reserve + input));
    assert((input_reserve + input) * q <= input * output_reserve);
    assert((input_reserve + input) * (output_reserve - q) >= input_reserve * output_reserve)
        by (nonlinear_arith)
        requires
            (input_reserve + input) * q <= input * output_reserve,
    ;
}

} // verus!
