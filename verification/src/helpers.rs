use vstd::prelude::*;
use crate::error::AmmError;
use crate::math::{lemma_div_bounds, lemma_div_at_most, lemma_div_below, lemma_mul_le};

verus! {

/// Basis points in one whole: a fee of `BPS_DENOMINATOR` would take everything.
pub const BPS_DENOMINATOR: u16 = 10000;

/// What is left of `amount_in` once a fee of `fee_bps` basis points is taken,
/// rounded down.
pub open spec fn amount_after_fee(amount_in: int, fee_bps: int) -> int {
    amount_in * (10000 - fee_bps) / 10000
}

/// The constant-product output for `amount_in` paid into a pool holding
/// `reserve_in` and `reserve_out`: with `dx` the input after the fee,
/// `dy = reserve_out * dx / (reserve_in + dx)`, rounded down.
pub open spec fn swap_output(amount_in: int, reserve_in: int, reserve_out: int, fee_bps: int) -> int {
    let dx = amount_after_fee(amount_in, fee_bps);
    reserve_out * dx / (reserve_in + dx)
}

/// The outcome of quoting a swap: refused for a zero input or an empty side
/// of the pool, else the constant-product output.
pub open spec fn swap_quote(amount_in: u64, reserve_in: u64, reserve_out: u64, fee_bps: u16) -> Result<u64, AmmError> {
    if amount_in == 0 {
        Err(AmmError::ZeroAmount)
    } else if reserve_in == 0 || reserve_out == 0 {
        Err(AmmError::PoolEmpty)
    } else {
        Ok(swap_output(amount_in as int, reserve_in as int, reserve_out as int, fee_bps as int) as u64)
    }
}

/// The fee never adds to the input.
pub proof fn lemma_amount_after_fee_bounds(amount_in: int, fee_bps: int)
    requires
        amount_in >= 0,
        0 <= fee_bps <= 10000,
    ensures
        0 <= amount_after_fee(amount_in, fee_bps) <= amount_in,
{
    lemma_mul_le(amount_in, 10000 - fee_bps, amount_in, 10000);
    lemma_div_bounds(amount_in * (10000 - fee_bps), 10000);
    lemma_div_at_most(amount_in * (10000 - fee_bps), 10000, amount_in);
}

/// With both reserves positive, paying `dx` into the pool while the curve
/// sees only `a <= dx` pays out less than the whole output reserve and
/// leaves the product of the reserves no smaller.
pub proof fn lemma_curve_step(reserve_in: int, reserve_out: int, dx: int, a: int)
    requires
        reserve_in >= 1,
        reserve_out >= 1,
        0 <= a <= dx,
    ensures
        0 <= reserve_out * a / (reserve_in + a) < reserve_out,
        (reserve_in + a) * (reserve_out * a / (reserve_in + a)) <= reserve_out * a,
        (reserve_in + dx) * (reserve_out - reserve_out * a / (reserve_in + a)) >= reserve_in * reserve_out,
{
    let d = reserve_in + a;
    let n = reserve_out * a;
    lemma_mul_le(reserve_out, a, reserve_out, a);
    lemma_div_bounds(n, d);
    let out = n / d;
    assert(n < d * reserve_out) by (nonlinear_arith)
        requires
            n == reserve_out * a,
            d == reserve_in + a,
            reserve_in >= 1,
            reserve_out >= 1,
            a >= 0,
    {}
    lemma_div_below(n, d, reserve_out);
    assert((reserve_in + dx) * (reserve_out - out) >= reserve_in * reserve_out) by (nonlinear_arith)
        requires
            d * out <= n,
            n == reserve_out * a,
            d == reserve_in + a,
            0 <= out < reserve_out,
            reserve_in >= 1,
            0 <= a <= dx,
    {
        assert(d * (reserve_out - out) >= reserve_in * reserve_out);
        assert((reserve_in + dx) * (reserve_out - out) >= d * (reserve_out - out));
    }
}

/// What a successful quote pays out: the curve's output exactly, below the
/// output reserve, with the product of the reserves no smaller afterwards.
pub proof fn lemma_swap_quote(amount_in: u64, reserve_in: u64, reserve_out: u64, fee_bps: u16)
    requires
        fee_bps <= 10000,
        swap_quote(amount_in, reserve_in, reserve_out, fee_bps) is Ok,
    ensures
        swap_quote(amount_in, reserve_in, reserve_out, fee_bps) matches Ok(out) && {
            &&& out as int == swap_output(amount_in as int, reserve_in as int, reserve_out as int, fee_bps as int)
            &&& out < reserve_out
            &&& (reserve_in + amount_in) * (reserve_out - out) >= reserve_in * reserve_out
        },
{
    lemma_amount_after_fee_bounds(amount_in as int, fee_bps as int);
    lemma_curve_step(
        reserve_in as int,
        reserve_out as int,
        amount_in as int,
        amount_after_fee(amount_in as int, fee_bps as int),
    );
}

/// Output amount of a swap on the constant product curve `x * y = k`, after
/// the fee: `dy = (y * dx_after_fee) / (x + dx_after_fee)`.
///
/// Refuses a zero input (`ZeroAmount`) and a pool with an empty side
/// (`PoolEmpty`); every intermediate fits in 128 bits, so no other error
/// occurs. The fee is only applied once those checks pass, so only then must
/// it be at most 10000 basis points. The output is below `reserve_out`, and the product of the
/// reserves after the swap is at least the product before it.
pub fn calculate_swap_output(
    amount_in: u64,
    reserve_in: u64,
    reserve_out: u64,
    fee_bps: u16,
) -> (r: Result<u64, AmmError>)
    requires
        amount_in > 0 && reserve_in > 0 && reserve_out > 0 ==> fee_bps <= 10000,
    ensures
        r == swap_quote(amount_in, reserve_in, reserve_out, fee_bps),
        r matches Ok(out) ==> {
            &&& out as int == swap_output(amount_in as int, reserve_in as int, reserve_out as int, fee_bps as int)
            &&& out < reserve_out
            &&& (reserve_in + amount_in) * (reserve_out - out) >= reserve_in * reserve_out
        },
{
    if amount_in == 0 {
        return Err(AmmError::ZeroAmount);
    }
    if !(reserve_in > 0 && reserve_out > 0) {
        return Err(AmmError::PoolEmpty);
    }
    let keep: u16 = BPS_DENOMINATOR - fee_bps;
    proof {
        lemma_mul_le(amount_in as int, keep as int, u64::MAX as int, 10000);
    }
    let scaled: u128 = match (amount_in as u128).checked_mul(keep as u128) {
        Some(v) => v,
        None => return Err(AmmError::Overflow),
    };
    let after_fee: u128 = scaled / 10000u128;
    proof {
        lemma_amount_after_fee_bounds(amount_in as int, fee_bps as int);
        assert(after_fee as int == amount_after_fee(amount_in as int, fee_bps as int));
        lemma_mul_le(reserve_out as int, after_fee as int, u64::MAX as int, u64::MAX as int);
    }
    let numerator: u128 = match (reserve_out as u128).checked_mul(after_fee) {
        Some(v) => v,
        None => return Err(AmmError::Overflow),
    };
    let denominator: u128 = match (reserve_in as u128).checked_add(after_fee) {
        Some(v) => v,
        None => return Err(AmmError::Overflow),
    };
    let amount_out: u128 = match numerator.checked_div(denominator) {
        Some(v) => v,
        None => return Err(AmmError::Overflow),
    };
    proof {
        lemma_swap_quote(amount_in, reserve_in, reserve_out, fee_bps);
    }
    Ok(amount_out as u64)
}

} // verus!
