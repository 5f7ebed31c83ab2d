//! Properties of the pool that span its instructions.
use vstd::prelude::*;
use crate::contexts::deposit::{Deposit, deposit_plan, lemma_floor_sqrt};
use crate::contexts::initialize::Initialize;
use crate::error::AmmError;
use crate::state::Config;
use crate::contexts::swap::{Swap, swap_plan};
use crate::contexts::withdraw::Withdraw;
use crate::helpers::{amount_after_fee, lemma_amount_after_fee_bounds, lemma_swap_quote, swap_quote};
use crate::math::{lemma_div_at_least, lemma_div_at_most, lemma_div_bounds, lemma_le_quotient_iff, lemma_mul_le};
use crate::state::{Balances, apply_plan};

verus! {

/// The pool's holdings after a swap's token calls.
pub open spec fn balances_after_swap(ctx: Swap, is_x: bool, amount_in: u64, amount_out: u64) -> Balances {
    apply_plan(ctx.balances(), swap_plan(is_x, amount_in, amount_out))
}

/// A swap on the pool as it stands after a first swap.
pub open spec fn swap_after(ctx: Swap, is_x: bool, amount_in: u64, amount_out: u64) -> Swap {
    let b = balances_after_swap(ctx, is_x, amount_in, amount_out);
    Swap { fee: ctx.fee, vault_x_amount: b.x as u64, vault_y_amount: b.y as u64 }
}

/// A withdrawal on the pool as it stands after a deposit.
pub open spec fn withdraw_after_deposit(ctx: Deposit, amount_x: u64, amount_y: u64, lp: u64) -> Withdraw {
    let b = apply_plan(ctx.balances(), deposit_plan(amount_x, amount_y, lp));
    Withdraw { lp_supply: b.lp as u64, vault_x_amount: b.x as u64, vault_y_amount: b.y as u64 }
}

/// A swap never lowers the product of the two vault balances (the constant
/// product `x * y = k` can only grow, by fees and rounding), and it leaves
/// both vaults holding something.
pub proof fn lemma_swap_keeps_product(ctx: Swap, amount_in: u64, min_amount_out: u64, is_x: bool)
    requires
        ctx.fee <= 10000,
        ctx.quote(amount_in, min_amount_out, is_x) is Ok,
    ensures
        ctx.quote(amount_in, min_amount_out, is_x) matches Ok(out) && {
            let before = ctx.balances();
            let after = balances_after_swap(ctx, is_x, amount_in, out);
            &&& after.x * after.y >= before.x * before.y
            &&& after.x > 0
            &&& after.y > 0
        },
{
    reveal_with_fuel(apply_plan, 3);
    let (reserve_in, reserve_out) = ctx.reserves(is_x);
    lemma_swap_quote(amount_in, reserve_in, reserve_out, ctx.fee);
    let out = ctx.quote(amount_in, min_amount_out, is_x)->Ok_0;
    let before = ctx.balances();
    let after = balances_after_swap(ctx, is_x, amount_in, out);
    if is_x {
        assert(after.x == before.x + amount_in && after.y == before.y - out);
        assert(after.x * after.y >= before.x * before.y);
    } else {
        assert(after.y == before.y + amount_in && after.x == before.x - out);
        assert(after.x * after.y >= before.x * before.y) by (nonlinear_arith)
            requires
                after.x == before.x - out,
                after.y == before.y + amount_in,
                (before.y + amount_in) * (before.x - out) >= before.y * before.x,
        {}
    }
}

/// The arithmetic of a swap and its reverse: paying `dx` (of which the
/// curve sees `a`) gives `out`, and paying back any `a2 <= out` on the
/// moved pool gives at most `dx`.
proof fn lemma_reverse_curve_step(reserve_in: int, reserve_out: int, dx: int, a: int, out: int, a2: int)
    requires
        reserve_in >= 1,
        reserve_out >= 1,
        0 <= a <= dx,
        out == reserve_out * a / (reserve_in + a),
        0 <= a2 <= out,
        out < reserve_out,
    ensures
        (reserve_in + dx) * a2 / ((reserve_out - out) + a2) <= dx,
{
    lemma_mul_le(reserve_out, a, reserve_out, a);
    lemma_div_bounds(reserve_out * a, reserve_in + a);
    assert((reserve_in + dx) * a2 <= dx * ((reserve_out - out) + a2)) by (nonlinear_arith)
        requires
            reserve_in >= 1,
            0 <= a <= dx,
            (reserve_in + a) * out <= reserve_out * a,
            0 <= a2 <= out,
            out < reserve_out,
    {
        assert(out * (reserve_in + dx) <= dx * reserve_out) by {
            assert(out * (dx - a) <= reserve_out * (dx - a));
        }
        assert(reserve_in * a2 <= reserve_in * out);
    }
    lemma_mul_le(reserve_in + dx, a2, reserve_in + dx, a2);
    lemma_div_at_most((reserve_in + dx) * a2, (reserve_out - out) + a2, dx);
}

/// Swapping and then swapping the whole output back never returns more than
/// was paid in: a round trip through the pool cannot make a profit.
pub proof fn lemma_swap_round_trip_no_gain(
    ctx: Swap,
    amount_in: u64,
    min_amount_out: u64,
    is_x: bool,
    min_back: u64,
)
    requires
        ctx.fee <= 10000,
        ctx.quote(amount_in, min_amount_out, is_x) is Ok,
        ctx.reserves(is_x).0 + amount_in <= u64::MAX,
    ensures
        ctx.quote(amount_in, min_amount_out, is_x) matches Ok(out)
            && (swap_after(ctx, is_x, amount_in, out).quote(out, min_back, !is_x) matches Ok(back)
                ==> back <= amount_in),
{
    reveal_with_fuel(apply_plan, 3);
    let fee = ctx.fee;
    let (reserve_in, reserve_out) = ctx.reserves(is_x);
    lemma_swap_quote(amount_in, reserve_in, reserve_out, fee);
    let out = ctx.quote(amount_in, min_amount_out, is_x)->Ok_0;
    let next = swap_after(ctx, is_x, amount_in, out);
    let (back_in, back_out) = next.reserves(!is_x);
    assert(back_in == reserve_out - out && back_out == reserve_in + amount_in);
    if next.quote(out, min_back, !is_x) is Ok {
        lemma_swap_quote(out, back_in, back_out, fee);
        lemma_amount_after_fee_bounds(amount_in as int, fee as int);
        lemma_amount_after_fee_bounds(out as int, fee as int);
        lemma_reverse_curve_step(
            reserve_in as int,
            reserve_out as int,
            amount_in as int,
            amount_after_fee(amount_in as int, fee as int),
            out as int,
            amount_after_fee(out as int, fee as int),
        );
    }
}

/// Depositing and then withdrawing the LP tokens just minted never pays out
/// more of either token than was deposited; on a fresh pool it pays back
/// exactly what was deposited.
///
/// This needs a pool that already has LP tokens, or one whose vaults are
/// empty: tokens sent to the vaults before the first deposit go to the first
/// depositor.
pub proof fn lemma_deposit_then_withdraw_no_gain(ctx: Deposit, amount_x: u64, amount_y: u64, min_lp: u64)
    requires
        ctx.quote(amount_x, amount_y, min_lp) is Ok,
        ctx.lp_supply > 0 || (ctx.vault_x_amount == 0 && ctx.vault_y_amount == 0),
        ctx.vault_x_amount + amount_x <= u64::MAX,
        ctx.vault_y_amount + amount_y <= u64::MAX,
        ctx.lp_supply + ctx.quote(amount_x, amount_y, min_lp)->Ok_0 <= u64::MAX,
    ensures
        ctx.quote(amount_x, amount_y, min_lp) matches Ok(lp) && (lp > 0 ==> {
            withdraw_after_deposit(ctx, amount_x, amount_y, lp).quote(lp, 0, 0) matches Ok((out_x, out_y))
                && out_x <= amount_x && out_y <= amount_y
                && (ctx.lp_supply == 0 ==> out_x == amount_x && out_y == amount_y)
        }),
{
    reveal_with_fuel(apply_plan, 4);
    let lp = ctx.quote(amount_x, amount_y, min_lp)->Ok_0;
    let s = ctx.lp_supply as int;
    let vx = ctx.vault_x_amount as int;
    let vy = ctx.vault_y_amount as int;
    if ctx.lp_supply > 0 {
        ctx.lemma_lp_share(amount_x, amount_y);
    }
    assert(lp * vx <= amount_x * s && lp * vy <= amount_y * s);
    if lp > 0 {
        let w = withdraw_after_deposit(ctx, amount_x, amount_y, lp);
        assert(w.lp_supply == s + lp && w.vault_x_amount == vx + amount_x && w.vault_y_amount == vy + amount_y);
        lemma_mul_le(vx + amount_x, lp as int, vx + amount_x, lp as int);
        lemma_mul_le(vy + amount_y, lp as int, vy + amount_y, lp as int);
        assert((vx + amount_x) * lp <= (s + lp) * amount_x) by (nonlinear_arith)
            requires
                lp * vx <= amount_x * s,
        {}
        assert((vy + amount_y) * lp <= (s + lp) * amount_y) by (nonlinear_arith)
            requires
                lp * vy <= amount_y * s,
        {}
        lemma_div_at_most((vx + amount_x) * lp, s + lp, amount_x as int);
        lemma_div_at_most((vy + amount_y) * lp, s + lp, amount_y as int);
        if s == 0 {
            vstd::arithmetic::div_mod::lemma_div_by_multiple(amount_x as int, lp as int);
            vstd::arithmetic::div_mod::lemma_div_by_multiple(amount_y as int, lp as int);
        }
    }
}

/// On the curve, a larger input after the fee never pays out less.
proof fn lemma_curve_monotone(reserve_in: int, reserve_out: int, a1: int, a2: int)
    requires
        reserve_in >= 1,
        reserve_out >= 1,
        0 <= a1 <= a2,
    ensures
        reserve_out * a1 / (reserve_in + a1) <= reserve_out * a2 / (reserve_in + a2),
{
    lemma_mul_le(reserve_out, a1, reserve_out, a2);
    lemma_div_bounds(reserve_out * a1, reserve_in + a1);
    let q = reserve_out * a1 / (reserve_in + a1);
    assert(q <= reserve_out) by {
        lemma_mul_le(reserve_out, a1, reserve_out, reserve_in + a1);
        lemma_div_at_most(reserve_out * a1, reserve_in + a1, reserve_out);
    }
    assert((reserve_in + a2) * q <= reserve_out * a2) by (nonlinear_arith)
        requires
            (reserve_in + a1) * q <= reserve_out * a1,
            0 <= q <= reserve_out,
            a1 <= a2,
    {
        assert(q * (a2 - a1) <= reserve_out * (a2 - a1));
    }
    lemma_div_at_least(reserve_out * a2, reserve_in + a2, q);
}

/// Paying more into a swap never pays out less.
pub proof fn lemma_swap_monotone_in_input(
    amount_in1: u64,
    amount_in2: u64,
    reserve_in: u64,
    reserve_out: u64,
    fee_bps: u16,
)
    requires
        amount_in1 <= amount_in2,
        fee_bps <= 10000,
    ensures
        swap_quote(amount_in1, reserve_in, reserve_out, fee_bps) matches Ok(out1)
            ==> swap_quote(amount_in2, reserve_in, reserve_out, fee_bps) matches Ok(out2) && out1 <= out2,
{
    if swap_quote(amount_in1, reserve_in, reserve_out, fee_bps) is Ok {
        lemma_swap_quote(amount_in1, reserve_in, reserve_out, fee_bps);
        lemma_swap_quote(amount_in2, reserve_in, reserve_out, fee_bps);
        let k = 10000 - fee_bps;
        lemma_mul_le(amount_in1 as int, k, amount_in2 as int, k);
        vstd::arithmetic::div_mod::lemma_div_is_ordered(amount_in1 * k, amount_in2 * k, 10000);
        lemma_amount_after_fee_bounds(amount_in1 as int, fee_bps as int);
        lemma_curve_monotone(
            reserve_in as int,
            reserve_out as int,
            amount_after_fee(amount_in1 as int, fee_bps as int),
            amount_after_fee(amount_in2 as int, fee_bps as int),
        );
    }
}

/// A higher fee never pays out more.
pub proof fn lemma_swap_fee_lowers_output(
    amount_in: u64,
    reserve_in: u64,
    reserve_out: u64,
    fee1: u16,
    fee2: u16,
)
    requires
        fee1 <= fee2 <= 10000,
    ensures
        swap_quote(amount_in, reserve_in, reserve_out, fee2) matches Ok(out2)
            ==> swap_quote(amount_in, reserve_in, reserve_out, fee1) matches Ok(out1) && out2 <= out1,
{
    if swap_quote(amount_in, reserve_in, reserve_out, fee2) is Ok {
        lemma_swap_quote(amount_in, reserve_in, reserve_out, fee1);
        lemma_swap_quote(amount_in, reserve_in, reserve_out, fee2);
        lemma_mul_le(amount_in as int, 10000 - fee2, amount_in as int, 10000 - fee1);
        vstd::arithmetic::div_mod::lemma_div_is_ordered(
            amount_in * (10000 - fee2),
            amount_in * (10000 - fee1),
            10000,
        );
        lemma_amount_after_fee_bounds(amount_in as int, fee2 as int);
        lemma_curve_monotone(
            reserve_in as int,
            reserve_out as int,
            amount_after_fee(amount_in as int, fee2 as int),
            amount_after_fee(amount_in as int, fee1 as int),
        );
    }
}

/// A later deposit into a pool with both vaults holding something: with
/// `sx = amount_x * lp_supply` and `sy = amount_y * lp_supply`, it is refused
/// with `Overflow` exactly when both shares reach `2^64`, refused for slippage
/// exactly when `min_lp` passes either share, and otherwise mints the largest
/// `lp` with `lp * vault_x <= sx` and `lp * vault_y <= sy`.
pub proof fn lemma_later_deposit_mints_smaller_share(ctx: Deposit, amount_x: u64, amount_y: u64, min_lp: u64)
    requires
        ctx.lp_supply > 0,
        ctx.vault_x_amount > 0,
        ctx.vault_y_amount > 0,
        amount_x > 0,
        amount_y > 0,
    ensures
        ({
            let sx = amount_x * ctx.lp_supply;
            let sy = amount_y * ctx.lp_supply;
            let vx = ctx.vault_x_amount as int;
            let vy = ctx.vault_y_amount as int;
            let r = ctx.quote(amount_x, amount_y, min_lp);
            let too_large = sx >= 0x1_0000_0000_0000_0000 * vx && sy >= 0x1_0000_0000_0000_0000 * vy;
            &&& r == Err::<u64, AmmError>(AmmError::Overflow) <==> too_large
            &&& r == Err::<u64, AmmError>(AmmError::SlippageExceeded)
                <==> !too_large && (min_lp * vx > sx || min_lp * vy > sy)
            &&& (r is Ok || r == Err::<u64, AmmError>(AmmError::Overflow)
                || r == Err::<u64, AmmError>(AmmError::SlippageExceeded))
            &&& r matches Ok(lp) ==> {
                &&& lp >= min_lp
                &&& lp * vx <= sx
                &&& lp * vy <= sy
                &&& (lp + 1) * vx > sx || (lp + 1) * vy > sy
            }
        }),
{
    let s = ctx.lp_supply as int;
    let sx = amount_x * s;
    let sy = amount_y * s;
    let vx = ctx.vault_x_amount as int;
    let vy = ctx.vault_y_amount as int;
    lemma_mul_le(amount_x as int, s, u64::MAX as int, u64::MAX as int);
    lemma_mul_le(amount_y as int, s, u64::MAX as int, u64::MAX as int);
    let fx = sx / vx;
    let fy = sy / vy;
    let big = 0x1_0000_0000_0000_0000int;
    lemma_le_quotient_iff(sx, vx, big);
    lemma_le_quotient_iff(sy, vy, big);
    lemma_le_quotient_iff(sx, vx, min_lp as int);
    lemma_le_quotient_iff(sy, vy, min_lp as int);
    let m = if fx <= fy { fx } else { fy };
    lemma_le_quotient_iff(sx, vx, m);
    lemma_le_quotient_iff(sy, vy, m);
    lemma_le_quotient_iff(sx, vx, m + 1);
    lemma_le_quotient_iff(sy, vy, m + 1);
}

/// Creating a pool accepts every fee from 0 to 10000 basis points and stores
/// the seed, the fee, both mints and both bumps as given; any higher fee is
/// refused with `InvalidFee`.
pub proof fn lemma_initialize_accepts_fee_range(ctx: Initialize, seed: u64, fee: u16)
    ensures
        fee <= 10000 ==> (ctx.spec_config(seed, fee) matches Ok(c) && {
            &&& c.seed == seed
            &&& c.fee == fee
            &&& c.mint_x == ctx.mint_x
            &&& c.mint_y == ctx.mint_y
            &&& c.lp_bump == ctx.lp_bump
            &&& c.bump == ctx.config_bump
        }),
        fee > 10000 ==> ctx.spec_config(seed, fee) == Err::<Config, AmmError>(AmmError::InvalidFee),
{
}

/// A deposit with a zero amount is refused with `ZeroAmount`; a later
/// deposit into a pool with an empty vault is refused with `Overflow`.
pub proof fn lemma_deposit_refusals(ctx: Deposit, amount_x: u64, amount_y: u64, min_lp: u64)
    ensures
        amount_x == 0 || amount_y == 0 ==> ctx.quote(amount_x, amount_y, min_lp)
            == Err::<u64, AmmError>(AmmError::ZeroAmount),
        amount_x > 0 && amount_y > 0 && ctx.lp_supply > 0
            && (ctx.vault_x_amount == 0 || ctx.vault_y_amount == 0) ==> ctx.quote(amount_x, amount_y, min_lp)
            == Err::<u64, AmmError>(AmmError::Overflow),
{
}

/// The first deposit (no LP tokens yet) mints the integer square root of
/// `amount_x * amount_y`, whatever the vaults hold, and is refused for
/// slippage exactly when `min_lp` squared passes that product.
pub proof fn lemma_first_deposit_mints_root(ctx: Deposit, amount_x: u64, amount_y: u64, min_lp: u64)
    requires
        ctx.lp_supply == 0,
        amount_x > 0,
        amount_y > 0,
    ensures
        ({
            let n = amount_x * amount_y;
            let r = ctx.quote(amount_x, amount_y, min_lp);
            &&& r is Ok || r == Err::<u64, AmmError>(AmmError::SlippageExceeded)
            &&& r == Err::<u64, AmmError>(AmmError::SlippageExceeded) <==> min_lp * min_lp > n
            &&& r matches Ok(lp) ==> lp >= min_lp && lp * lp <= n && n < (lp + 1) * (lp + 1)
        }),
{
    let n = amount_x * amount_y;
    lemma_mul_le(amount_x as int, amount_y as int, u64::MAX as int, u64::MAX as int);
    lemma_floor_sqrt(n, 0);
    let root = crate::contexts::deposit::floor_sqrt(n);
    if root > u64::MAX {
        lemma_mul_le(u64::MAX as int + 1, u64::MAX as int + 1, root, root);
    }
    let m = min_lp as int;
    if m <= root {
        lemma_mul_le(m, m, root, root);
    } else {
        lemma_mul_le(root + 1, root + 1, m, m);
    }
}

/// A withdrawal of `lp_amount` from a pool with LP tokens pays, from each
/// vault, the largest amount `a` with `a * lp_supply <= vault * lp_amount`.
/// It is refused with `Overflow` exactly when either amount would reach
/// `2^64`, and for slippage exactly when a minimum passes its amount.
pub proof fn lemma_withdraw_pays_floor_share(ctx: Withdraw, lp_amount: u64, min_x: u64, min_y: u64)
    ensures
        lp_amount == 0 ==> ctx.quote(lp_amount, min_x, min_y)
            == Err::<(u64, u64), AmmError>(AmmError::ZeroAmount),
        lp_amount > 0 && ctx.lp_supply == 0 ==> ctx.quote(lp_amount, min_x, min_y)
            == Err::<(u64, u64), AmmError>(AmmError::PoolEmpty),
        lp_amount > 0 && ctx.lp_supply > 0 ==> ({
            let s = ctx.lp_supply as int;
            let px = ctx.vault_x_amount * lp_amount;
            let py = ctx.vault_y_amount * lp_amount;
            let r = ctx.quote(lp_amount, min_x, min_y);
            let too_large = px >= 0x1_0000_0000_0000_0000 * s || py >= 0x1_0000_0000_0000_0000 * s;
            &&& r == Err::<(u64, u64), AmmError>(AmmError::Overflow) <==> too_large
            &&& r == Err::<(u64, u64), AmmError>(AmmError::SlippageExceeded)
                <==> !too_large && (min_x * s > px || min_y * s > py)
            &&& (r is Ok || r == Err::<(u64, u64), AmmError>(AmmError::Overflow)
                || r == Err::<(u64, u64), AmmError>(AmmError::SlippageExceeded))
            &&& r matches Ok((ax, ay)) ==> {
                &&& ax >= min_x && ay >= min_y
                &&& ax * s <= px && px < (ax + 1) * s
                &&& ay * s <= py && py < (ay + 1) * s
            }
        }),
{
    if lp_amount > 0 && ctx.lp_supply > 0 {
        let s = ctx.lp_supply as int;
        let px = ctx.vault_x_amount * lp_amount;
        let py = ctx.vault_y_amount * lp_amount;
        lemma_mul_le(ctx.vault_x_amount as int, lp_amount as int, u64::MAX as int, u64::MAX as int);
        lemma_mul_le(ctx.vault_y_amount as int, lp_amount as int, u64::MAX as int, u64::MAX as int);
        let big = 0x1_0000_0000_0000_0000int;
        lemma_le_quotient_iff(px, s, big);
        lemma_le_quotient_iff(py, s, big);
        lemma_le_quotient_iff(px, s, min_x as int);
        lemma_le_quotient_iff(py, s, min_y as int);
        let qx = px / s;
        let qy = py / s;
        lemma_le_quotient_iff(px, s, qx);
        lemma_le_quotient_iff(py, s, qy);
        lemma_le_quotient_iff(px, s, qx + 1);
        lemma_le_quotient_iff(py, s, qy + 1);
    }
}

/// A swap quote is refused with `ZeroAmount` for a zero input and with
/// `PoolEmpty` for an empty reserve. Otherwise, with `a` the input left
/// after the fee (`a * 10000 <= amount_in * (10000 - fee) < (a + 1) * 10000`),
/// it pays the largest `out` with `out * (reserve_in + a) <= reserve_out * a`.
pub proof fn lemma_swap_pays_curve_floor(
    amount_in: u64,
    reserve_in: u64,
    reserve_out: u64,
    fee_bps: u16,
    a: int,
)
    requires
        fee_bps <= 10000,
        a * 10000 <= amount_in * (10000 - fee_bps) < (a + 1) * 10000,
    ensures
        amount_in == 0 ==> swap_quote(amount_in, reserve_in, reserve_out, fee_bps)
            == Err::<u64, AmmError>(AmmError::ZeroAmount),
        amount_in > 0 && (reserve_in == 0 || reserve_out == 0) ==> swap_quote(amount_in, reserve_in, reserve_out, fee_bps)
            == Err::<u64, AmmError>(AmmError::PoolEmpty),
        amount_in > 0 && reserve_in > 0 && reserve_out > 0 ==> (swap_quote(amount_in, reserve_in, reserve_out, fee_bps) matches Ok(out)
            && out * (reserve_in + a) <= reserve_out * a
            && reserve_out * a < (out + 1) * (reserve_in + a)),
{
    if amount_in > 0 && reserve_in > 0 && reserve_out > 0 {
        lemma_swap_quote(amount_in, reserve_in, reserve_out, fee_bps);
        let k = amount_in * (10000 - fee_bps);
        lemma_mul_le(amount_in as int, 10000 - fee_bps, u64::MAX as int, 10000);
        lemma_le_quotient_iff(k, 10000, a);
        lemma_le_quotient_iff(k, 10000, a + 1);
        assert(a == amount_after_fee(amount_in as int, fee_bps as int));
        lemma_amount_after_fee_bounds(amount_in as int, fee_bps as int);
        let d = reserve_in + a;
        let n = reserve_out * a;
        lemma_mul_le(reserve_out as int, a, reserve_out as int, a);
        let out = n / d;
        lemma_le_quotient_iff(n, d, out);
        lemma_le_quotient_iff(n, d, out + 1);
    }
}

} // verus!
