//! A constant-product automated market maker: the arithmetic and the rules
//! of its pool instructions.
//!
//! Each instruction takes the account values that it reads and returns the
//! token-program calls that carry it out, in order, or the error that
//! refuses it.
use vstd::prelude::*;

pub mod error;
pub mod helpers;
pub mod math;
pub mod state;
pub mod contexts;
pub mod laws;

use crate::contexts::deposit::{Deposit, deposit_plan};
use crate::contexts::initialize::Initialize;
use crate::contexts::swap::{Swap, swap_plan};
use crate::contexts::withdraw::{Withdraw, withdraw_plan};
use crate::error::AmmError;
use crate::state::{Config, TokenInstruction};

verus! {

/// Creates a pool: seed, swap fee in basis points (0 to 10000).
pub fn initialize(ctx: &Initialize, seed: u64, fee: u16) -> (r: Result<Config, AmmError>)
    ensures
        r == ctx.spec_config(seed, fee),
        fee <= 10000 ==> (r matches Ok(c) && c.seed == seed && c.fee == fee),
        fee > 10000 ==> r == Err::<Config, AmmError>(AmmError::InvalidFee),
{
    ctx.initialize(seed, fee)
}

/// Adds liquidity and mints LP tokens, no fewer than `min_lp`.
pub fn deposit(ctx: &Deposit, amount_x: u64, amount_y: u64, min_lp: u64) -> (r: Result<Vec<TokenInstruction>, AmmError>)
    ensures
        match r {
            Ok(plan) => ctx.quote(amount_x, amount_y, min_lp) matches Ok(lp)
                && plan@ == deposit_plan(amount_x, amount_y, lp),
            Err(e) => ctx.quote(amount_x, amount_y, min_lp) == Err::<u64, AmmError>(e),
        },
{
    ctx.deposit(amount_x, amount_y, min_lp)
}

/// Burns LP tokens and pays out their share of each vault, no less than
/// `min_x` and `min_y`.
pub fn withdraw(ctx: &Withdraw, lp_amount: u64, min_x: u64, min_y: u64) -> (r: Result<Vec<TokenInstruction>, AmmError>)
    ensures
        match r {
            Ok(plan) => ctx.quote(lp_amount, min_x, min_y) matches Ok((ax, ay))
                && plan@ == withdraw_plan(lp_amount, ax, ay),
            Err(e) => ctx.quote(lp_amount, min_x, min_y) == Err::<(u64, u64), AmmError>(e),
        },
{
    ctx.withdraw(lp_amount, min_x, min_y)
}

/// Swaps X for Y when `is_x`, Y for X otherwise, for no less than
/// `min_amount_out`.
pub fn swap(ctx: &Swap, amount_in: u64, min_amount_out: u64, is_x: bool) -> (r: Result<Vec<TokenInstruction>, AmmError>)
    requires
        ctx.fee_deduction_fits(amount_in, is_x),
    ensures
        match r {
            Ok(plan) => ctx.quote(amount_in, min_amount_out, is_x) matches Ok(out)
                && plan@ == swap_plan(is_x, amount_in, out),
            Err(e) => ctx.quote(amount_in, min_amount_out, is_x) == Err::<u64, AmmError>(e),
        },
{
    ctx.swap(amount_in, min_amount_out, is_x)
}

} // verus!
