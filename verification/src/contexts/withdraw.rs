use vstd::prelude::*;
use crate::error::AmmError;
use crate::math::{lemma_div_bounds, lemma_div_at_most, lemma_mul_le};
use crate::state::{Balances, Side, TokenInstruction};

verus! {

/// The account values that a withdrawal reads: the LP token supply and the
/// two vault balances.
#[derive(Debug, Clone, Copy)]
pub struct Withdraw {
    pub lp_supply: u64,
    pub vault_x_amount: u64,
    pub vault_y_amount: u64,
}

/// The token calls of a withdrawal: the LP tokens burned, then both tokens
/// out of the vaults.
pub open spec fn withdraw_plan(lp_amount: u64, amount_x: u64, amount_y: u64) -> Seq<TokenInstruction> {
    seq![
        TokenInstruction::BurnLp { amount: lp_amount },
        TokenInstruction::TransferFromVault { side: Side::X, amount: amount_x },
        TokenInstruction::TransferFromVault { side: Side::Y, amount: amount_y },
    ]
}

/// The share of `vault` that `lp_amount` of `lp_supply` LP tokens stand for,
/// rounded down.
pub open spec fn vault_share(vault: u64, lp_amount: u64, lp_supply: u64) -> int {
    vault * lp_amount / (lp_supply as int)
}

impl Withdraw {
    pub open spec fn balances(self) -> Balances {
        Balances { x: self.vault_x_amount as int, y: self.vault_y_amount as int, lp: self.lp_supply as int }
    }

    /// The outcome of a withdrawal: the two token amounts paid out, or why it
    /// is refused.
    pub open spec fn quote(self, lp_amount: u64, min_x: u64, min_y: u64) -> Result<(u64, u64), AmmError> {
        if lp_amount == 0 {
            Err(AmmError::ZeroAmount)
        } else if self.lp_supply == 0 {
            Err(AmmError::PoolEmpty)
        } else {
            let amount_x = vault_share(self.vault_x_amount, lp_amount, self.lp_supply);
            let amount_y = vault_share(self.vault_y_amount, lp_amount, self.lp_supply);
            if amount_x > u64::MAX || amount_y > u64::MAX {
                Err(AmmError::Overflow)
            } else if amount_x < min_x || amount_y < min_y {
                Err(AmmError::SlippageExceeded)
            } else {
                Ok((amount_x as u64, amount_y as u64))
            }
        }
    }

    /// Burns `lp_amount` LP tokens and pays out the matching share of each
    /// vault; refused when either amount falls below `min_x` or `min_y`.
    ///
    /// A share too large for 64 bits (only possible when burning more than
    /// the supply) is refused with `Overflow`.
    ///
    /// Returns the token calls to make, in order. The amounts never exceed
    /// the LP tokens' share of the vaults; when no more than the supply is
    /// burned they never exceed the vaults, and burning the whole supply pays
    /// out the whole vaults.
    pub fn withdraw(&self, lp_amount: u64, min_x: u64, min_y: u64) -> (r: Result<Vec<TokenInstruction>, AmmError>)
        ensures
            match r {
                Ok(plan) => self.quote(lp_amount, min_x, min_y) matches Ok((ax, ay))
                    && plan@ == withdraw_plan(lp_amount, ax, ay),
                Err(e) => self.quote(lp_amount, min_x, min_y) == Err::<(u64, u64), AmmError>(e),
            },
            self.quote(lp_amount, min_x, min_y) matches Ok((ax, ay)) ==> {
                &&& ax * self.lp_supply <= self.vault_x_amount * lp_amount
                &&& ay * self.lp_supply <= self.vault_y_amount * lp_amount
                &&& lp_amount <= self.lp_supply ==> ax <= self.vault_x_amount && ay <= self.vault_y_amount
                &&& lp_amount == self.lp_supply ==> ax == self.vault_x_amount && ay == self.vault_y_amount
            },
    {
        if lp_amount == 0 {
            return Err(AmmError::ZeroAmount);
        }
        let lp_supply = self.lp_supply;
        if lp_supply == 0 {
            return Err(AmmError::PoolEmpty);
        }
        let vault_x_amount = self.vault_x_amount;
        let vault_y_amount = self.vault_y_amount;
        let amount_x = match share_of_vault(vault_x_amount, lp_amount, lp_supply) {
            Some(v) => v,
            None => return Err(AmmError::Overflow),
        };
        let amount_y = match share_of_vault(vault_y_amount, lp_amount, lp_supply) {
            Some(v) => v,
            None => return Err(AmmError::Overflow),
        };
        if amount_x < min_x {
            return Err(AmmError::SlippageExceeded);
        }
        if amount_y < min_y {
            return Err(AmmError::SlippageExceeded);
        }
        let mut plan: Vec<TokenInstruction> = Vec::new();
        plan.push(TokenInstruction::BurnLp { amount: lp_amount });
        plan.push(TokenInstruction::TransferFromVault { side: Side::X, amount: amount_x });
        plan.push(TokenInstruction::TransferFromVault { side: Side::Y, amount: amount_y });
        assert(plan@ =~= withdraw_plan(lp_amount, amount_x, amount_y));
        Ok(plan)
    }
}

/// `vault * lp_amount / lp_supply` computed in 128 bits; `None` when it does
/// not fit in 64 bits.
fn share_of_vault(vault: u64, lp_amount: u64, lp_supply: u64) -> (r: Option<u64>)
    requires
        lp_supply > 0,
    ensures
        r matches Some(a) ==> a as int == vault_share(vault, lp_amount, lp_supply),
        r is None <==> vault_share(vault, lp_amount, lp_supply) > u64::MAX,
        r matches Some(a) ==> a * lp_supply <= vault * lp_amount,
        r matches Some(a) ==> (lp_amount <= lp_supply ==> a <= vault),
        r matches Some(a) ==> (lp_amount == lp_supply ==> a == vault),
{
    proof {
        lemma_mul_le(vault as int, lp_amount as int, u64::MAX as int, u64::MAX as int);
    }
    let scaled: u128 = match (vault as u128).checked_mul(lp_amount as u128) {
        Some(v) => v,
        None => return None,
    };
    let share: u128 = match scaled.checked_div(lp_supply as u128) {
        Some(v) => v,
        None => return None,
    };
    if share > u64::MAX as u128 {
        return None;
    }
    proof {
        lemma_div_bounds(scaled as int, lp_supply as int);
        assert(share * lp_supply <= scaled) by (nonlinear_arith)
            requires
                lp_supply * share <= scaled,
        {}
        if lp_amount <= lp_supply {
            lemma_mul_le(vault as int, lp_amount as int, vault as int, lp_supply as int);
            lemma_div_at_most(scaled as int, lp_supply as int, vault as int);
        }
        if lp_amount == lp_supply {
            vstd::arithmetic::div_mod::lemma_div_by_multiple(vault as int, lp_supply as int);
        }
    }
    Some(share as u64)
}

} // verus!
