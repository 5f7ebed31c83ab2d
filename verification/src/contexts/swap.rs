use vstd::prelude::*;
use crate::error::AmmError;
use crate::helpers::{calculate_swap_output, swap_quote};
use crate::state::{Balances, Side, TokenInstruction};

verus! {

/// The account values that a swap reads: the pool's fee and the two vault
/// balances.
#[derive(Debug, Clone, Copy)]
pub struct Swap {
    /// Swap fee in basis points.
    pub fee: u16,
    pub vault_x_amount: u64,
    pub vault_y_amount: u64,
}

/// The token calls of a swap: the input into its vault, then the output out
/// of the other vault. `is_x` swaps X for Y.
pub open spec fn swap_plan(is_x: bool, amount_in: u64, amount_out: u64) -> Seq<TokenInstruction> {
    if is_x {
        seq![
            TokenInstruction::TransferToVault { side: Side::X, amount: amount_in },
            TokenInstruction::TransferFromVault { side: Side::Y, amount: amount_out },
        ]
    } else {
        seq![
            TokenInstruction::TransferToVault { side: Side::Y, amount: amount_in },
            TokenInstruction::TransferFromVault { side: Side::X, amount: amount_out },
        ]
    }
}

impl Swap {
    pub open spec fn balances(self) -> Balances {
        Balances { x: self.vault_x_amount as int, y: self.vault_y_amount as int, lp: 0 }
    }

    /// The reserve paid into and the reserve paid out of, for the direction.
    pub open spec fn reserves(self, is_x: bool) -> (u64, u64) {
        if is_x {
            (self.vault_x_amount, self.vault_y_amount)
        } else {
            (self.vault_y_amount, self.vault_x_amount)
        }
    }

    /// The fee is taken from the input once the input and both reserves are
    /// known to be positive; from then on it must be at most 10000 basis
    /// points.
    pub open spec fn fee_deduction_fits(self, amount_in: u64, is_x: bool) -> bool {
        amount_in > 0 && self.reserves(is_x).0 > 0 && self.reserves(is_x).1 > 0 ==> self.fee <= 10000
    }

    /// Whether a swap of `amount_in` in this direction can take its fee; when
    /// it cannot, the fee deduction `10000 - fee` would underflow.
    pub fn can_take_fee(&self, amount_in: u64, is_x: bool) -> (ok: bool)
        ensures
            ok == self.fee_deduction_fits(amount_in, is_x),
    {
        let (reserve_in, reserve_out) = if is_x {
            (self.vault_x_amount, self.vault_y_amount)
        } else {
            (self.vault_y_amount, self.vault_x_amount)
        };
        !(amount_in > 0 && reserve_in > 0 && reserve_out > 0) || self.fee <= 10000
    }

    /// The outcome of a swap: the amount paid out, or why it is refused.
    pub open spec fn quote(self, amount_in: u64, min_amount_out: u64, is_x: bool) -> Result<u64, AmmError> {
        if amount_in == 0 {
            Err(AmmError::ZeroAmount)
        } else {
            match swap_quote(amount_in, self.reserves(is_x).0, self.reserves(is_x).1, self.fee) {
                Err(e) => Err(e),
                Ok(out) => if out >= min_amount_out { Ok(out) } else { Err(AmmError::SlippageExceeded) },
            }
        }
    }

    /// Swaps `amount_in` of one token for the other: X for Y when `is_x`, Y for
    /// X otherwise. Refused when the output would be below `min_amount_out`.
    ///
    /// Returns the token calls to make, in order.
    pub fn swap(&self, amount_in: u64, min_amount_out: u64, is_x: bool) -> (r: Result<Vec<TokenInstruction>, AmmError>)
        requires
            self.fee_deduction_fits(amount_in, is_x),
        ensures
            match r {
                Ok(plan) => self.quote(amount_in, min_amount_out, is_x) matches Ok(out)
                    && plan@ == swap_plan(is_x, amount_in, out),
                Err(e) => self.quote(amount_in, min_amount_out, is_x) == Err::<u64, AmmError>(e),
            },
    {
        if amount_in == 0 {
            return Err(AmmError::ZeroAmount);
        }
        let (reserve_in, reserve_out) = if is_x {
            (self.vault_x_amount, self.vault_y_amount)
        } else {
            (self.vault_y_amount, self.vault_x_amount)
        };
        let amount_out = match calculate_swap_output(amount_in, reserve_in, reserve_out, self.fee) {
            Ok(v) => v,
            Err(e) => return Err(e),
        };
        if amount_out < min_amount_out {
            return Err(AmmError::SlippageExceeded);
        }
        let mut plan: Vec<TokenInstruction> = Vec::new();
        if is_x {
            plan.push(TokenInstruction::TransferToVault { side: Side::X, amount: amount_in });
            plan.push(TokenInstruction::TransferFromVault { side: Side::Y, amount: amount_out });
        } else {
            plan.push(TokenInstruction::TransferToVault { side: Side::Y, amount: amount_in });
            plan.push(TokenInstruction::TransferFromVault { side: Side::X, amount: amount_out });
        }
        assert(plan@ =~= swap_plan(is_x, amount_in, amount_out));
        Ok(plan)
    }
}

} // verus!
