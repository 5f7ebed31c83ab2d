use vstd::prelude::*;
use crate::error::AmmError;
use crate::math::{lemma_div_bounds, lemma_div_at_most, lemma_le_quotient_iff, lemma_mul_le};
use crate::state::{Balances, Side, TokenInstruction};

verus! {

/// `r` is the integer square root of `n`: the largest `r` with `r * r <= n`.
pub open spec fn is_floor_sqrt(n: int, r: int) -> bool {
    &&& 0 <= r
    &&& r * r <= n
    &&& n < (r + 1) * (r + 1)
}

/// The integer square root of a non-negative `n`.
pub open spec fn floor_sqrt(n: int) -> int {
    choose|r: int| is_floor_sqrt(n, r)
}

proof fn lemma_floor_sqrt_exists(n: int)
    requires
        n >= 0,
    ensures
        exists|r: int| is_floor_sqrt(n, r),
    decreases n,
{
    if n == 0 {
        assert(is_floor_sqrt(0, 0));
    } else {
        let m = n - 1;
        lemma_floor_sqrt_exists(m);
        let r = choose|r: int| is_floor_sqrt(m, r);
        if (r + 1) * (r + 1) <= n {
            assert(is_floor_sqrt(n, r + 1)) by (nonlinear_arith)
                requires
                    r >= 0,
                    (r + 1) * (r + 1) <= n,
                    n - 1 < (r + 1) * (r + 1),
            {}
        } else {
            assert(is_floor_sqrt(n, r));
        }
    }
}

/// Only one integer is the square root of `n`.
pub proof fn lemma_floor_sqrt_unique(n: int, a: int, b: int)
    requires
        is_floor_sqrt(n, a),
        is_floor_sqrt(n, b),
    ensures
        a == b,
{
    if a < b {
        lemma_mul_le(a + 1, a + 1, b, b);
    } else if b < a {
        lemma_mul_le(b + 1, b + 1, a, a);
    }
}

/// `floor_sqrt` is the square root, and any square root equals it.
pub proof fn lemma_floor_sqrt(n: int, r: int)
    requires
        n >= 0,
    ensures
        is_floor_sqrt(n, floor_sqrt(n)),
        is_floor_sqrt(n, r) ==> r == floor_sqrt(n),
{
    lemma_floor_sqrt_exists(n);
    if is_floor_sqrt(n, r) {
        lemma_floor_sqrt_unique(n, r, floor_sqrt(n));
    }
}

/// The square of an integer.
pub open spec fn square(r: int) -> int {
    r * r
}

/// `x` is at least every non-negative integer whose square is at most `n`.
pub open spec fn bounds_root(n: int, x: int) -> bool {
    forall|r: int| 0 <= r && #[trigger] square(r) <= n ==> r <= x
}

/// One Newton step from any positive guess lands at or above every `r`
/// whose square is at most `n`.
proof fn lemma_newton_step_stays_above(n: int, x: int, r: int)
    requires
        n >= 0,
        x >= 1,
        r >= 0,
        r * r <= n,
    ensures
        r <= (x + n / x) / 2,
{
    lemma_div_bounds(n, x);
    let q = n / x;
    if x + q < 2 * r {
        assert(false) by (nonlinear_arith)
            requires
                x >= 1,
                q + 1 <= 2 * r - x,
                n < x * q + x,
                r * r <= n,
        {
            assert(x * (q + 1) <= x * (2 * r - x));
            assert(x * (2 * r - x) <= r * r);
        }
    }
}

/// For a guess between 1 and `n`, the Newton sum does not pass `n + 1`.
proof fn lemma_newton_sum_bounded(n: int, x: int)
    requires
        1 <= x <= n,
    ensures
        x + n / x <= n + 1,
{
    assert(n <= x * (n + 1 - x)) by (nonlinear_arith)
        requires
            1 <= x <= n,
    {
        assert((x - 1) * (n - x) >= 0);
    }
    lemma_div_at_most(n, x, n + 1 - x);
}

/// Integer square root by Newton's method.
pub fn isqrt(n: u128) -> (r: Option<u128>)
    requires
        n < u128::MAX,
    ensures
        r matches Some(s) && is_floor_sqrt(n as int, s as int) && s == floor_sqrt(n as int),
{
    if n == 0 {
        assert(is_floor_sqrt(0, 0));
        proof {
            lemma_floor_sqrt(0int, 0int);
        }
        return Some(0);
    }
    let mut x = n;
    let mut y = (x + 1) / 2;
    proof {
        lemma_div_bounds(n as int, n as int);
        assert(n as int / n as int == 1) by {
            vstd::arithmetic::div_mod::lemma_div_by_self(n as int);
        }
        assert forall|r: int| 0 <= r && #[trigger] square(r) <= n implies r <= y by {
            lemma_newton_step_stays_above(n as int, n as int, r);
        }
        assert forall|r: int| 0 <= r && #[trigger] square(r) <= n implies r <= x by {
            if r > x {
                assert(r * r > n) by (nonlinear_arith)
                    requires
                        r > x,
                        x == n,
                        n >= 1,
                {}
            }
        }
    }
    while y < x
        invariant
            1 <= x <= n,
            n < u128::MAX,
            y == (x + n / x) / 2,
            bounds_root(n as int, x as int),
            bounds_root(n as int, y as int),
        decreases x,
    {
        x = y;
        proof {
            assert(square(1) <= n);
            assert(1 <= x);
            lemma_newton_sum_bounded(n as int, x as int);
            assert forall|r: int| 0 <= r && #[trigger] square(r) <= n implies r <= (x + n / x) / 2 by {
                lemma_newton_step_stays_above(n as int, x as int, r);
            }
        }
        y = (x + n / x) / 2;
    }
    proof {
        lemma_div_bounds(n as int, x as int);
        let q = n as int / x as int;
        assert(x <= q);
        assert(x * x <= n) by (nonlinear_arith)
            requires
                x <= q,
                x >= 1,
                x * q <= n,
        {}
        if (x + 1) * (x + 1) <= n {
            assert(square(x + 1) <= n);
            assert(x + 1 <= x);
        }
        lemma_floor_sqrt(n as int, x as int);
    }
    Some(x)
}

/// The account values that a deposit reads: the LP token supply and the two
/// vault balances.
#[derive(Debug, Clone, Copy)]
pub struct Deposit {
    pub lp_supply: u64,
    pub vault_x_amount: u64,
    pub vault_y_amount: u64,
}

/// The token calls of a deposit: both tokens into the vaults, then the LP
/// tokens minted to the depositor.
pub open spec fn deposit_plan(amount_x: u64, amount_y: u64, lp: u64) -> Seq<TokenInstruction> {
    seq![
        TokenInstruction::TransferToVault { side: Side::X, amount: amount_x },
        TokenInstruction::TransferToVault { side: Side::Y, amount: amount_y },
        TokenInstruction::MintLp { amount: lp },
    ]
}

impl Deposit {
    pub open spec fn balances(self) -> Balances {
        Balances { x: self.vault_x_amount as int, y: self.vault_y_amount as int, lp: self.lp_supply as int }
    }

    /// LP tokens for depositing `amount_x` and `amount_y`. The first deposit
    /// (no LP supply yet) gets `sqrt(amount_x * amount_y)`; later ones get
    /// the smaller of the two proportional shares
    /// `amount * lp_supply / vault`. An empty vault beside a positive supply,
    /// or a share too large for 64 bits, is refused with `Overflow`.
    pub open spec fn lp_to_mint(self, amount_x: u64, amount_y: u64) -> Result<u64, AmmError> {
        if self.lp_supply == 0 {
            Ok(floor_sqrt(amount_x * amount_y) as u64)
        } else if self.vault_x_amount == 0 || self.vault_y_amount == 0 {
            Err(AmmError::Overflow)
        } else {
            let from_x = amount_x * self.lp_supply / (self.vault_x_amount as int);
            let from_y = amount_y * self.lp_supply / (self.vault_y_amount as int);
            let smaller = if from_x <= from_y { from_x } else { from_y };
            if smaller <= u64::MAX {
                Ok(smaller as u64)
            } else {
                Err(AmmError::Overflow)
            }
        }
    }

    /// The outcome of a deposit: the LP tokens minted, or why it is refused.
    pub open spec fn quote(self, amount_x: u64, amount_y: u64, min_lp: u64) -> Result<u64, AmmError> {
        if amount_x == 0 || amount_y == 0 {
            Err(AmmError::ZeroAmount)
        } else {
            match self.lp_to_mint(amount_x, amount_y) {
                Err(e) => Err(e),
                Ok(lp) => if lp >= min_lp { Ok(lp) } else { Err(AmmError::SlippageExceeded) },
            }
        }
    }

    /// A later deposit's LP tokens are at most its contribution's share of
    /// either vault (`lp / lp_supply <= amount / vault`), and one more LP
    /// token would pass one of the two shares.
    pub proof fn lemma_lp_share(self, amount_x: u64, amount_y: u64)
        requires
            self.lp_supply > 0,
            self.lp_to_mint(amount_x, amount_y) is Ok,
        ensures
            self.lp_to_mint(amount_x, amount_y) matches Ok(lp) && {
                &&& lp * self.vault_x_amount <= amount_x * self.lp_supply
                &&& lp * self.vault_y_amount <= amount_y * self.lp_supply
                &&& (lp + 1) * self.vault_x_amount > amount_x * self.lp_supply
                    || (lp + 1) * self.vault_y_amount > amount_y * self.lp_supply
            },
    {
        let vx = self.vault_x_amount as int;
        let vy = self.vault_y_amount as int;
        let sx = amount_x * self.lp_supply;
        let sy = amount_y * self.lp_supply;
        lemma_mul_le(amount_x as int, self.lp_supply as int, u64::MAX as int, u64::MAX as int);
        lemma_mul_le(amount_y as int, self.lp_supply as int, u64::MAX as int, u64::MAX as int);
        lemma_div_bounds(sx, vx);
        lemma_div_bounds(sy, vy);
        let from_x = sx / vx;
        let from_y = sy / vy;
        let lp = if from_x <= from_y { from_x } else { from_y };
        lemma_mul_le(lp, vx, from_x, vx);
        lemma_mul_le(lp, vy, from_y, vy);
        assert(from_x * vx <= sx && from_y * vy <= sy) by (nonlinear_arith)
            requires
                vx * from_x <= sx,
                vy * from_y <= sy,
        {}
        lemma_le_quotient_iff(sx, vx, lp + 1);
        lemma_le_quotient_iff(sy, vy, lp + 1);
    }

    /// Adds `amount_x` and `amount_y` to the pool and mints LP tokens to the
    /// depositor; refused when the LP tokens would be fewer than `min_lp`.
    ///
    /// Returns the token calls to make, in order. A later deposit mints the
    /// most LP tokens that stay within both tokens' shares of their vaults.
    pub fn deposit(&self, amount_x: u64, amount_y: u64, min_lp: u64) -> (r: Result<Vec<TokenInstruction>, AmmError>)
        ensures
            match r {
                Ok(plan) => self.quote(amount_x, amount_y, min_lp) matches Ok(lp)
                    && plan@ == deposit_plan(amount_x, amount_y, lp),
                Err(e) => self.quote(amount_x, amount_y, min_lp) == Err::<u64, AmmError>(e),
            },
            self.quote(amount_x, amount_y, min_lp) matches Ok(lp) ==> {
                &&& self.lp_supply == 0 ==> is_floor_sqrt(amount_x * amount_y, lp as int)
                &&& self.lp_supply > 0 ==> lp * self.vault_x_amount <= amount_x * self.lp_supply
                &&& self.lp_supply > 0 ==> lp * self.vault_y_amount <= amount_y * self.lp_supply
                &&& self.lp_supply > 0 ==> (lp + 1) * self.vault_x_amount > amount_x * self.lp_supply
                    || (lp + 1) * self.vault_y_amount > amount_y * self.lp_supply
            },
    {
        if !(amount_x > 0 && amount_y > 0) {
            return Err(AmmError::ZeroAmount);
        }
        let lp_supply = self.lp_supply;
        let vault_x_amount = self.vault_x_amount;
        let vault_y_amount = self.vault_y_amount;
        let lp_to_mint: u64 = if lp_supply == 0 {
            proof {
                lemma_mul_le(amount_x as int, amount_y as int, u64::MAX as int, u64::MAX as int);
            }
            let product: u128 = match (amount_x as u128).checked_mul(amount_y as u128) {
                Some(v) => v,
                None => return Err(AmmError::Overflow),
            };
            let root: u128 = match isqrt(product) {
                Some(v) => v,
                None => return Err(AmmError::Overflow),
            };
            proof {
                lemma_floor_sqrt(product as int, root as int);
                if root > u64::MAX {
                    lemma_mul_le(u64::MAX as int + 1, u64::MAX as int + 1, root as int, root as int);
                }
            }
            root as u64
        } else {
            proof {
                lemma_mul_le(amount_x as int, lp_supply as int, u64::MAX as int, u64::MAX as int);
                lemma_mul_le(amount_y as int, lp_supply as int, u64::MAX as int, u64::MAX as int);
            }
            let scaled_x: u128 = match (amount_x as u128).checked_mul(lp_supply as u128) {
                Some(v) => v,
                None => return Err(AmmError::Overflow),
            };
            let lp_from_x: u128 = match scaled_x.checked_div(vault_x_amount as u128) {
                Some(v) => v,
                None => return Err(AmmError::Overflow),
            };
            let scaled_y: u128 = match (amount_y as u128).checked_mul(lp_supply as u128) {
                Some(v) => v,
                None => return Err(AmmError::Overflow),
            };
            let lp_from_y: u128 = match scaled_y.checked_div(vault_y_amount as u128) {
                Some(v) => v,
                None => return Err(AmmError::Overflow),
            };
            let smaller: u128 = if lp_from_x <= lp_from_y { lp_from_x } else { lp_from_y };
            if smaller > u64::MAX as u128 {
                return Err(AmmError::Overflow);
            }
            proof {
                self.lemma_lp_share(amount_x, amount_y);
            }
            smaller as u64
        };
        if lp_to_mint < min_lp {
            return Err(AmmError::SlippageExceeded);
        }
        let mut plan: Vec<TokenInstruction> = Vec::new();
        plan.push(TokenInstruction::TransferToVault { side: Side::X, amount: amount_x });
        plan.push(TokenInstruction::TransferToVault { side: Side::Y, amount: amount_y });
        plan.push(TokenInstruction::MintLp { amount: lp_to_mint });
        assert(plan@ =~= deposit_plan(amount_x, amount_y, lp_to_mint));
        Ok(plan)
    }
}

} // verus!
