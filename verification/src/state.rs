use vstd::prelude::*;

verus! {

/// The byte string that starts the seeds of a pool's configuration address.
pub open spec fn pool_seed_prefix() -> Seq<u8> {
    seq![97u8, 109u8, 109u8]
}

/// The stored configuration of one pool.
///
/// Account keys are held as their 32 bytes.
#[derive(Debug, Clone, Copy)]
pub struct Config {
    pub seed: u64,
    /// Swap fee in basis points (300 is 3%).
    pub fee: u16,
    pub mint_x: [u8; 32],
    pub mint_y: [u8; 32],
    pub lp_bump: u8,
    pub bump: u8,
}

impl Config {
    /// Bytes an account holding a `Config` takes: the 8-byte account
    /// discriminator and then each field in order.
    pub const LEN: usize = 8 + 8 + 2 + 32 + 32 + 1 + 1;

    /// The seeds with which the pool's configuration address signs for its
    /// vaults and its LP mint: the prefix "amm", both mint keys, the pool seed
    /// in little-endian bytes and the address bump.
    pub open spec fn spec_signer_seeds(self) -> Seq<Seq<u8>> {
        seq![
            pool_seed_prefix(),
            self.mint_x@,
            self.mint_y@,
            vstd::bytes::spec_u64_to_le_bytes(self.seed),
            seq![self.bump],
        ]
    }

    pub fn signer_seeds(&self) -> (seeds: Vec<Vec<u8>>)
        ensures
            seeds@.len() == 5,
            forall|i: int| 0 <= i < 5 ==> #[trigger] seeds@[i]@ == self.spec_signer_seeds()[i],
    {
        let mut prefix: Vec<u8> = Vec::new();
        prefix.push(97u8);
        prefix.push(109u8);
        prefix.push(109u8);
        let mx = key_bytes(&self.mint_x);
        let my = key_bytes(&self.mint_y);
        let sd = vstd::bytes::u64_to_le_bytes(self.seed);
        let mut bump: Vec<u8> = Vec::new();
        bump.push(self.bump);
        let mut seeds: Vec<Vec<u8>> = Vec::new();
        seeds.push(prefix);
        seeds.push(mx);
        seeds.push(my);
        seeds.push(sd);
        seeds.push(bump);
        assert(seeds@[0]@ =~= pool_seed_prefix());
        assert(seeds@[4]@ =~= seq![self.bump]);
        seeds
    }
}

/// The bytes of an account key, in order.
pub fn key_bytes(key: &[u8; 32]) -> (v: Vec<u8>)
    ensures
        v@ == key@,
{
    let mut v: Vec<u8> = Vec::new();
    for i in 0..32usize
        invariant
            v@ =~= key@.subrange(0, i as int),
            key@.len() == 32,
    {
        v.push(key[i]);
    }
    v
}


/// One of the two tokens the pool trades.
#[derive(Debug, Clone, Copy, PartialEq, Eq, Structural)]
pub enum Side {
    X,
    Y,
}

/// A call into the token program that an instruction of the pool makes once
/// its checks have passed, in the order given.
#[derive(Debug, Clone, Copy, PartialEq, Eq, Structural)]
pub enum TokenInstruction {
    /// Move `amount` of token `side` from the user's account into the pool's
    /// vault, signed by the user.
    TransferToVault { side: Side, amount: u64 },
    /// Move `amount` of token `side` from the pool's vault to the user's
    /// account, signed by the pool's configuration address.
    TransferFromVault { side: Side, amount: u64 },
    /// Mint `amount` LP tokens to the user, signed by the pool's
    /// configuration address.
    MintLp { amount: u64 },
    /// Burn `amount` LP tokens from the user's account, signed by the user.
    BurnLp { amount: u64 },
}

/// What the pool holds: the two vault balances and the LP token supply.
pub struct Balances {
    pub x: int,
    pub y: int,
    pub lp: int,
}

/// The pool's holdings once the token program has carried out `ins`.
pub open spec fn apply_instruction(b: Balances, ins: TokenInstruction) -> Balances {
    match ins {
        TokenInstruction::TransferToVault { side: Side::X, amount } => Balances { x: b.x + amount, ..b },
        TokenInstruction::TransferToVault { side: Side::Y, amount } => Balances { y: b.y + amount, ..b },
        TokenInstruction::TransferFromVault { side: Side::X, amount } => Balances { x: b.x - amount, ..b },
        TokenInstruction::TransferFromVault { side: Side::Y, amount } => Balances { y: b.y - amount, ..b },
        TokenInstruction::MintLp { amount } => Balances { lp: b.lp + amount, ..b },
        TokenInstruction::BurnLp { amount } => Balances { lp: b.lp - amount, ..b },
    }
}

/// The pool's holdings once every instruction of `plan` is carried out in order.
pub open spec fn apply_plan(b: Balances, plan: Seq<TokenInstruction>) -> Balances
    decreases plan.len(),
{
    if plan.len() == 0 {
        b
    } else {
        apply_plan(apply_instruction(b, plan[0]), plan.drop_first())
    }
}

} // verus!
