use vstd::prelude::*;
use crate::error::AmmError;
use crate::state::Config;

verus! {

/// The account values that creating a pool reads: the keys of the two mints
/// and the bumps of the configuration address and of the LP mint address.
#[derive(Debug, Clone, Copy)]
pub struct Initialize {
    pub mint_x: [u8; 32],
    pub mint_y: [u8; 32],
    pub config_bump: u8,
    pub lp_bump: u8,
}

impl Initialize {
    /// The configuration of a new pool with the given seed and fee; a fee
    /// above 10000 basis points is refused.
    pub open spec fn spec_config(self, seed: u64, fee: u16) -> Result<Config, AmmError> {
        if fee <= 10000 {
            Ok(Config {
                seed,
                fee,
                mint_x: self.mint_x,
                mint_y: self.mint_y,
                lp_bump: self.lp_bump,
                bump: self.config_bump,
            })
        } else {
            Err(AmmError::InvalidFee)
        }
    }

    /// Creates the configuration of a pool trading `mint_x` for `mint_y` with
    /// a swap fee of `fee` basis points.
    pub fn initialize(&self, seed: u64, fee: u16) -> (r: Result<Config, AmmError>)
        ensures
            r == self.spec_config(seed, fee),
            fee <= 10000 ==> (r matches Ok(c) && {
                &&& c.seed == seed
                &&& c.fee == fee
                &&& c.mint_x == self.mint_x
                &&& c.mint_y == self.mint_y
                &&& c.lp_bump == self.lp_bump
                &&& c.bump == self.config_bump
            }),
            fee > 10000 ==> r == Err::<Config, AmmError>(AmmError::InvalidFee),
    {
        if fee > 10000 {
            return Err(AmmError::InvalidFee);
        }
        Ok(Config {
            seed,
            fee,
            mint_x: self.mint_x,
            mint_y: self.mint_y,
            lp_bump: self.lp_bump,
            bump: self.config_bump,
        })
    }
}

} // verus!
