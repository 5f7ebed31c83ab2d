use vstd::prelude::*;

verus! {

/// The ways an instruction of the pool is refused.
#[derive(Debug, Clone, Copy, PartialEq, Eq, Structural)]
pub enum AmmError {
    InvalidFee,
    ZeroAmount,
    SlippageExceeded,
    PoolEmpty,
    Overflow,
}

impl AmmError {
    /// The message shown to a client for this error.
    pub fn message(&self) -> (m: &'static str)
        ensures
            m@ == match *self {
                AmmError::InvalidFee => "Fee must be between 0 and 10000 basis points"@,
                AmmError::ZeroAmount => "Amount must be greater than zero"@,
                AmmError::SlippageExceeded => "Slippage tolerance exceeded"@,
                AmmError::PoolEmpty => "Pool reserves are zero"@,
                AmmError::Overflow => "Overflow occurred during calculation"@,
            },
    {
        match self {
            AmmError::InvalidFee => "Fee must be between 0 and 10000 basis points",
            AmmError::ZeroAmount => "Amount must be greater than zero",
            AmmError::SlippageExceeded => "Slippage tolerance exceeded",
            AmmError::PoolEmpty => "Pool reserves are zero",
            AmmError::Overflow => "Overflow occurred during calculation",
        }
    }
}

} // verus!
