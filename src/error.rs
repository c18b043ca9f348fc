use vstd::prelude::*;

verus! {

/// Every way an operation of the pool can fail.
#[derive(Clone, Copy, Debug, PartialEq, Eq, Structural)]
pub enum AmmError {
    InvalidVestingPeriod,
    NumericOverflow,
    InsufficientLiquidity,
    VestingNotFinished,
    AlreadyClaimed,
    SlippageExceeded,
    Unauthorized,
    Paused,
    NotRentExempt,
    InvalidTokenAccountOwner,
    InvalidFeeSplit,
    SlotTooLow,
    InvalidPenalty,
    InsufficientVestedAmount,
}

impl AmmError {
    /// The human-readable message of the error.
    pub fn message(&self) -> &'static str {
        match self {
            AmmError::InvalidVestingPeriod => "Vesting period must be between min and max allowed seconds",
            AmmError::NumericOverflow => "Numeric overflow",
            AmmError::InsufficientLiquidity => "Insufficient liquidity",
            AmmError::VestingNotFinished => "Vesting not finished yet",
            AmmError::AlreadyClaimed => "Already claimed",
            AmmError::SlippageExceeded => "Slippage exceeded",
            AmmError::Unauthorized => "Unauthorized",
            AmmError::Paused => "Paused",
            AmmError::NotRentExempt => "Not rent exempt",
            AmmError::InvalidTokenAccountOwner => "Invalid token account owner",
            AmmError::InvalidFeeSplit => "Invalid fee split",
            AmmError::SlotTooLow => "Slot too low (anti front-run)",
            AmmError::InvalidPenalty => "Invalid penalty",
            AmmError::InsufficientVestedAmount => "Insufficient vested amount",
        }
    }
}

} // verus!
