//! The faults an engine action can report.

use vstd::prelude::*;

verus! {

/// Every way an action of the engine can be refused.
///
/// An action that returns one of these has changed nothing.
#[derive(Clone, Copy, Debug, PartialEq, Eq, Structural)]
pub enum ContractError {
    /// The caller is not the administrator.
    Unauthorized,
    /// The funds sent hold nothing of the wager denomination.
    InvalidFunds,
    /// A parameter is outside its allowed range.
    InvalidInput,
    /// An address is not one that the chain accepts.
    InvalidAddress,
    /// The pot identifier is not one of the five pots, or source and destination coincide.
    InvalidPot,
    /// The player already holds a stake in the destination pot.
    AlreadyAllocated,
    /// There is no stake to move, or a pot would go negative.
    InsufficientFunds,
    /// The player has used up the reallocations of this round.
    ReallocationsLimitReached,
    /// The round has not started yet.
    GameNotStarted,
    /// The round is over.
    GameAlreadyEnded,
    /// The round is still running.
    GameStillActive,
    /// The pot would outgrow the sum of the other four.
    PotLimitReached,
    /// The prize token is given without its collection (or the reverse), or would replace an
    /// unclaimed one.
    InvalidRaffleNft,
    /// The requested start of the next round is not in the future.
    InvalidNextGameStart,
    /// A token transfer was not acknowledged.
    Cw721TokenNotReceived,
    /// An amount left the 128-bit range, or a time left the 64-bit range.
    OverflowError,
    /// A division by zero.
    DivideByZeroError,
    /// The deposit is outside the current bounds, which are reported.
    BidOutOfRange { min: u128, max: u128 },
    /// The balance cannot seed every pot with the configured minimum.
    NotEnoughFundsForNextRound,
    /// An acknowledgment carried an unknown identifier.
    UnknownReply,
}

} // verus!
