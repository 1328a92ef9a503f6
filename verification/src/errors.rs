//! The error vocabulary of the ledger.
//!
//! Every operation reports a failure through one of these kinds and leaves
//! all records unchanged; no failure is ever surfaced as a panic.

use vstd::prelude::*;

verus! {

/// Why a ledger operation was refused.
#[derive(Clone, Copy, PartialEq, Eq, Debug)]
pub enum ErrorCode {
    /// The guessed die face is outside the range 1 through 6.
    InvalidGuess,
    /// The staked amount exceeds the configured maximum wager.
    BetTooLarge,
    /// The staked amount is below the configured minimum wager.
    BetTooSmall,
    /// The player already has an open wager on this round.
    AlreadyBet,
    /// The wager cannot be cancelled: its round has already been revealed.
    RollAlreadySettled,
    /// The player's previous wager was revealed but never claimed; it must
    /// be settled before a new wager may be opened.
    PreviousBetUnclaimed,
    /// The supplied previous wager does not belong to the calling player.
    PreviousBetDoesNotBelongToPlayer,
    /// The supplied previous round does not match the previous wager's
    /// round, or was not supplied at all.
    InvalidPreviousRollAccount,
    /// The wager's outcome was already claimed.
    AlreadyClaimed,
    /// The wager's round has not been revealed yet.
    RollNotSettled,
    /// The round was already revealed.
    AlreadySettled,
    /// The oracle has not resolved the randomness for this round.
    RandomnessNotResolved,
    /// The round's pot is too small to spend an oracle request on.
    InsufficientTreasuryForRoll,
    /// The treasury balance cannot cover the requested payout.
    InsufficientTreasury,
    /// The caller is not the configured authority for a withdrawal.
    UnauthorizedWithdraw,
    /// The withdrawal would leave the treasury below the reserve floor or
    /// below the outstanding wager exposure.
    InsufficientTreasuryForWithdrawal,
    /// The caller is not the configured authority.
    Unauthorized,
    /// A checked addition would exceed the numeric range of a balance.
    MathOverflow,
    /// A checked subtraction would fall below zero.
    MathUnderflow,
}

} // verus!
