//! Audit events.
//!
//! Every successful lifecycle operation appends exactly one event to the
//! ledger's append-only log, after its state change has been applied; a
//! failed call appends nothing.

use vstd::prelude::*;

verus! {

/// A wager was opened: `user` staked `amount` on a round.
#[derive(Clone, Copy, PartialEq, Eq, Debug)]
pub struct BetPlaced {
    pub user: u64,
    pub amount: u64,
}

/// An open wager was cancelled and its stake refunded to `user`.
#[derive(Clone, Copy, PartialEq, Eq, Debug)]
pub struct BetCancelled {
    pub user: u64,
}

/// A revealed wager was settled; `amount` is the net payout (zero on a
/// losing wager).
#[derive(Clone, Copy, PartialEq, Eq, Debug)]
pub struct WinningsClaimed {
    pub user: u64,
    pub amount: u64,
}

/// The authority asked the oracle to resolve a round.
#[derive(Clone, Copy, PartialEq, Eq, Debug)]
pub struct DieRollTriggered {
    pub user: u64,
}

/// The authority withdrew `amount` from the treasury.
#[derive(Clone, Copy, PartialEq, Eq, Debug)]
pub struct TreasuryWithdrawn {
    pub user: u64,
    pub amount: u64,
}

/// The oracle's result reached a round: the die face and the raw
/// randomness it was derived from.
#[derive(Clone, Copy, PartialEq, Eq, Debug)]
pub struct DieRollRevealed {
    pub result: u8,
    pub randomness: [u8; 32],
}

/// One entry of the ledger's append-only audit log.
#[derive(Clone, Copy, PartialEq, Eq, Debug)]
pub enum GameEvent {
    Placed(BetPlaced),
    Cancelled(BetCancelled),
    Claimed(WinningsClaimed),
    RollTriggered(DieRollTriggered),
    Withdrawn(TreasuryWithdrawn),
    Revealed(DieRollRevealed),
}

} // verus!
