//! The ledger's passive records and the treasury's accounting operations.
//!
//! Identities (players, the authority, oracle randomness requests) are
//! compared for equality only, so they are carried as plain `u64` keys.
//! A round's address is its index in the ledger's round table, and a
//! wager's address is its slot index in the ledger's wager table.

use vstd::prelude::*;

use crate::errors::ErrorCode;

verus! {

/// Smallest stake a wager may carry.
pub const MIN_BET_LAMPORTS: u64 = 1_000_000;

/// Largest stake a wager may carry.
pub const MAX_BET_LAMPORTS: u64 = 100_000_000;

/// Smallest pot a round must have gathered before the authority may spend
/// an oracle request on resolving it; also the treasury's reserve floor
/// for authority withdrawals.
pub const MIN_POT_FOR_ROLL_LAMPORTS: u64 = 100_000_000;

/// The singleton configuration, written once at initialization and read by
/// every authority-gated operation.
#[derive(Clone, Copy, PartialEq, Eq, Debug)]
pub struct GlobalState {
    /// The identity allowed to create rounds, trigger rolls and withdraw.
    pub authority: u64,
    /// The address of the treasury record.
    pub treasury_pda: u64,
    /// Derivation bump of the treasury record.
    pub treasury_bump: u8,
    /// Derivation bump of this configuration record.
    pub bump: u8,
}

/// The pooled fund backing all payouts. Its only logical field is the
/// balance; solvency over outstanding wagers is the ledger's invariant.
#[derive(Clone, Copy, PartialEq, Eq, Debug)]
pub struct TreasuryAccount {
    pub balance: u64,
}

/// One die-roll event. `result` is set if and only if `revealed` is true,
/// and `total_bets_amount` only grows, and only while the round is open.
#[derive(Clone, Copy, PartialEq, Eq, Debug)]
pub struct RollState {
    /// The oracle randomness request this round is bound to.
    pub randomness_account: u64,
    /// Whether the oracle's result has been consumed.
    pub revealed: bool,
    /// The die face, 1 through 6, fixed by the single reveal.
    pub result: Option<u8>,
    /// Cumulative amount ever wagered on this round.
    pub total_bets_amount: u64,
    /// Derivation bump of this round record.
    pub bump: u8,
}

/// One player's stake on one round. At most one live wager exists per
/// (player, round) pair; `claimed` moves false to true exactly once.
#[derive(Clone, Copy, PartialEq, Eq, Debug)]
pub struct BetState {
    /// The player who staked.
    pub player: u64,
    /// Index of the round this wager targets.
    pub roll: usize,
    /// The staked amount.
    pub amount: u64,
    /// The guessed die face, 1 through 6.
    pub guess: u8,
    /// Whether the wager's outcome was already settled.
    pub claimed: bool,
    /// Derivation bump of this wager record.
    pub bump: u8,
}

/// A guess or an oracle result must name a die face.
pub open spec fn valid_guess(g: u8) -> bool {
    1 <= g <= 6
}

/// A well-formed round: the result is present exactly when revealed, and
/// names a die face.
pub open spec fn valid_round(r: RollState) -> bool {
    &&& r.result is Some <==> r.revealed
    &&& r.result matches Some(v) ==> valid_guess(v)
}

/// A well-formed wager against a table of `n_rounds` rounds.
pub open spec fn valid_bet(b: BetState, n_rounds: int) -> bool {
    &&& b.roll < n_rounds
    &&& valid_guess(b.guess)
    &&& MIN_BET_LAMPORTS <= b.amount <= MAX_BET_LAMPORTS
}

/// The net payout owed on a winning wager of stake `stake`.
///
/// The hosting design leaves the odds to configuration. This ledger fixes
/// the commission at the whole of the five-to-one winnings, so the net
/// payout is exactly the stake: the smallest payout the rules allow, and
/// the only one under which the deposits themselves cover every revealed
/// exposure without house seed money.
pub open spec fn win_payout(stake: u64) -> u64 {
    stake
}

impl TreasuryAccount {
    /// Accept a deposit. Succeeds exactly when the balance does not
    /// overflow; a failed call leaves the balance unchanged.
    pub fn deposit(&mut self, amount: u64) -> (r: Result<(), ErrorCode>)
        ensures
            r is Ok <==> old(self).balance + amount <= u64::MAX,
            r is Ok ==> final(self).balance == old(self).balance + amount,
            r is Err ==> r == Err::<(), ErrorCode>(ErrorCode::MathOverflow)
                && final(self).balance == old(self).balance,
    {
        match self.balance.checked_add(amount) {
            Some(b) => {
                self.balance = b;
                Ok(())
            },
            None => Err(ErrorCode::MathOverflow),
        }
    }

    /// Pay out `amount` for a settled wager. Succeeds exactly when the
    /// balance covers it; a failed call leaves the balance unchanged.
    pub fn withdraw_for_payout(&mut self, amount: u64) -> (r: Result<(), ErrorCode>)
        ensures
            r is Ok <==> amount <= old(self).balance,
            r is Ok ==> final(self).balance == old(self).balance - amount,
            r is Err ==> r == Err::<(), ErrorCode>(ErrorCode::InsufficientTreasury)
                && final(self).balance == old(self).balance,
    {
        match self.balance.checked_sub(amount) {
            Some(b) => {
                self.balance = b;
                Ok(())
            },
            None => Err(ErrorCode::InsufficientTreasury),
        }
    }

    /// Withdraw `amount` on the authority's behalf, refusing any call that
    /// is not from `authority` or that would leave the balance below
    /// `reserve_floor`. A failed call leaves the balance unchanged.
    pub fn authority_withdraw(
        &mut self,
        caller: u64,
        authority: u64,
        amount: u64,
        reserve_floor: u64,
    ) -> (r: Result<(), ErrorCode>)
        ensures
            caller != authority ==> r == Err::<(), ErrorCode>(ErrorCode::UnauthorizedWithdraw),
            caller == authority && (old(self).balance < amount
                || old(self).balance - amount < reserve_floor) ==> r == Err::<(), ErrorCode>(
                ErrorCode::InsufficientTreasuryForWithdrawal,
            ),
            r is Ok <==> caller == authority && old(self).balance >= amount && old(self).balance
                - amount >= reserve_floor,
            r is Ok ==> final(self).balance == old(self).balance - amount,
            r is Err ==> final(self).balance == old(self).balance,
    {
        if caller != authority {
            return Err(ErrorCode::UnauthorizedWithdraw);
        }
        match self.balance.checked_sub(amount) {
            Some(remaining) => {
                if remaining < reserve_floor {
                    Err(ErrorCode::InsufficientTreasuryForWithdrawal)
                } else {
                    self.balance = remaining;
                    Ok(())
                }
            },
            None => Err(ErrorCode::InsufficientTreasuryForWithdrawal),
        }
    }
}

} // verus!
