//! The ledger's cross-operation guarantees, stated and proved over the
//! transition predicates of `ledger`.
//!
//! Each lemma here is a law of the whole system rather than of one call:
//! what two calls in a row must do, or what every reachable state owes.

use vstd::prelude::*;

use crate::accounts::{valid_guess, MAX_BET_LAMPORTS, MIN_BET_LAMPORTS, MIN_POT_FOR_ROLL_LAMPORTS};
use crate::errors::ErrorCode;
use crate::ledger::{
    claim_error, claim_payout, claim_transition, has_live_bet, lemma_slot_exposure_le_total,
    live_bet_at, place_transition, reveal_transition, slot_exposure, total_exposure, unchanged,
    withdraw_transition, Ledger,
};

verus! {

/// A successful `place_bet` moves exactly the stake: the treasury balance
/// and the round's pot each grow by `amount`, and nothing else in the
/// round table moves; a rejected `place_bet` changes nothing at all.
pub proof fn lemma_place_moves_exact_stake(
    pre: Ledger,
    post: Ledger,
    player: u64,
    round: usize,
    guess: u8,
    amount: u64,
    previous_bet: Option<usize>,
    previous_round: Option<usize>,
    bump: u8,
    r: Result<usize, ErrorCode>,
)
    requires
        round < pre.rounds@.len(),
        place_transition(
            pre,
            post,
            player,
            round,
            guess,
            amount,
            previous_bet,
            previous_round,
            bump,
            r,
        ),
    ensures
        r is Ok ==> post.treasury.balance == pre.treasury.balance + amount
            && post.rounds@[round as int].total_bets_amount == pre.rounds@[
            round as int
        ].total_bets_amount + amount,
        r is Err ==> unchanged(pre, post),
{
}

/// At most one live wager exists for a (player, round) pair: two live
/// slots carrying the same pair are the same slot.
pub proof fn lemma_live_wager_unique(l: Ledger, player: u64, round: usize, i: int, j: int)
    requires
        l.wf(),
        0 <= i < l.bets@.len(),
        0 <= j < l.bets@.len(),
        live_bet_at(l, i, player, round),
        live_bet_at(l, j, player, round),
    ensures
        i == j,
{
}

/// While a player's wager on a round is live and the round open, any
/// second `place_bet` for the same pair — whatever its stake, guess or
/// previous-wager reference — fails with `AlreadyBet` and changes nothing.
pub proof fn lemma_second_place_rejected(
    pre: Ledger,
    post: Ledger,
    player: u64,
    round: usize,
    guess: u8,
    amount: u64,
    previous_bet: Option<usize>,
    previous_round: Option<usize>,
    bump: u8,
    r: Result<usize, ErrorCode>,
)
    requires
        has_live_bet(pre, player, round),
        !pre.rounds@[round as int].revealed,
        valid_guess(guess),
        MIN_BET_LAMPORTS <= amount <= MAX_BET_LAMPORTS,
        place_transition(
            pre,
            post,
            player,
            round,
            guess,
            amount,
            previous_bet,
            previous_round,
            bump,
            r,
        ),
    ensures
        r == Err::<usize, ErrorCode>(ErrorCode::AlreadyBet),
        unchanged(pre, post),
{
}

/// A claim settles exactly once: the first successful `claim` moves the
/// payout exactly once and marks the wager; a second `claim` on the same
/// wager fails with `AlreadyClaimed` and moves nothing.
pub proof fn lemma_claim_settles_once(
    pre: Ledger,
    mid: Ledger,
    post: Ledger,
    bet: usize,
    r1: Result<u64, ErrorCode>,
    r2: Result<u64, ErrorCode>,
)
    requires
        bet < pre.bets@.len(),
        pre.bets@[bet as int] is Some,
        claim_transition(pre, mid, bet, r1),
        r1 is Ok,
        claim_transition(mid, post, bet, r2),
    ensures
        r1 == Ok::<u64, ErrorCode>(claim_payout(pre, bet)),
        mid.treasury.balance == pre.treasury.balance - claim_payout(pre, bet),
        mid.bets@[bet as int]->0.claimed,
        r2 == Err::<u64, ErrorCode>(ErrorCode::AlreadyClaimed),
        unchanged(mid, post),
{
}

/// The solvency invariant owes every claimable payout: on a well-formed
/// ledger, a wager whose round has revealed and which is still unclaimed
/// can always be paid from the treasury.
pub proof fn lemma_solvency_covers_claim(l: Ledger, bet: usize)
    requires
        l.wf(),
        bet < l.bets@.len(),
        l.bets@[bet as int] is Some,
        claim_error(l, bet) is None,
    ensures
        claim_payout(l, bet) <= l.treasury.balance,
{
    lemma_slot_exposure_le_total(l.bets@, l.rounds@, bet as int);
    assert(claim_payout(l, bet) <= slot_exposure(l.bets@[bet as int], l.rounds@));
}

/// A reveal is single-assignment: once a round has consumed one result,
/// every later reveal on it fails with `AlreadySettled`, changes nothing,
/// and the result keeps the value the first reveal fixed.
pub proof fn lemma_reveal_single_assignment(
    pre: Ledger,
    mid: Ledger,
    post: Ledger,
    round: usize,
    result1: u8,
    randomness1: [u8; 32],
    result2: u8,
    randomness2: [u8; 32],
    r2: Result<(), ErrorCode>,
)
    requires
        round < pre.rounds@.len(),
        reveal_transition(pre, mid, round, result1, randomness1, Ok(())),
        reveal_transition(mid, post, round, result2, randomness2, r2),
    ensures
        mid.rounds@[round as int].result == Some(result1),
        r2 == Err::<(), ErrorCode>(ErrorCode::AlreadySettled),
        unchanged(mid, post),
        post.rounds@[round as int].result == Some(result1),
{
}

/// A revealed, unclaimed previous wager blocks a new one: a `place_bet`
/// that passes every earlier check but presents such a wager always fails
/// with `PreviousBetUnclaimed` and changes nothing.
pub proof fn lemma_unclaimed_previous_blocks_place(
    pre: Ledger,
    post: Ledger,
    player: u64,
    round: usize,
    guess: u8,
    amount: u64,
    previous_bet: usize,
    bump: u8,
    r: Result<usize, ErrorCode>,
)
    requires
        valid_guess(guess),
        MIN_BET_LAMPORTS <= amount <= MAX_BET_LAMPORTS,
        !pre.rounds@[round as int].revealed,
        !has_live_bet(pre, player, round),
        previous_bet < pre.bets@.len(),
        pre.bets@[previous_bet as int] is Some,
        pre.bets@[previous_bet as int]->0.player == player,
        pre.rounds@[pre.bets@[previous_bet as int]->0.roll as int].revealed,
        !pre.bets@[previous_bet as int]->0.claimed,
        place_transition(
            pre,
            post,
            player,
            round,
            guess,
            amount,
            Some(previous_bet),
            Some(pre.bets@[previous_bet as int]->0.roll),
            bump,
            r,
        ),
    ensures
        r == Err::<usize, ErrorCode>(ErrorCode::PreviousBetUnclaimed),
        unchanged(pre, post),
{
}

/// Settling unblocks: once the previous wager has been claimed, an
/// otherwise-identical `place_bet` presenting it succeeds.
pub proof fn lemma_claim_unblocks_place(
    pre: Ledger,
    mid: Ledger,
    post: Ledger,
    previous_bet: usize,
    player: u64,
    round: usize,
    guess: u8,
    amount: u64,
    bump: u8,
    r1: Result<u64, ErrorCode>,
    r2: Result<usize, ErrorCode>,
)
    requires
        previous_bet < pre.bets@.len(),
        pre.bets@[previous_bet as int] is Some,
        pre.bets@[previous_bet as int]->0.player == player,
        claim_transition(pre, mid, previous_bet, r1),
        r1 is Ok,
        round < mid.rounds@.len(),
        valid_guess(guess),
        MIN_BET_LAMPORTS <= amount <= MAX_BET_LAMPORTS,
        !mid.rounds@[round as int].revealed,
        !has_live_bet(mid, player, round),
        mid.treasury.balance + amount <= u64::MAX,
        mid.rounds@[round as int].total_bets_amount + amount <= u64::MAX,
        place_transition(
            mid,
            post,
            player,
            round,
            guess,
            amount,
            Some(previous_bet),
            Some(pre.bets@[previous_bet as int]->0.roll),
            bump,
            r2,
        ),
    ensures
        r2 == Ok::<usize, ErrorCode>(mid.bets.len()),
{
    assert(mid.bets@[previous_bet as int]->0.claimed);
    assert(mid.bets@[previous_bet as int]->0.roll == pre.bets@[previous_bet as int]->0.roll);
}

/// The treasury never owes more than it holds: on every well-formed
/// ledger the balance covers the sum of all outstanding wager exposures.
pub proof fn lemma_treasury_covers_exposure(l: Ledger)
    requires
        l.wf(),
    ensures
        l.treasury.balance >= total_exposure(l.bets@, l.rounds@),
{
}

/// An authority withdrawal succeeds only when the remaining balance stays
/// at or above both the reserve floor and the outstanding exposure, and
/// the ledger it leaves is still solvent.
pub proof fn lemma_withdraw_respects_reserve(
    pre: Ledger,
    post: Ledger,
    caller: u64,
    amount: u64,
    r: Result<(), ErrorCode>,
)
    requires
        pre.wf(),
        withdraw_transition(pre, post, caller, amount, r),
        r is Ok,
    ensures
        pre.treasury.balance - amount >= MIN_POT_FOR_ROLL_LAMPORTS,
        pre.treasury.balance - amount >= total_exposure(pre.bets@, pre.rounds@),
        post.treasury.balance >= total_exposure(post.bets@, post.rounds@),
{
}

} // verus!
