//! The ledger: the shared state every operation acts on, its invariant,
//! and the lifecycle operations themselves.
//!
//! Each operation is specified by a transition predicate relating the
//! ledger before the call, the ledger after it, and the returned value.
//! The predicates pin both down completely: which error comes on which
//! input, and exactly what a success changes.

use vstd::prelude::*;

use crate::accounts::{
    valid_bet, valid_guess, valid_round, win_payout, BetState, GlobalState, RollState,
    TreasuryAccount, MAX_BET_LAMPORTS, MIN_BET_LAMPORTS, MIN_POT_FOR_ROLL_LAMPORTS,
};
use crate::errors::ErrorCode;
use crate::events::{
    BetCancelled, BetPlaced, DieRollRevealed, DieRollTriggered, GameEvent, TreasuryWithdrawn,
    WinningsClaimed,
};

verus! {

/// The whole wagering state: the singleton configuration, the treasury,
/// every round ever created, every wager slot ever occupied, and the
/// append-only audit log.
pub struct Ledger {
    pub config: GlobalState,
    pub treasury: TreasuryAccount,
    pub rounds: Vec<RollState>,
    /// Wager slots; a cancelled wager leaves `None` behind, so that the
    /// same (player, round) pair may wager again.
    pub bets: Vec<Option<BetState>>,
    pub events: Vec<GameEvent>,
}

/// What a wager slot may still force the treasury to pay: the stake while
/// its round is open (refundable by cancellation), the payout of a
/// revealed, winning, still unclaimed wager, and nothing otherwise.
pub open spec fn slot_exposure(slot: Option<BetState>, rounds: Seq<RollState>) -> int {
    match slot {
        None => 0,
        Some(b) => {
            if !(0 <= b.roll < rounds.len()) {
                0
            } else if !rounds[b.roll as int].revealed {
                b.amount as int
            } else if !b.claimed && rounds[b.roll as int].result == Some(b.guess) {
                win_payout(b.amount) as int
            } else {
                0
            }
        },
    }
}

/// The treasury's outstanding exposure: the sum of every slot's exposure.
pub open spec fn total_exposure(bets: Seq<Option<BetState>>, rounds: Seq<RollState>) -> int
    decreases bets.len(),
{
    if bets.len() == 0 {
        0
    } else {
        total_exposure(bets.drop_last(), rounds) + slot_exposure(bets.last(), rounds)
    }
}

proof fn lemma_total_exposure_nonneg(bets: Seq<Option<BetState>>, rounds: Seq<RollState>)
    ensures
        total_exposure(bets, rounds) >= 0,
    decreases bets.len(),
{
    if bets.len() > 0 {
        lemma_total_exposure_nonneg(bets.drop_last(), rounds);
    }
}

proof fn lemma_total_exposure_push(
    bets: Seq<Option<BetState>>,
    rounds: Seq<RollState>,
    s: Option<BetState>,
)
    ensures
        total_exposure(bets.push(s), rounds) == total_exposure(bets, rounds) + slot_exposure(
            s,
            rounds,
        ),
{
    assert(bets.push(s).drop_last() =~= bets);
    assert(bets.push(s).last() == s);
}

proof fn lemma_total_exposure_update(
    bets: Seq<Option<BetState>>,
    rounds: Seq<RollState>,
    i: int,
    s: Option<BetState>,
)
    requires
        0 <= i < bets.len(),
    ensures
        total_exposure(bets.update(i, s), rounds) == total_exposure(bets, rounds) - slot_exposure(
            bets[i],
            rounds,
        ) + slot_exposure(s, rounds),
    decreases bets.len(),
{
    if i == bets.len() - 1 {
        assert(bets.update(i, s).drop_last() =~= bets.drop_last());
        assert(bets.update(i, s).last() == s);
    } else {
        assert(bets.update(i, s).drop_last() =~= bets.drop_last().update(i, s));
        assert(bets.update(i, s).last() == bets.last());
        lemma_total_exposure_update(bets.drop_last(), rounds, i, s);
        assert(bets.drop_last()[i] == bets[i]);
    }
}

/// Two round tables under which every slot is exposed alike give the same
/// total exposure.
proof fn lemma_total_exposure_congruent(
    bets: Seq<Option<BetState>>,
    r1: Seq<RollState>,
    r2: Seq<RollState>,
)
    requires
        forall|i: int|
            0 <= i < bets.len() ==> slot_exposure(#[trigger] bets[i], r1) == slot_exposure(
                bets[i],
                r2,
            ),
    ensures
        total_exposure(bets, r1) == total_exposure(bets, r2),
    decreases bets.len(),
{
    if bets.len() > 0 {
        assert forall|i: int| 0 <= i < bets.drop_last().len() implies slot_exposure(
            #[trigger] bets.drop_last()[i],
            r1,
        ) == slot_exposure(bets.drop_last()[i], r2) by {
            assert(bets.drop_last()[i] == bets[i]);
        }
        lemma_total_exposure_congruent(bets.drop_last(), r1, r2);
        assert(bets.last() == bets[bets.len() - 1]);
    }
}

/// A round table under which every slot is exposed no more than before
/// gives a total exposure no larger than before.
proof fn lemma_total_exposure_pointwise_le(
    bets: Seq<Option<BetState>>,
    r1: Seq<RollState>,
    r2: Seq<RollState>,
)
    requires
        forall|i: int|
            0 <= i < bets.len() ==> slot_exposure(#[trigger] bets[i], r2) <= slot_exposure(
                bets[i],
                r1,
            ),
    ensures
        total_exposure(bets, r2) <= total_exposure(bets, r1),
    decreases bets.len(),
{
    if bets.len() > 0 {
        assert forall|i: int| 0 <= i < bets.drop_last().len() implies slot_exposure(
            #[trigger] bets.drop_last()[i],
            r2,
        ) <= slot_exposure(bets.drop_last()[i], r1) by {
            assert(bets.drop_last()[i] == bets[i]);
        }
        lemma_total_exposure_pointwise_le(bets.drop_last(), r1, r2);
        assert(bets.last() == bets[bets.len() - 1]);
    }
}

/// A single slot's exposure never exceeds the total exposure.
pub(crate) proof fn lemma_slot_exposure_le_total(bets: Seq<Option<BetState>>, rounds: Seq<RollState>, i: int)
    requires
        0 <= i < bets.len(),
    ensures
        slot_exposure(bets[i], rounds) <= total_exposure(bets, rounds),
    decreases bets.len(),
{
    if i == bets.len() - 1 {
        lemma_total_exposure_nonneg(bets.drop_last(), rounds);
        assert(bets.last() == bets[i]);
    } else {
        lemma_slot_exposure_le_total(bets.drop_last(), rounds, i);
        assert(bets.drop_last()[i] == bets[i]);
    }
}

proof fn lemma_total_exposure_take_succ(
    bets: Seq<Option<BetState>>,
    rounds: Seq<RollState>,
    i: int,
)
    requires
        0 <= i < bets.len(),
    ensures
        total_exposure(bets.take(i + 1), rounds) == total_exposure(bets.take(i), rounds)
            + slot_exposure(bets[i], rounds),
{
    assert(bets.take(i + 1).drop_last() =~= bets.take(i));
    assert(bets.take(i + 1).last() == bets[i]);
}

/// A prefix of the slots is exposed no more than all of them.
proof fn lemma_total_exposure_take_le(bets: Seq<Option<BetState>>, rounds: Seq<RollState>, i: int)
    requires
        0 <= i <= bets.len(),
    ensures
        total_exposure(bets.take(i), rounds) <= total_exposure(bets, rounds),
    decreases bets.len() - i,
{
    if i == bets.len() {
        assert(bets.take(i) =~= bets);
    } else {
        lemma_total_exposure_take_succ(bets, rounds, i);
        lemma_total_exposure_take_le(bets, rounds, i + 1);
    }
}

/// The slot at `i` holds a live wager of `player` on round `round`.
pub open spec fn live_bet_at(l: Ledger, i: int, player: u64, round: usize) -> bool {
    &&& l.bets@[i] is Some
    &&& l.bets@[i]->0.player == player
    &&& l.bets@[i]->0.roll == round
}

/// Some slot holds a live wager of `player` on round `round`.
pub open spec fn has_live_bet(l: Ledger, player: u64, round: usize) -> bool {
    exists|i: int| 0 <= i < l.bets@.len() && #[trigger] live_bet_at(l, i, player, round)
}

/// A failed operation leaves every record and the audit log unchanged.
pub open spec fn unchanged(pre: Ledger, post: Ledger) -> bool {
    &&& post.config == pre.config
    &&& post.treasury.balance == pre.treasury.balance
    &&& post.rounds@ == pre.rounds@
    &&& post.bets@ == pre.bets@
    &&& post.events@ == pre.events@
}

/// What `create_round` does: only the authority may create; a new open
/// round with an empty pot is appended and its address returned. No event
/// is emitted: the round's life begins to be audited at its first wager.
pub open spec fn create_round_transition(
    pre: Ledger,
    post: Ledger,
    caller: u64,
    randomness_account: u64,
    bump: u8,
    r: Result<usize, ErrorCode>,
) -> bool {
    if caller != pre.config.authority {
        r == Err::<usize, ErrorCode>(ErrorCode::Unauthorized) && unchanged(pre, post)
    } else {
        &&& r == Ok::<usize, ErrorCode>(pre.rounds.len())
        &&& post.rounds@ == pre.rounds@.push(
            (RollState {
                randomness_account,
                revealed: false,
                result: None,
                total_bets_amount: 0,
                bump,
            }),
        )
        &&& post.config == pre.config
        &&& post.treasury.balance == pre.treasury.balance
        &&& post.bets@ == pre.bets@
        &&& post.events@ == pre.events@
    }
}

/// What `reveal` does: the single linearization point of a round. A second
/// reveal is refused; the first fixes the result and logs the raw
/// randomness beside the derived die face.
pub open spec fn reveal_transition(
    pre: Ledger,
    post: Ledger,
    round: usize,
    result: u8,
    randomness: [u8; 32],
    r: Result<(), ErrorCode>,
) -> bool {
    if pre.rounds@[round as int].revealed {
        r == Err::<(), ErrorCode>(ErrorCode::AlreadySettled) && unchanged(pre, post)
    } else {
        &&& r == Ok::<(), ErrorCode>(())
        &&& post.rounds@ == pre.rounds@.update(
            round as int,
            (RollState { revealed: true, result: Some(result), ..pre.rounds@[round as int] }),
        )
        &&& post.config == pre.config
        &&& post.treasury.balance == pre.treasury.balance
        &&& post.bets@ == pre.bets@
        &&& post.events@ == pre.events@.push(
            GameEvent::Revealed((DieRollRevealed { result, randomness })),
        )
    }
}

/// The error, if any, of the cross-round gate: when the caller presents a
/// previous wager, it must belong to the caller, come with its matching
/// round, and be either still pending or already claimed.
pub open spec fn previous_gate_error(
    pre: Ledger,
    player: u64,
    previous_bet: Option<usize>,
    previous_round: Option<usize>,
) -> Option<ErrorCode> {
    match previous_bet {
        None => None,
        Some(pb) => {
            let b = pre.bets@[pb as int]->0;
            if b.player != player {
                Some(ErrorCode::PreviousBetDoesNotBelongToPlayer)
            } else {
                match previous_round {
                    None => Some(ErrorCode::InvalidPreviousRollAccount),
                    Some(pr) => {
                        if pr != b.roll {
                            Some(ErrorCode::InvalidPreviousRollAccount)
                        } else if pre.rounds@[b.roll as int].revealed && !b.claimed {
                            Some(ErrorCode::PreviousBetUnclaimed)
                        } else {
                            None
                        }
                    },
                }
            }
        },
    }
}

/// The error, if any, that `place_bet` reports, in the order the checks
/// are made: guess range, stake bounds, round still open, no second wager
/// on the same (player, round) pair, the cross-round gate, and finally the
/// checked arithmetic on the treasury and the round's pot.
pub open spec fn place_error(
    pre: Ledger,
    player: u64,
    round: usize,
    guess: u8,
    amount: u64,
    previous_bet: Option<usize>,
    previous_round: Option<usize>,
) -> Option<ErrorCode> {
    if !valid_guess(guess) {
        Some(ErrorCode::InvalidGuess)
    } else if amount < MIN_BET_LAMPORTS {
        Some(ErrorCode::BetTooSmall)
    } else if amount > MAX_BET_LAMPORTS {
        Some(ErrorCode::BetTooLarge)
    } else if pre.rounds@[round as int].revealed {
        Some(ErrorCode::AlreadySettled)
    } else if has_live_bet(pre, player, round) {
        Some(ErrorCode::AlreadyBet)
    } else if previous_gate_error(pre, player, previous_bet, previous_round) is Some {
        previous_gate_error(pre, player, previous_bet, previous_round)
    } else if pre.treasury.balance + amount > u64::MAX {
        Some(ErrorCode::MathOverflow)
    } else if pre.rounds@[round as int].total_bets_amount + amount > u64::MAX {
        Some(ErrorCode::MathOverflow)
    } else {
        None
    }
}

/// The wager record a successful `place_bet` creates.
pub open spec fn placed_bet(player: u64, round: usize, guess: u8, amount: u64, bump: u8) -> BetState {
    BetState { player, roll: round, amount, guess, claimed: false, bump }
}

/// What `place_bet` does: on any failing check, the named error and no
/// effect at all; otherwise the stake moves into the treasury, the round's
/// pot grows by the stake, a fresh unclaimed wager occupies a new slot
/// whose address is returned, and one bet-placed event is logged.
pub open spec fn place_transition(
    pre: Ledger,
    post: Ledger,
    player: u64,
    round: usize,
    guess: u8,
    amount: u64,
    previous_bet: Option<usize>,
    previous_round: Option<usize>,
    bump: u8,
    r: Result<usize, ErrorCode>,
) -> bool {
    match place_error(pre, player, round, guess, amount, previous_bet, previous_round) {
        Some(e) => r == Err::<usize, ErrorCode>(e) && unchanged(pre, post),
        None => {
            &&& r == Ok::<usize, ErrorCode>(pre.bets.len())
            &&& post.treasury.balance == pre.treasury.balance + amount
            &&& post.rounds@ == pre.rounds@.update(
                round as int,
                (RollState {
                    total_bets_amount: (pre.rounds@[round as int].total_bets_amount + amount) as u64,
                    ..pre.rounds@[round as int]
                }),
            )
            &&& post.bets@ == pre.bets@.push(Some(placed_bet(player, round, guess, amount, bump)))
            &&& post.events@ == pre.events@.push(
                GameEvent::Placed((BetPlaced { user: player, amount })),
            )
            &&& post.config == pre.config
        },
    }
}

/// The error, if any, that `claim` reports: the round must be revealed and
/// the wager not yet settled.
pub open spec fn claim_error(pre: Ledger, bet: usize) -> Option<ErrorCode> {
    let b = pre.bets@[bet as int]->0;
    if !pre.rounds@[b.roll as int].revealed {
        Some(ErrorCode::RollNotSettled)
    } else if b.claimed {
        Some(ErrorCode::AlreadyClaimed)
    } else {
        None
    }
}

/// The net payout a first claim on the wager at `bet` moves: the winning
/// payout when the guess met the revealed result, and nothing otherwise.
pub open spec fn claim_payout(pre: Ledger, bet: usize) -> u64 {
    let b = pre.bets@[bet as int]->0;
    if pre.rounds@[b.roll as int].result == Some(b.guess) {
        win_payout(b.amount)
    } else {
        0
    }
}

/// What `claim` does: the first call on a revealed wager pays the payout
/// (zero on a loss), marks the wager settled either way, and logs one
/// winnings-claimed event; every later call fails with `AlreadyClaimed`
/// and moves nothing. The ledger's solvency owes the payout, so a claim
/// that passes its lifecycle checks never fails for funds.
pub open spec fn claim_transition(
    pre: Ledger,
    post: Ledger,
    bet: usize,
    r: Result<u64, ErrorCode>,
) -> bool {
    let b = pre.bets@[bet as int]->0;
    match claim_error(pre, bet) {
        Some(e) => r == Err::<u64, ErrorCode>(e) && unchanged(pre, post),
        None => {
            &&& r == Ok::<u64, ErrorCode>(claim_payout(pre, bet))
            &&& post.treasury.balance == pre.treasury.balance - claim_payout(pre, bet)
            &&& post.bets@ == pre.bets@.update(bet as int, Some((BetState { claimed: true, ..b })))
            &&& post.rounds@ == pre.rounds@
            &&& post.events@ == pre.events@.push(
                GameEvent::Claimed((WinningsClaimed { user: b.player, amount: claim_payout(pre, bet) })),
            )
            &&& post.config == pre.config
        },
    }
}

/// The error, if any, that `cancel` reports: a wager is only cancellable
/// while its round is unrevealed.
pub open spec fn cancel_error(pre: Ledger, bet: usize) -> Option<ErrorCode> {
    if pre.rounds@[pre.bets@[bet as int]->0.roll as int].revealed {
        Some(ErrorCode::RollAlreadySettled)
    } else {
        None
    }
}

/// What `cancel` does: before its round reveals, a wager may be withdrawn;
/// the stake is refunded, the slot is vacated so the pair may wager again,
/// and one bet-cancelled event is logged. The round's cumulative pot keeps
/// the cancelled stake: it never decreases.
pub open spec fn cancel_transition(
    pre: Ledger,
    post: Ledger,
    bet: usize,
    r: Result<(), ErrorCode>,
) -> bool {
    let b = pre.bets@[bet as int]->0;
    match cancel_error(pre, bet) {
        Some(e) => r == Err::<(), ErrorCode>(e) && unchanged(pre, post),
        None => {
            &&& r == Ok::<(), ErrorCode>(())
            &&& post.treasury.balance == pre.treasury.balance - b.amount
            &&& post.bets@ == pre.bets@.update(bet as int, None::<BetState>)
            &&& post.rounds@ == pre.rounds@
            &&& post.events@ == pre.events@.push(
                GameEvent::Cancelled((BetCancelled { user: b.player })),
            )
            &&& post.config == pre.config
        },
    }
}

/// What `trigger_roll` does: only the authority may spend an oracle
/// request, and only on a round whose pot has reached the configured
/// minimum; a roll-triggered event is logged, and the round itself is
/// untouched until the oracle's reveal arrives.
pub open spec fn trigger_roll_transition(
    pre: Ledger,
    post: Ledger,
    caller: u64,
    round: usize,
    r: Result<(), ErrorCode>,
) -> bool {
    if caller != pre.config.authority {
        r == Err::<(), ErrorCode>(ErrorCode::Unauthorized) && unchanged(pre, post)
    } else if pre.rounds@[round as int].total_bets_amount < MIN_POT_FOR_ROLL_LAMPORTS {
        r == Err::<(), ErrorCode>(ErrorCode::InsufficientTreasuryForRoll) && unchanged(pre, post)
    } else {
        &&& r == Ok::<(), ErrorCode>(())
        &&& post.events@ == pre.events@.push(
            GameEvent::RollTriggered((DieRollTriggered { user: caller })),
        )
        &&& post.config == pre.config
        &&& post.treasury.balance == pre.treasury.balance
        &&& post.rounds@ == pre.rounds@
        &&& post.bets@ == pre.bets@
    }
}

/// The error, if any, that `withdraw_treasury` reports: the caller must be
/// the authority, and the remaining balance must stay at or above both the
/// reserve floor and the outstanding wager exposure.
pub open spec fn withdraw_error(pre: Ledger, caller: u64, amount: u64) -> Option<ErrorCode> {
    if caller != pre.config.authority {
        Some(ErrorCode::UnauthorizedWithdraw)
    } else if pre.treasury.balance < amount || pre.treasury.balance - amount
        < MIN_POT_FOR_ROLL_LAMPORTS || pre.treasury.balance - amount < total_exposure(
        pre.bets@,
        pre.rounds@,
    ) {
        Some(ErrorCode::InsufficientTreasuryForWithdrawal)
    } else {
        None
    }
}

/// What `withdraw_treasury` does: an authority-gated withdrawal that never
/// dips below the reserve floor nor below what outstanding wagers may
/// still reclaim, logging one treasury-withdrawn event on success.
pub open spec fn withdraw_transition(
    pre: Ledger,
    post: Ledger,
    caller: u64,
    amount: u64,
    r: Result<(), ErrorCode>,
) -> bool {
    match withdraw_error(pre, caller, amount) {
        Some(e) => r == Err::<(), ErrorCode>(e) && unchanged(pre, post),
        None => {
            &&& r == Ok::<(), ErrorCode>(())
            &&& post.treasury.balance == pre.treasury.balance - amount
            &&& post.events@ == pre.events@.push(
                GameEvent::Withdrawn((TreasuryWithdrawn { user: caller, amount })),
            )
            &&& post.config == pre.config
            &&& post.rounds@ == pre.rounds@
            &&& post.bets@ == pre.bets@
        },
    }
}

impl Ledger {
    /// Every live wager targets an existing round, guesses a die face, and
    /// stakes within the configured bounds.
    pub open spec fn bets_valid(self) -> bool {
        forall|i: int|
            #![trigger self.bets@[i]]
            0 <= i < self.bets@.len() && self.bets@[i] is Some ==> valid_bet(
                self.bets@[i]->0,
                self.rounds@.len() as int,
            )
    }

    /// No two live wagers share a (player, round) pair.
    pub open spec fn pairs_unique(self) -> bool {
        forall|i: int, j: int|
            #![trigger self.bets@[i], self.bets@[j]]
            0 <= i < j < self.bets@.len() && self.bets@[i] is Some && self.bets@[j] is Some ==> !(
            self.bets@[i]->0.player == self.bets@[j]->0.player && self.bets@[i]->0.roll
                == self.bets@[j]->0.roll)
    }

    /// Every round carries a result exactly when revealed.
    pub open spec fn rounds_valid(self) -> bool {
        forall|k: int|
            #![trigger self.rounds@[k]]
            0 <= k < self.rounds@.len() ==> valid_round(self.rounds@[k])
    }

    /// The treasury covers every outstanding wager exposure.
    pub open spec fn solvent(self) -> bool {
        self.treasury.balance >= total_exposure(self.bets@, self.rounds@)
    }

    /// The ledger's invariant: established at initialization and preserved
    /// by every operation.
    pub open spec fn wf(self) -> bool {
        &&& self.bets_valid()
        &&& self.pairs_unique()
        &&& self.rounds_valid()
        &&& self.solvent()
    }

    /// Create the singleton ledger: the configuration is fixed, the
    /// treasury is empty, and no round or wager exists yet.
    pub fn initialize_contract(
        authority: u64,
        treasury_pda: u64,
        treasury_bump: u8,
        bump: u8,
    ) -> (l: Ledger)
        ensures
            l.wf(),
            l.config == (GlobalState { authority, treasury_pda, treasury_bump, bump }),
            l.treasury.balance == 0,
            l.rounds@.len() == 0,
            l.bets@.len() == 0,
            l.events@.len() == 0,
    {
        Ledger {
            config: GlobalState { authority, treasury_pda, treasury_bump, bump },
            treasury: TreasuryAccount { balance: 0 },
            rounds: Vec::new(),
            bets: Vec::new(),
            events: Vec::new(),
        }
    }

    /// Create a new round bound to an oracle randomness request. Only the
    /// configured authority may create rounds; the round starts open, with
    /// no result and an empty pot, and is never deleted.
    pub fn create_round(&mut self, caller: u64, randomness_account: u64, bump: u8) -> (r: Result<
        usize,
        ErrorCode,
    >)
        requires
            old(self).wf(),
        ensures
            final(self).wf(),
            create_round_transition(*old(self), *final(self), caller, randomness_account, bump, r),
    {
        if caller != self.config.authority {
            return Err(ErrorCode::Unauthorized);
        }
        let index = self.rounds.len();
        let round = RollState {
            randomness_account,
            revealed: false,
            result: None,
            total_bets_amount: 0,
            bump,
        };
        self.rounds.push(round);
        proof {
            let pre = *old(self);
            assert forall|i: int| 0 <= i < pre.bets@.len() implies slot_exposure(
                #[trigger] pre.bets@[i],
                pre.rounds@,
            ) == slot_exposure(pre.bets@[i], self.rounds@) by {
                if pre.bets@[i] is Some {
                    assert(valid_bet(pre.bets@[i]->0, pre.rounds@.len() as int));
                    assert(self.rounds@[pre.bets@[i]->0.roll as int] == pre.rounds@[pre.bets@[i]
                        ->0.roll as int]);
                }
            }
            lemma_total_exposure_congruent(pre.bets@, pre.rounds@, self.rounds@);
        }
        Ok(index)
    }

    /// Consume the oracle's result for a round. The first call on a round
    /// fixes `result` forever and closes the round to new wagers; every
    /// later call fails with `AlreadySettled` and changes nothing.
    pub fn reveal_round(&mut self, round: usize, result: u8, randomness: [u8; 32]) -> (r: Result<
        (),
        ErrorCode,
    >)
        requires
            old(self).wf(),
            round < old(self).rounds.len(),
            valid_guess(result),
        ensures
            final(self).wf(),
            reveal_transition(*old(self), *final(self), round, result, randomness, r),
    {
        if self.rounds[round].revealed {
            return Err(ErrorCode::AlreadySettled);
        }
        let updated = RollState {
            revealed: true,
            result: Some(result),
            ..self.rounds[round]
        };
        self.rounds[round] = updated;
        self.events.push(GameEvent::Revealed(DieRollRevealed { result, randomness }));
        proof {
            let pre = *old(self);
            assert forall|i: int| 0 <= i < pre.bets@.len() implies slot_exposure(
                #[trigger] pre.bets@[i],
                self.rounds@,
            ) <= slot_exposure(pre.bets@[i], pre.rounds@) by {
                if pre.bets@[i] is Some {
                    assert(valid_bet(pre.bets@[i]->0, pre.rounds@.len() as int));
                }
            }
            lemma_total_exposure_pointwise_le(pre.bets@, pre.rounds@, self.rounds@);
        }
        Ok(())
    }

    /// The derivation of a (player, round) pair's storage address: the
    /// slot of the pair's live wager, if one exists.
    fn find_live_bet(&self, player: u64, round: usize) -> (r: Option<usize>)
        ensures
            match r {
                Some(i) => i < self.bets@.len() && live_bet_at(*self, i as int, player, round),
                None => !has_live_bet(*self, player, round),
            },
    {
        let mut i: usize = 0;
        while i < self.bets.len()
            invariant
                i <= self.bets@.len(),
                forall|j: int| 0 <= j < i ==> !#[trigger] live_bet_at(*self, j, player, round),
            decreases self.bets@.len() - i,
        {
            match self.bets[i] {
                Some(b) => {
                    if b.player == player && b.roll == round {
                        return Some(i);
                    }
                },
                None => {},
            }
            i = i + 1;
        }
        None
    }

    /// Open a wager: `player` stakes `amount` on `guess` against the round
    /// at `round`. A caller with an earlier wager presents it (and its
    /// round) as `previous_bet` and `previous_round`; a revealed but
    /// unclaimed previous wager blocks the new one until it is settled.
    /// On success the stake is deposited into the treasury, the round's
    /// pot grows by the stake, and the new wager's slot is returned.
    pub fn place_bet(
        &mut self,
        player: u64,
        round: usize,
        guess: u8,
        amount: u64,
        previous_bet: Option<usize>,
        previous_round: Option<usize>,
        bump: u8,
    ) -> (r: Result<usize, ErrorCode>)
        requires
            old(self).wf(),
            round < old(self).rounds.len(),
            previous_bet matches Some(pb) ==> pb < old(self).bets.len() && old(self).bets@[pb as int]
                is Some,
        ensures
            final(self).wf(),
            place_transition(
                *old(self),
                *final(self),
                player,
                round,
                guess,
                amount,
                previous_bet,
                previous_round,
                bump,
                r,
            ),
    {
        if !(1 <= guess && guess <= 6) {
            return Err(ErrorCode::InvalidGuess);
        }
        if amount < MIN_BET_LAMPORTS {
            return Err(ErrorCode::BetTooSmall);
        }
        if amount > MAX_BET_LAMPORTS {
            return Err(ErrorCode::BetTooLarge);
        }
        if self.rounds[round].revealed {
            return Err(ErrorCode::AlreadySettled);
        }
        if self.find_live_bet(player, round).is_some() {
            return Err(ErrorCode::AlreadyBet);
        }
        if let Some(pb) = previous_bet {
            let b = self.bets[pb].unwrap();
            if b.player != player {
                return Err(ErrorCode::PreviousBetDoesNotBelongToPlayer);
            }
            match previous_round {
                None => {
                    return Err(ErrorCode::InvalidPreviousRollAccount);
                },
                Some(pr) => {
                    if pr != b.roll {
                        return Err(ErrorCode::InvalidPreviousRollAccount);
                    }
                    proof {
                        assert(valid_bet(old(self).bets@[pb as int]->0, old(
                            self,
                        ).rounds@.len() as int));
                    }
                    if self.rounds[b.roll].revealed && !b.claimed {
                        return Err(ErrorCode::PreviousBetUnclaimed);
                    }
                },
            }
        }
        // All lifecycle checks passed; validate both checked additions
        // before mutating anything, so a failure leaves no partial effect.
        let new_total = match self.rounds[round].total_bets_amount.checked_add(amount) {
            Some(t) => t,
            None => {
                return Err(ErrorCode::MathOverflow);
            },
        };
        match self.treasury.deposit(amount) {
            Ok(()) => {},
            Err(e) => {
                return Err(e);
            },
        }
        self.rounds[round].total_bets_amount = new_total;
        let index = self.bets.len();
        self.bets.push(Some(BetState { player, roll: round, amount, guess, claimed: false, bump }));
        self.events.push(GameEvent::Placed(BetPlaced { user: player, amount }));
        proof {
            let pre = *old(self);
            let nb = placed_bet(player, round, guess, amount, bump);
            // The round table changed only in the pot of `round`, which no
            // slot's exposure reads.
            assert forall|i: int| 0 <= i < pre.bets@.len() implies slot_exposure(
                #[trigger] pre.bets@[i],
                pre.rounds@,
            ) == slot_exposure(pre.bets@[i], self.rounds@) by {
                if pre.bets@[i] is Some {
                    assert(valid_bet(pre.bets@[i]->0, pre.rounds@.len() as int));
                    let ri = pre.bets@[i]->0.roll as int;
                    assert(self.rounds@[ri].revealed == pre.rounds@[ri].revealed);
                    assert(self.rounds@[ri].result == pre.rounds@[ri].result);
                }
            }
            lemma_total_exposure_congruent(pre.bets@, pre.rounds@, self.rounds@);
            lemma_total_exposure_push(pre.bets@, self.rounds@, Some(nb));
            assert(slot_exposure(Some(nb), self.rounds@) == amount as int);
            assert forall|i: int|
                0 <= i < self.bets@.len() && self.bets@[i] is Some implies valid_bet(
                self.bets@[i]->0,
                self.rounds@.len() as int,
            ) by {
                if i < pre.bets@.len() {
                    assert(self.bets@[i] == pre.bets@[i]);
                    assert(valid_bet(pre.bets@[i]->0, pre.rounds@.len() as int));
                } else {
                    assert(self.bets@[i] == Some(nb));
                }
            }
            assert forall|i: int, j: int|
                0 <= i < j < self.bets@.len() && self.bets@[i] is Some && self.bets@[j]
                    is Some implies !(self.bets@[i]->0.player == self.bets@[j]->0.player
                && self.bets@[i]->0.roll == self.bets@[j]->0.roll) by {
                if j < pre.bets@.len() {
                    assert(self.bets@[i] == pre.bets@[i]);
                    assert(self.bets@[j] == pre.bets@[j]);
                } else {
                    assert(self.bets@[i] == pre.bets@[i]);
                    assert(self.bets@[j] == Some(nb));
                    assert(!live_bet_at(pre, i, player, round));
                }
            }
        }
        Ok(index)
    }

    /// Settle the wager at `bet` against its revealed round. The first
    /// call pays the winning payout (nothing on a loss), marks the wager
    /// claimed, and returns the net amount moved; later calls fail with
    /// `AlreadyClaimed`.
    pub fn claim(&mut self, bet: usize) -> (r: Result<u64, ErrorCode>)
        requires
            old(self).wf(),
            bet < old(self).bets.len(),
            old(self).bets@[bet as int] is Some,
        ensures
            final(self).wf(),
            claim_transition(*old(self), *final(self), bet, r),
    {
        let b = self.bets[bet].unwrap();
        proof {
            assert(valid_bet(old(self).bets@[bet as int]->0, old(self).rounds@.len() as int));
        }
        let round = self.rounds[b.roll];
        if !round.revealed {
            return Err(ErrorCode::RollNotSettled);
        }
        if b.claimed {
            return Err(ErrorCode::AlreadyClaimed);
        }
        let won = match round.result {
            Some(v) => v == b.guess,
            None => false,
        };
        let payout: u64 = if won {
            b.amount
        } else {
            0
        };
        proof {
            lemma_slot_exposure_le_total(self.bets@, self.rounds@, bet as int);
            assert(slot_exposure(self.bets@[bet as int], self.rounds@) == payout as int);
        }
        match self.treasury.withdraw_for_payout(payout) {
            Ok(()) => {},
            Err(e) => {
                // Unreachable: solvency covers every claimable payout.
                proof {
                    assert(false);
                }
                return Err(e);
            },
        }
        self.bets[bet] = Some(BetState { claimed: true, ..b });
        self.events.push(GameEvent::Claimed(WinningsClaimed { user: b.player, amount: payout }));
        proof {
            let pre = *old(self);
            lemma_total_exposure_update(
                pre.bets@,
                pre.rounds@,
                bet as int,
                Some(BetState { claimed: true, ..b }),
            );
            assert(slot_exposure(self.bets@[bet as int], self.rounds@) == 0);
            assert forall|i: int|
                0 <= i < self.bets@.len() && self.bets@[i] is Some implies valid_bet(
                self.bets@[i]->0,
                self.rounds@.len() as int,
            ) by {
                if i != bet {
                    assert(self.bets@[i] == pre.bets@[i]);
                }
                assert(valid_bet(pre.bets@[i]->0, pre.rounds@.len() as int));
            }
            assert forall|i: int, j: int|
                0 <= i < j < self.bets@.len() && self.bets@[i] is Some && self.bets@[j]
                    is Some implies !(self.bets@[i]->0.player == self.bets@[j]->0.player
                && self.bets@[i]->0.roll == self.bets@[j]->0.roll) by {
                assert(pre.bets@[i] is Some && pre.bets@[i]->0.player == self.bets@[i]->0.player
                    && pre.bets@[i]->0.roll == self.bets@[i]->0.roll);
                assert(pre.bets@[j] is Some && pre.bets@[j]->0.player == self.bets@[j]->0.player
                    && pre.bets@[j]->0.roll == self.bets@[j]->0.roll);
            }
        }
        Ok(payout)
    }

    /// Withdraw the wager at `bet` before its round reveals: the stake is
    /// refunded and the slot vacated, so the same (player, round) pair may
    /// wager on that round again. Once the round has revealed, the wager
    /// can only be claimed.
    pub fn cancel(&mut self, bet: usize) -> (r: Result<(), ErrorCode>)
        requires
            old(self).wf(),
            bet < old(self).bets.len(),
            old(self).bets@[bet as int] is Some,
        ensures
            final(self).wf(),
            cancel_transition(*old(self), *final(self), bet, r),
    {
        let b = self.bets[bet].unwrap();
        proof {
            assert(valid_bet(old(self).bets@[bet as int]->0, old(self).rounds@.len() as int));
        }
        if self.rounds[b.roll].revealed {
            return Err(ErrorCode::RollAlreadySettled);
        }
        proof {
            lemma_slot_exposure_le_total(self.bets@, self.rounds@, bet as int);
            assert(slot_exposure(self.bets@[bet as int], self.rounds@) == b.amount as int);
        }
        match self.treasury.withdraw_for_payout(b.amount) {
            Ok(()) => {},
            Err(e) => {
                // Unreachable: solvency covers every open stake.
                proof {
                    assert(false);
                }
                return Err(e);
            },
        }
        self.bets[bet] = None;
        self.events.push(GameEvent::Cancelled(BetCancelled { user: b.player }));
        proof {
            let pre = *old(self);
            lemma_total_exposure_update(pre.bets@, pre.rounds@, bet as int, None::<BetState>);
            assert forall|i: int|
                0 <= i < self.bets@.len() && self.bets@[i] is Some implies valid_bet(
                self.bets@[i]->0,
                self.rounds@.len() as int,
            ) by {
                assert(self.bets@[i] == pre.bets@[i]);
                assert(valid_bet(pre.bets@[i]->0, pre.rounds@.len() as int));
            }
            assert forall|i: int, j: int|
                0 <= i < j < self.bets@.len() && self.bets@[i] is Some && self.bets@[j]
                    is Some implies !(self.bets@[i]->0.player == self.bets@[j]->0.player
                && self.bets@[i]->0.roll == self.bets@[j]->0.roll) by {
                assert(self.bets@[i] == pre.bets@[i]);
                assert(self.bets@[j] == pre.bets@[j]);
            }
        }
        Ok(())
    }

    /// The treasury's outstanding exposure, computed over every wager
    /// slot: open stakes plus revealed, winning, unclaimed payouts.
    pub fn outstanding_exposure(&self) -> (total: u64)
        requires
            self.wf(),
        ensures
            total == total_exposure(self.bets@, self.rounds@),
    {
        let mut acc: u64 = 0;
        let mut i: usize = 0;
        proof {
            assert(self.bets@.take(0) =~= Seq::<Option<BetState>>::empty());
        }
        while i < self.bets.len()
            invariant
                self.wf(),
                i <= self.bets@.len(),
                acc == total_exposure(self.bets@.take(i as int), self.rounds@),
            decreases self.bets@.len() - i,
        {
            proof {
                lemma_total_exposure_take_succ(self.bets@, self.rounds@, i as int);
                lemma_total_exposure_take_le(self.bets@, self.rounds@, i as int + 1);
                lemma_total_exposure_take_le(self.bets@, self.rounds@, i as int);
                lemma_total_exposure_nonneg(self.bets@.take(i as int), self.rounds@);
            }
            match self.bets[i] {
                None => {},
                Some(b) => {
                    proof {
                        assert(valid_bet(self.bets@[i as int]->0, self.rounds@.len() as int));
                    }
                    let round = self.rounds[b.roll];
                    let slot: u64 = if !round.revealed {
                        b.amount
                    } else {
                        let won = match round.result {
                            Some(v) => v == b.guess,
                            None => false,
                        };
                        if !b.claimed && won {
                            b.amount
                        } else {
                            0
                        }
                    };
                    proof {
                        assert(slot as int == slot_exposure(self.bets@[i as int], self.rounds@));
                    }
                    acc = acc + slot;
                },
            }
            i = i + 1;
        }
        proof {
            assert(self.bets@.take(i as int) =~= self.bets@);
        }
        acc
    }

    /// Ask the oracle to resolve the round at `round`. Authority-gated,
    /// and refused while the round's pot is below the configured minimum,
    /// so an oracle request is never wasted on an under-funded round.
    pub fn trigger_roll(&mut self, caller: u64, round: usize) -> (r: Result<(), ErrorCode>)
        requires
            old(self).wf(),
            round < old(self).rounds.len(),
        ensures
            final(self).wf(),
            trigger_roll_transition(*old(self), *final(self), caller, round, r),
    {
        if caller != self.config.authority {
            return Err(ErrorCode::Unauthorized);
        }
        if self.rounds[round].total_bets_amount < MIN_POT_FOR_ROLL_LAMPORTS {
            return Err(ErrorCode::InsufficientTreasuryForRoll);
        }
        self.events.push(GameEvent::RollTriggered(DieRollTriggered { user: caller }));
        Ok(())
    }

    /// Withdraw `amount` from the treasury on the authority's behalf. The
    /// effective floor is the larger of the configured reserve and the
    /// outstanding wager exposure, so a withdrawal never endangers either
    /// the reserve or a single promised payout.
    pub fn withdraw_treasury(&mut self, caller: u64, amount: u64) -> (r: Result<(), ErrorCode>)
        requires
            old(self).wf(),
        ensures
            final(self).wf(),
            withdraw_transition(*old(self), *final(self), caller, amount, r),
    {
        let exposure = self.outstanding_exposure();
        let floor = if exposure > MIN_POT_FOR_ROLL_LAMPORTS {
            exposure
        } else {
            MIN_POT_FOR_ROLL_LAMPORTS
        };
        let authority = self.config.authority;
        match self.treasury.authority_withdraw(caller, authority, amount, floor) {
            Ok(()) => {
                self.events.push(GameEvent::Withdrawn(TreasuryWithdrawn { user: caller, amount }));
                Ok(())
            },
            Err(e) => Err(e),
        }
    }
}

} // verus!
