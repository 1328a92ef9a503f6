use dice_ledger::accounts::TreasuryAccount;
use dice_ledger::errors::ErrorCode;
use dice_ledger::events::{GameEvent, TreasuryWithdrawn};
use dice_ledger::ledger::Ledger;

const AUTHORITY: u64 = 7;
const PLAYER: u64 = 5;
const OTHER_PLAYER: u64 = 9;
const RESERVE: u64 = 100_000_000;

fn ledger_with_round() -> Ledger {
    let mut l = Ledger::initialize_contract(AUTHORITY, 8, 255, 254);
    l.create_round(AUTHORITY, 42, 253).unwrap();
    l
}

#[test]
fn deposit_adds_and_reports_overflow() {
    let mut t = TreasuryAccount { balance: 10 };
    assert_eq!(t.deposit(32), Ok(()));
    assert_eq!(t.balance, 42);
    let mut full = TreasuryAccount { balance: u64::MAX };
    assert_eq!(full.deposit(1), Err(ErrorCode::MathOverflow));
    assert_eq!(full.balance, u64::MAX);
}

#[test]
fn payout_withdrawal_subtracts_and_reports_shortfall() {
    let mut t = TreasuryAccount { balance: 42 };
    assert_eq!(t.withdraw_for_payout(40), Ok(()));
    assert_eq!(t.balance, 2);
    assert_eq!(t.withdraw_for_payout(3), Err(ErrorCode::InsufficientTreasury));
    assert_eq!(t.balance, 2);
}

#[test]
fn authority_withdraw_enforces_identity_and_floor() {
    let mut t = TreasuryAccount { balance: 1_000 };
    assert_eq!(
        t.authority_withdraw(PLAYER, AUTHORITY, 1, 0),
        Err(ErrorCode::UnauthorizedWithdraw)
    );
    assert_eq!(
        t.authority_withdraw(AUTHORITY, AUTHORITY, 600, 500),
        Err(ErrorCode::InsufficientTreasuryForWithdrawal)
    );
    assert_eq!(
        t.authority_withdraw(AUTHORITY, AUTHORITY, 2_000, 0),
        Err(ErrorCode::InsufficientTreasuryForWithdrawal)
    );
    assert_eq!(t.authority_withdraw(AUTHORITY, AUTHORITY, 500, 500), Ok(()));
    assert_eq!(t.balance, 500);
}

#[test]
fn treasury_withdrawal_rejects_non_authority() {
    let mut l = ledger_with_round();
    assert_eq!(
        l.withdraw_treasury(PLAYER, 1),
        Err(ErrorCode::UnauthorizedWithdraw)
    );
}

#[test]
fn treasury_withdrawal_keeps_the_reserve() {
    let mut l = ledger_with_round();
    // two losing maximum wagers fund the treasury with 200,000,000
    l.place_bet(PLAYER, 0, 3, 100_000_000, None, None, 252).unwrap();
    l.place_bet(OTHER_PLAYER, 0, 4, 100_000_000, None, None, 252).unwrap();
    l.reveal_round(0, 6, [9u8; 32]).unwrap();
    // nothing is owed any more, so only the reserve binds
    assert_eq!(
        l.withdraw_treasury(AUTHORITY, RESERVE + 1),
        Err(ErrorCode::InsufficientTreasuryForWithdrawal)
    );
    let r = l.withdraw_treasury(AUTHORITY, 50_000_000);
    assert_eq!(r, Ok(()));
    assert_eq!(l.treasury.balance, 150_000_000);
    assert_eq!(
        l.events.last(),
        Some(&GameEvent::Withdrawn(TreasuryWithdrawn { user: AUTHORITY, amount: 50_000_000 }))
    );
}

#[test]
fn treasury_withdrawal_keeps_outstanding_exposure() {
    let mut l = ledger_with_round();
    // two winning maximum wagers: the whole balance stays owed
    l.place_bet(PLAYER, 0, 3, 100_000_000, None, None, 252).unwrap();
    l.place_bet(OTHER_PLAYER, 0, 3, 100_000_000, None, None, 252).unwrap();
    l.reveal_round(0, 3, [9u8; 32]).unwrap();
    assert_eq!(l.outstanding_exposure(), 200_000_000);
    // the remaining balance would stay above the reserve, yet below what
    // the two unclaimed winners may still reclaim
    assert_eq!(
        l.withdraw_treasury(AUTHORITY, 1),
        Err(ErrorCode::InsufficientTreasuryForWithdrawal)
    );
    // once one winner has been paid, the freed share is still owed to the
    // other, so nothing is withdrawable above the reserve either
    assert_eq!(l.claim(0), Ok(100_000_000));
    assert_eq!(l.outstanding_exposure(), 100_000_000);
    assert_eq!(l.treasury.balance, 100_000_000);
    assert_eq!(
        l.withdraw_treasury(AUTHORITY, 1),
        Err(ErrorCode::InsufficientTreasuryForWithdrawal)
    );
}

#[test]
fn exposure_counts_open_stakes_and_unclaimed_wins() {
    let mut l = ledger_with_round();
    l.create_round(AUTHORITY, 43, 251).unwrap();
    l.place_bet(PLAYER, 0, 3, 2_000_000, None, None, 252).unwrap();
    l.place_bet(OTHER_PLAYER, 1, 4, 5_000_000, None, None, 252).unwrap();
    // both rounds open: both stakes are exposed
    assert_eq!(l.outstanding_exposure(), 7_000_000);
    // round 0 reveals a win for the player: the payout stays exposed
    l.reveal_round(0, 3, [9u8; 32]).unwrap();
    assert_eq!(l.outstanding_exposure(), 7_000_000);
    // round 1 reveals a loss: that stake stops being exposed
    l.reveal_round(1, 6, [9u8; 32]).unwrap();
    assert_eq!(l.outstanding_exposure(), 2_000_000);
    // the winning claim clears the rest
    assert_eq!(l.claim(0), Ok(2_000_000));
    assert_eq!(l.outstanding_exposure(), 0);
    // the treasury keeps the lost stake
    assert_eq!(l.treasury.balance, 5_000_000);
}

#[test]
fn events_log_one_entry_per_successful_call() {
    let mut l = ledger_with_round();
    l.place_bet(PLAYER, 0, 3, 100_000_000, None, None, 252).unwrap();
    l.trigger_roll(AUTHORITY, 0).unwrap();
    l.reveal_round(0, 3, [9u8; 32]).unwrap();
    l.claim(0).unwrap();
    // place, trigger, reveal, claim: four successes, four entries
    assert_eq!(l.events.len(), 4);
    assert!(matches!(l.events[0], GameEvent::Placed(_)));
    assert!(matches!(l.events[1], GameEvent::RollTriggered(_)));
    assert!(matches!(l.events[2], GameEvent::Revealed(_)));
    assert!(matches!(l.events[3], GameEvent::Claimed(_)));
    // a failed call appends nothing
    let n = l.events.len();
    assert!(l.claim(0).is_err());
    assert_eq!(l.events.len(), n);
}
