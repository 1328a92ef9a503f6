use dice_ledger::errors::ErrorCode;
use dice_ledger::events::{DieRollRevealed, DieRollTriggered, GameEvent};
use dice_ledger::ledger::Ledger;

const AUTHORITY: u64 = 7;
const PLAYER: u64 = 5;

fn fresh_ledger() -> Ledger {
    Ledger::initialize_contract(AUTHORITY, 8, 255, 254)
}

#[test]
fn initialize_sets_configuration_and_empty_state() {
    let l = fresh_ledger();
    assert_eq!(l.config.authority, AUTHORITY);
    assert_eq!(l.config.treasury_pda, 8);
    assert_eq!(l.config.treasury_bump, 255);
    assert_eq!(l.config.bump, 254);
    assert_eq!(l.treasury.balance, 0);
    assert_eq!(l.rounds.len(), 0);
    assert_eq!(l.bets.len(), 0);
    assert_eq!(l.events.len(), 0);
}

#[test]
fn create_round_starts_open_and_empty() {
    let mut l = fresh_ledger();
    let r = l.create_round(AUTHORITY, 42, 253);
    assert_eq!(r, Ok(0));
    assert_eq!(l.rounds.len(), 1);
    assert_eq!(l.rounds[0].randomness_account, 42);
    assert!(!l.rounds[0].revealed);
    assert_eq!(l.rounds[0].result, None);
    assert_eq!(l.rounds[0].total_bets_amount, 0);
    assert_eq!(l.rounds[0].bump, 253);
    // round creation emits no event
    assert_eq!(l.events.len(), 0);
}

#[test]
fn create_round_rejects_non_authority() {
    let mut l = fresh_ledger();
    let r = l.create_round(PLAYER, 42, 253);
    assert_eq!(r, Err(ErrorCode::Unauthorized));
    assert_eq!(l.rounds.len(), 0);
}

#[test]
fn reveal_fixes_result_and_logs_randomness() {
    let mut l = fresh_ledger();
    l.create_round(AUTHORITY, 42, 253).unwrap();
    let raw = [0xABu8; 32];
    let r = l.reveal_round(0, 4, raw);
    assert_eq!(r, Ok(()));
    assert!(l.rounds[0].revealed);
    assert_eq!(l.rounds[0].result, Some(4));
    assert_eq!(
        l.events.last(),
        Some(&GameEvent::Revealed(DieRollRevealed { result: 4, randomness: raw }))
    );
}

#[test]
fn reveal_is_single_assignment() {
    let mut l = fresh_ledger();
    l.create_round(AUTHORITY, 42, 253).unwrap();
    assert_eq!(l.reveal_round(0, 4, [1u8; 32]), Ok(()));
    let events_before = l.events.len();
    let second = l.reveal_round(0, 6, [2u8; 32]);
    assert_eq!(second, Err(ErrorCode::AlreadySettled));
    // the result keeps the value the first reveal fixed, and nothing is logged
    assert_eq!(l.rounds[0].result, Some(4));
    assert_eq!(l.events.len(), events_before);
}

#[test]
fn trigger_roll_rejects_non_authority() {
    let mut l = fresh_ledger();
    l.create_round(AUTHORITY, 42, 253).unwrap();
    assert_eq!(l.trigger_roll(PLAYER, 0), Err(ErrorCode::Unauthorized));
    assert_eq!(l.events.len(), 0);
}

#[test]
fn trigger_roll_rejects_underfunded_pot() {
    let mut l = fresh_ledger();
    l.create_round(AUTHORITY, 42, 253).unwrap();
    l.place_bet(PLAYER, 0, 3, 2_000_000, None, None, 252).unwrap();
    let r = l.trigger_roll(AUTHORITY, 0);
    assert_eq!(r, Err(ErrorCode::InsufficientTreasuryForRoll));
}

#[test]
fn trigger_roll_succeeds_on_funded_pot() {
    let mut l = fresh_ledger();
    l.create_round(AUTHORITY, 42, 253).unwrap();
    // one maximum wager reaches the minimum pot exactly
    l.place_bet(PLAYER, 0, 3, 100_000_000, None, None, 252).unwrap();
    let r = l.trigger_roll(AUTHORITY, 0);
    assert_eq!(r, Ok(()));
    assert_eq!(
        l.events.last(),
        Some(&GameEvent::RollTriggered(DieRollTriggered { user: AUTHORITY }))
    );
}
