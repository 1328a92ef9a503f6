//! A round-based wagering ledger.
//!
//! Players stake value on a guessed outcome of a die roll, an external
//! randomness oracle resolves each round, and winners reclaim their payout
//! from a pooled treasury. The ledger enforces the round and wager
//! lifecycles, the treasury's solvency over all outstanding wagers, and the
//! rule that a player must settle a revealed wager before opening a new one.

pub mod accounts;
pub mod errors;
pub mod events;
pub mod laws;
pub mod ledger;
