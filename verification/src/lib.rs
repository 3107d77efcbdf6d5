//! An admin-governed reward ledger.
//!
//! An authority registers per-game reward amounts, and players receive a
//! reward for a game at most once. Each successful distribution leaves a
//! permanent claim record (the replay-protection ledger) and appends to the
//! player's history. The ledger itself moves no funds: a successful
//! distribution or withdrawal returns a [`ledger::Transfer`] order, which the
//! surrounding environment hands to its token transfer service, committing
//! the new ledger state only if the transfer goes through.

pub mod keys;
pub mod laws;
pub mod ledger;
