//! A verified ledger-based balance tracker.
//!
//! Per-account monetary balances are derived from an append-only sequence of
//! signed ledger entries (deposits and withdrawals). The library enforces that
//! a balance never goes negative and that each ledger entry is applied at most
//! once; balances are always recomputed from the full entry history rather
//! than cached. A concurrency-safe account store guards the account map with a
//! single reader/writer lock.

pub mod amount;
pub mod balance;
pub mod ledger;
pub mod storage;
