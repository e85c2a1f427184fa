//! Reconciles a bank account's movements and balance into a personal-finance ledger.

pub mod ledger;
pub mod money;
pub mod provider;
pub mod sync;
pub mod text;
pub mod time;
