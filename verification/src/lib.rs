//! A bank ledger processor: accounts with guarded balances, a queue of
//! pending operations, and the rules by which workers apply them.

pub mod account;
pub mod bank;
pub mod ledger;
pub mod laws;
pub mod parse;
