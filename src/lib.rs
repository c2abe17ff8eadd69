//! A staking ledger: per-owner records of deposited items with a fixed
//! capacity, a global counter of all deposited items, an owner check that
//! guards every change, and a tiered reward computation.

pub mod error;
pub mod key;
pub mod account;
pub mod constants;
pub mod staking;
pub mod lemmas;
