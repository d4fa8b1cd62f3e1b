//! The core of a trading bot that buys a batch of symbols on every account of a pool and
//! then offers each position for sale at a marked-up price, demoting accounts and orders
//! that keep failing.

pub mod error;
pub mod exchange;
pub mod user;
pub mod utils;
