//! The venue that the trading core was written for.

pub mod exchange_info;
pub mod kucoin;
pub mod token_info;
