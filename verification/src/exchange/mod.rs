//! What the trading core knows of a venue.

pub mod an_exchange;
pub mod api_credentials;
pub mod kucoin;
pub mod order;
