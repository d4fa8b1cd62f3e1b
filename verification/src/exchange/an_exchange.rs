//! The capability that an account needs of its venue.

use crate::error::MintError;
use crate::exchange::api_credentials::ApiCredentials;
use crate::exchange::kucoin::exchange_info::SymbolIncrements;
use crate::exchange::order::{Order, OrderSide};
use vstd::prelude::*;

verus! {

/// A session with a venue, for one account.
///
/// Amounts cross this boundary as decimal text, and every amount that goes out has been
/// cut to the venue's precision before. Nothing is promised of what a method returns: the
/// trading core is verified for every answer.
pub trait AnExchange: Sized {
    /// Opens a session for the account that `api_credentials` names.
    fn new(api_credentials: ApiCredentials) -> Result<Self, MintError>;

    /// The tradeable balance of `symbol`.
    fn get_balance_of(&mut self, symbol: &str) -> Result<String, MintError>;

    /// The tradeable balance of the denomination.
    fn get_denomination_balance(&mut self) -> Result<String, MintError>;

    /// Reloads what the venue states of its symbols: for each the steps of its quantity
    /// and of its price.
    fn refresh(&mut self) -> Result<Vec<SymbolIncrements>, MintError>;

    /// Places a resting order for `quantity` of `symbol` at `price`.
    fn limit_order(
        &mut self,
        symbol: String,
        quantity: String,
        price: String,
        side: OrderSide,
    ) -> Result<Order, MintError>;

    /// Places an immediate order that spends `funds` on `symbol`.
    fn market_order(&mut self, symbol: String, funds: String, side: OrderSide) -> Result<
        Order,
        MintError,
    >;

    /// Cancels the open orders of `symbol`.
    fn cancel_open_orders(&mut self, symbol: String) -> Result<(), MintError>;
}

} // verus!
