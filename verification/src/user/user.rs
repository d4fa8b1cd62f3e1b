//! One account of the pool: its session, its open positions, and its failure budget.
//!
//! An account buys each symbol of a batch and then, pass after pass, offers every open
//! position for sale. Each failure is charged to the budget of the order or of the
//! account; an account whose budget is spent is dead and does nothing more.

use crate::error::MintError;
use crate::exchange::an_exchange::AnExchange;
use crate::exchange::api_credentials::ApiCredentials;
use crate::exchange::kucoin::exchange_info::{
    get_exchange_info_kc, ExchangeInfo, KucoinPrecisionInfo,
};
use crate::exchange::kucoin::kucoin::{truncated, KucoinExchange};
use crate::exchange::kucoin::token_info::SymbolInfo;
use crate::exchange::order::{Order, OrderSide, INITIAL_ORDER_HEALTH};
use crate::user::laws::{
    lemma_open_position_keeps_pass_unfinished, lemma_purge_step, lemma_purged_orders_stay_out,
    lemma_sell_errors_prefix,
};
use crate::user::state::{
    attempted, due, is_alive, only_survivors, order_after, priced, sell_errors, unfinished,
    BuyOutcome, SellOutcome, SettleTally, UserState, INITIAL_HEALTH,
};
use vstd::prelude::*;
use vstd::seq_lib::*;

verus! {

/// One account: its credentials, its session at the venue, the precision that the venue
/// stated through it, and the state that the trading core keeps of it.
pub struct User<E: AnExchange> {
    balance: String,
    exchange: E,
    precision: KucoinExchange,
    api_credentials: ApiCredentials,
    alive: bool,
    health: i8,
    active_orders: Vec<Order>,
    all_sold: bool,
}

impl<E: AnExchange> View for User<E> {
    type V = UserState;

    closed spec fn view(&self) -> UserState {
        UserState {
            credentials: self.api_credentials,
            balance: self.balance@,
            precision: self.precision.exchange_info@,
            alive: self.alive,
            health: self.health as int,
            orders: self.active_orders@,
            all_sold: self.all_sold,
        }
    }
}

/// A market order, as it goes to the venue.
#[derive(Debug)]
pub struct MarketOrder {
    pub symbol: String,
    pub funds: String,
    pub side: OrderSide,
}

/// A limit order, as it goes to the venue.
#[derive(Debug)]
pub struct LimitOrder {
    pub symbol: String,
    pub quantity: String,
    pub price: String,
    pub side: OrderSide,
}

/// What an attempt to buy the symbol for `funds` sends to the venue: a market order for
/// the symbol's pair, with the funds cut to the decimals that the venue takes in a price
/// of the pair. Where `precision` holds nothing for the pair, nothing is sent and the
/// attempt has ended.
pub fn buy_plan(precision: &mut KucoinExchange, symbol_info: &SymbolInfo, funds: &str) -> (plan:
    Result<MarketOrder, BuyOutcome>)
    ensures
        *final(precision) == *old(precision),
        plan is Ok <==> old(precision).exchange_info@.contains_key(symbol_info.symbol_with_pair@),
        plan matches Ok(order) ==> {
            &&& order.symbol@ == symbol_info.symbol_with_pair@
            &&& order.funds@ == truncated(
                funds@,
                old(precision).exchange_info@[symbol_info.symbol_with_pair@].price_sig_digs as int,
            )
            &&& order.side == OrderSide::Buy
        },
        plan matches Err(outcome) ==> outcome is Unpriced,
{
    match precision.round_to_sig_digits_price(&symbol_info.symbol_with_pair, funds) {
        Ok(funds) => Ok(
            MarketOrder {
                symbol: symbol_info.symbol_with_pair.clone(),
                funds,
                side: OrderSide::Buy,
            },
        ),
        Err(_) => Err(BuyOutcome::Unpriced),
    }
}

/// How an attempt to buy ended, by the venue's answer to the order: the order was placed
/// where the venue returned its handle, and refused where the venue returned an error.
pub fn buy_outcome(answer: Result<Order, MintError>) -> (outcome: BuyOutcome)
    ensures
        outcome == (match answer {
            Ok(order) => BuyOutcome::Placed(order),
            Err(_) => BuyOutcome::Refused,
        }),
{
    match answer {
        Ok(order) => BuyOutcome::Placed(order),
        Err(_) => BuyOutcome::Refused,
    }
}

/// What an attempt to sell a position of the symbol sends to the venue, once the size of
/// the position has been asked for: a limit order for the symbol's pair, with the size
/// and the symbol's price cut to the decimals that the venue takes. Where the size could
/// not be read, or `precision` holds nothing for the pair, nothing is sent and the
/// attempt has ended.
pub fn sell_plan(
    precision: &mut KucoinExchange,
    symbol_info: &SymbolInfo,
    query: Result<String, MintError>,
) -> (plan: Result<LimitOrder, SellOutcome>)
    requires
        symbol_info.price is Some,
    ensures
        *final(precision) == *old(precision),
        plan is Ok <==> query is Ok && old(precision).exchange_info@.contains_key(
            symbol_info.symbol_with_pair@,
        ),
        plan matches Ok(order) ==> {
            &&& order.symbol@ == symbol_info.symbol_with_pair@
            &&& order.quantity@ == truncated(
                query->Ok_0@,
                old(precision).exchange_info@[symbol_info.symbol_with_pair@].base_sig_digs as int,
            )
            &&& order.price@ == truncated(
                symbol_info.price->Some_0@,
                old(precision).exchange_info@[symbol_info.symbol_with_pair@].price_sig_digs as int,
            )
            &&& order.side == OrderSide::Sell
        },
        plan matches Err(outcome) ==> outcome == (if query is Err {
            SellOutcome::QueryFailed
        } else {
            SellOutcome::Unpriced
        }),
{
    let quantity = match query {
        Ok(quantity) => quantity,
        Err(_) => {
            return Err(SellOutcome::QueryFailed);
        },
    };
    let price = match &symbol_info.price {
        Some(price) => price,
        None => {
            return Err(SellOutcome::Unpriced);
        },
    };
    let price = match precision.round_to_sig_digits_price(
        &symbol_info.symbol_with_pair,
        price.as_str(),
    ) {
        Ok(price) => price,
        Err(_) => {
            return Err(SellOutcome::Unpriced);
        },
    };
    let quantity = match precision.round_to_sig_digits_base(
        &symbol_info.symbol_with_pair,
        quantity.as_str(),
    ) {
        Ok(quantity) => quantity,
        Err(_) => {
            return Err(SellOutcome::Unpriced);
        },
    };
    Ok(
        LimitOrder {
            symbol: symbol_info.symbol_with_pair.clone(),
            quantity,
            price,
            side: OrderSide::Sell,
        },
    )
}

/// How an attempt to sell ended, by the venue's answer to the order: the position was
/// sold where the venue took the order, and the order was refused where the venue
/// returned an error.
pub fn sell_outcome(answer: Result<Order, MintError>) -> (outcome: SellOutcome)
    ensures
        outcome == (match answer {
            Ok(_) => SellOutcome::Sold,
            Err(_) => SellOutcome::Refused,
        }),
{
    match answer {
        Ok(_) => SellOutcome::Sold,
        Err(_) => SellOutcome::Refused,
    }
}

/// The first symbol of `symbols` that names the pair `pair`, if there is one.
pub fn find_symbol(symbols: &Vec<SymbolInfo>, pair: &String) -> (found: Option<usize>)
    ensures
        match found {
            Some(k) => {
                &&& k < symbols@.len()
                &&& symbols@[k as int].symbol_with_pair@ == pair@
                &&& forall|j: int| 0 <= j < k ==> (#[trigger] symbols@[j]).symbol_with_pair@ != pair@
            },
            None => forall|j: int|
                0 <= j < symbols@.len() ==> (#[trigger] symbols@[j]).symbol_with_pair@ != pair@,
        },
{
    let mut k: usize = 0;
    while k < symbols.len()
        invariant
            k <= symbols@.len(),
            forall|j: int| 0 <= j < k ==> (#[trigger] symbols@[j]).symbol_with_pair@ != pair@,
        decreases symbols@.len() - k,
    {
        if symbols[k].symbol_with_pair == *pair {
            return Some(k);
        }
        k += 1;
    }
    None
}

/// The table of a refresh, as the state holds it.
pub open spec fn table_view(table: Option<ExchangeInfo>) -> Option<
    Map<Seq<char>, KucoinPrecisionInfo>,
> {
    match table {
        Some(t) => Some(t@),
        None => None,
    }
}

/// The balance of a refresh, as the state holds it.
pub open spec fn balance_view(balance: Result<String, MintError>) -> Option<Seq<char>> {
    match balance {
        Ok(b) => Some(b@),
        Err(_) => None,
    }
}

impl<E: AnExchange> User<E> {
    /// An account with an open session, the precision that the venue stated through it
    /// and the balance that was read through it.
    pub fn from_session(
        api_credentials: ApiCredentials,
        exchange: E,
        precision: KucoinExchange,
        balance: String,
    ) -> (user: Self)
        ensures
            user@ == UserState::fresh(api_credentials, balance@, precision.exchange_info@),
            user@.inv(),
            user.session() == exchange,
    {
        User {
            balance,
            exchange,
            precision,
            api_credentials,
            alive: true,
            health: INITIAL_HEALTH,
            active_orders: Vec::new(),
            all_sold: false,
        }
    }

    /// Opens a session for `api_credentials`, asks the venue through it for the steps of
    /// its symbols, and reads the balance. A failure of any of the three is returned as
    /// it came; on success the account is new.
    pub fn new(api_credentials: ApiCredentials) -> (made: Result<Self, MintError>)
        ensures
            made matches Ok(user) ==> user@ == UserState::fresh(
                api_credentials,
                user@.balance,
                user@.precision,
            ) && user@.inv(),
    {
        let mut exchange = match E::new(api_credentials.clone()) {
            Ok(exchange) => exchange,
            Err(e) => {
                return Err(e);
            },
        };
        let listed = match exchange.refresh() {
            Ok(listed) => listed,
            Err(e) => {
                return Err(e);
            },
        };
        let precision = KucoinExchange { exchange_info: get_exchange_info_kc(&listed) };
        let balance = match exchange.get_denomination_balance() {
            Ok(balance) => balance,
            Err(e) => {
                return Err(e);
            },
        };
        Ok(User::from_session(api_credentials, exchange, precision, balance))
    }

    /// The credentials that the account was opened with.
    pub fn api_credentials(&self) -> (credentials: &ApiCredentials)
        ensures
            *credentials == self@.credentials,
    {
        &self.api_credentials
    }

    /// The session of the account.
    pub closed spec fn session(&self) -> E {
        self.exchange
    }

    /// The session of the account.
    pub fn exchange(&self) -> (exchange: &E)
        ensures
            *exchange == self.session(),
    {
        &self.exchange
    }

    /// The precision that the account holds for the venue's symbols.
    pub fn precision(&self) -> (precision: &KucoinExchange)
        ensures
            precision.exchange_info@ == self@.precision,
    {
        &self.precision
    }

    /// The balance that was last read, as decimal text.
    pub fn balance(&self) -> (balance: &String)
        ensures
            balance@ == self@.balance,
    {
        &self.balance
    }

    /// Whether the account still takes part.
    pub fn alive(&self) -> (alive: bool)
        ensures
            alive == self@.alive,
    {
        self.alive
    }

    /// What is left of the failure budget.
    pub fn health(&self) -> (health: i8)
        ensures
            health == self@.health,
    {
        self.health
    }

    /// Whether the last settlement pass left nothing to try again.
    pub fn all_sold(&self) -> (all_sold: bool)
        ensures
            all_sold == self@.all_sold,
    {
        self.all_sold
    }

    /// The registry of open positions.
    pub fn active_orders(&self) -> (orders: &Vec<Order>)
        ensures
            orders@ == self@.orders,
    {
        &self.active_orders
    }

    /// Charges `amount` failures to the account.
    fn charge(&mut self, amount: usize)
        ensures
            final(self)@ == old(self)@.lowered(amount as int),
            final(self).session() == old(self).session(),
    {
        if amount >= 256 {
            self.health = i8::MIN;
            self.alive = false;
        } else {
            let left: i16 = self.health as i16 - amount as i16;
            if left < i8::MIN as i16 {
                self.health = i8::MIN;
            } else {
                self.health = left as i8;
            }
            if left <= 0 {
                self.alive = false;
            }
        }
    }

    /// Charges `amount` failures to the account: it loses that much health, and is dead
    /// once none is left.
    pub fn lower_health(&mut self, amount: i8)
        requires
            0 <= amount,
        ensures
            final(self)@ == old(self)@.lowered(amount as int),
            final(self).session() == old(self).session(),
            old(self)@.inv() ==> final(self)@.inv(),
    {
        self.charge(amount as usize);
    }

    /// Takes in how a refresh ended. The table that was made of the venue's answer, where
    /// a new session was opened, replaces the precision that the account held; a balance
    /// that was read replaces the old one, and a balance that was not is charged to the
    /// account. Then the registry is purged.
    pub fn record_refresh(&mut self, table: Option<ExchangeInfo>, balance: Result<String, MintError>)
        requires
            old(self)@.inv(),
        ensures
            final(self)@ == old(self)@.refreshed(table_view(table), balance_view(balance)),
            final(self)@.inv(),
            final(self).session() == old(self).session(),
    {
        match table {
            Some(table) => {
                self.precision.exchange_info = table;
            },
            None => {},
        }
        match balance {
            Ok(b) => {
                self.balance = b;
            },
            Err(_) => {
                self.charge(1);
            },
        }
        self.remove_dead();
    }

    /// Opens a new session, asks the venue through it for the steps of its symbols, and
    /// reads the balance. A session that was opened and answered replaces the old one,
    /// and the precision with it. Where any of the three fails, one failure is charged to
    /// the account. Then the registry is purged.
    pub fn refresh(&mut self)
        requires
            old(self)@.inv(),
        ensures
            final(self)@.inv(),
            exists|
                precision: Option<Map<Seq<char>, KucoinPrecisionInfo>>,
                balance: Option<Seq<char>>,
            |
                (precision is None ==> balance is None) && final(self)@ == #[trigger] old(
                    self,
                )@.refreshed(precision, balance),
    {
        let ghost before = self@;
        match E::new(self.api_credentials.clone()) {
            Ok(exchange) => {
                let mut exchange = exchange;
                match exchange.refresh() {
                    Ok(listed) => {
                        let table = get_exchange_info_kc(&listed);
                        let balance = exchange.get_denomination_balance();
                        self.exchange = exchange;
                        self.record_refresh(Some(table), balance);
                        assert(self@ == before.refreshed(Some(table@), balance_view(balance)));
                    },
                    Err(e) => {
                        self.record_refresh(None, Err(e));
                        assert(self@ == before.refreshed(None, None));
                    },
                }
            },
            Err(e) => {
                self.record_refresh(None, Err(e));
                assert(self@ == before.refreshed(None, None));
            },
        }
    }

    /// Takes in how one attempt to buy ended.
    pub fn record_buy(&mut self, outcome: BuyOutcome)
        requires
            old(self)@.inv(),
        ensures
            final(self)@ == old(self)@.after_buy(outcome),
            final(self)@.inv(),
            final(self).session() == old(self).session(),
    {
        if !self.alive {
            return ;
        }
        match outcome {
            BuyOutcome::Placed(order) => {
                self.active_orders.push(
                    Order { health: INITIAL_ORDER_HEALTH, alive: true, ..order },
                );
            },
            BuyOutcome::Unpriced => {
                self.charge(1);
            },
            BuyOutcome::Refused => {
                self.charge(1);
            },
        }
    }

    /// Tries to buy the symbol for `funds`: where the account holds a precision for the
    /// pair, the order of [`buy_plan`] goes to the venue. The account's state is not
    /// touched.
    fn try_buy(&mut self, symbol_info: &SymbolInfo, funds: &str) -> (outcome: BuyOutcome)
        ensures
            final(self)@ == old(self)@,
            old(self)@.buy_possible(symbol_info.symbol_with_pair@, outcome),
            outcome is Unpriced ==> final(self).session() == old(self).session(),
    {
        match buy_plan(&mut self.precision, symbol_info, funds) {
            Ok(order) => buy_outcome(
                self.exchange.market_order(order.symbol, order.funds, order.side),
            ),
            Err(outcome) => outcome,
        }
    }

    /// Buys one symbol for `funds`, given as decimal text. A dead account does nothing and
    /// sends nothing. A live one that holds no precision for the pair sends nothing and is
    /// charged one failure; one that holds a precision sends the order of [`buy_plan`],
    /// and admits the order that the venue took or is charged one failure where the venue
    /// refused.
    pub fn buy_token(&mut self, symbol_info: &SymbolInfo, funds: &str)
        requires
            old(self)@.inv(),
        ensures
            final(self)@.inv(),
            exists|outcome: BuyOutcome|
                old(self)@.buy_possible(symbol_info.symbol_with_pair@, outcome) && final(self)@
                    == #[trigger] old(self)@.after_buy(outcome),
            !old(self)@.alive ==> final(self)@ == old(self)@ && final(self).session() == old(
                self,
            ).session(),
            old(self)@.alive && !old(self)@.precision.contains_key(symbol_info.symbol_with_pair@)
                ==> final(self)@ == old(self)@.lowered(1) && final(self).session() == old(
                self,
            ).session(),
            old(self)@.alive ==> final(self)@ == old(self)@.lowered(1) || (final(self)@.health
                == old(self)@.health && final(self)@.orders.len() == old(self)@.orders.len() + 1
                && final(self)@.orders.drop_last() == old(self)@.orders),
    {
        if !self.alive {
            proof {
                let outcome = if self@.precision.contains_key(symbol_info.symbol_with_pair@) {
                    BuyOutcome::Refused
                } else {
                    BuyOutcome::Unpriced
                };
                assert(self@ == old(self)@.after_buy(outcome));
            }
            return ;
        }
        let outcome = self.try_buy(symbol_info, funds);
        self.record_buy(outcome);
    }

    /// The buy phase of a batch: a live account starts a new cycle and buys each symbol in
    /// turn for `funds`; one symbol's failure does not keep the next from being tried.
    pub fn buy_tokens(&mut self, symbols: Vec<SymbolInfo>, funds: &str)
        requires
            old(self)@.inv(),
        ensures
            final(self)@.inv(),
            exists|outcomes: Seq<BuyOutcome>|
                old(self)@.buys_possible(symbols@, outcomes) && final(self)@ == #[trigger] old(
                    self,
                )@.bought(outcomes),
            !old(self)@.alive ==> final(self)@ == old(self)@ && final(self).session() == old(
                self,
            ).session(),
    {
        if !self.alive {
            proof {
                let outcomes = Seq::new(
                    symbols@.len(),
                    |i: int|
                        if self@.precision.contains_key(symbols@[i].symbol_with_pair@) {
                            BuyOutcome::Refused
                        } else {
                            BuyOutcome::Unpriced
                        },
                );
                assert(old(self)@.buys_possible(symbols@, outcomes));
                assert(self@ == old(self)@.bought(outcomes));
            }
            return ;
        }
        self.all_sold = false;
        let ghost start = self@;
        let ghost mut outcomes: Seq<BuyOutcome> = Seq::empty();
        let mut i: usize = 0;
        while i < symbols.len()
            invariant
                i <= symbols@.len(),
                outcomes.len() == i,
                self@ == start.after_buys(outcomes),
                self@.inv(),
                self@.precision == start.precision,
                forall|j: int|
                    0 <= j < i ==> start.buy_possible(
                        (#[trigger] symbols@[j]).symbol_with_pair@,
                        outcomes[j],
                    ),
            decreases symbols@.len() - i,
        {
            let ghost prev = self@;
            self.buy_token(&symbols[i], funds);
            proof {
                let outcome = choose|outcome: BuyOutcome|
                    prev.buy_possible(symbols@[i as int].symbol_with_pair@, outcome) && self@
                        == #[trigger] prev.after_buy(outcome);
                assert(outcomes.push(outcome).drop_last() =~= outcomes);
                outcomes = outcomes.push(outcome);
            }
            i += 1;
        }
        assert(old(self)@.buys_possible(symbols@, outcomes));
        assert(self@ == old(self)@.bought(outcomes));
    }

    /// Takes in how the attempt to sell the order at `i` ended: a failed query is charged
    /// to the order, a sale retires it.
    pub fn record_sell(&mut self, i: usize, outcome: &SellOutcome)
        requires
            old(self)@.inv(),
            i < old(self)@.orders.len(),
            old(self)@.orders[i as int].alive,
        ensures
            final(self)@ == old(self)@.after_sell(i as int, *outcome),
            final(self)@.inv(),
            final(self).session() == old(self).session(),
    {
        match outcome {
            SellOutcome::QueryFailed => {
                self.active_orders[i].lower_health();
            },
            SellOutcome::Unpriced => {},
            SellOutcome::Sold => {
                self.active_orders[i].alive = false;
            },
            SellOutcome::Refused => {},
        }
        assert(self@.orders =~= old(self)@.orders.update(
            i as int,
            order_after(old(self)@.orders[i as int], *outcome),
        ));
    }

    /// Tries to offer one open position of the symbol for sale: asks the venue for its
    /// size and, where [`sell_plan`] gives an order, sends it. The account's state is not
    /// touched.
    fn try_place_one_sell_limit(&mut self, symbol_info: &SymbolInfo) -> (outcome: SellOutcome)
        requires
            symbol_info.price is Some,
        ensures
            final(self)@ == old(self)@,
            if old(self)@.precision.contains_key(symbol_info.symbol_with_pair@) {
                outcome != SellOutcome::Unpriced
            } else {
                outcome == SellOutcome::Unpriced || outcome == SellOutcome::QueryFailed
            },
    {
        let query = self.exchange.get_balance_of(symbol_info.symbol.as_str());
        match sell_plan(&mut self.precision, symbol_info, query) {
            Ok(order) => sell_outcome(
                self.exchange.limit_order(order.symbol, order.quantity, order.price, order.side),
            ),
            Err(outcome) => outcome,
        }
    }

    /// Closes a settlement pass: the errors that `tally` counts are charged to the
    /// account, and the account counts as sold exactly if the pass left nothing to try
    /// again. Then the registry is purged. Returns whether the account has nothing left
    /// to do.
    pub fn close_pass(&mut self, tally: SettleTally) -> (finished: bool)
        requires
            old(self)@.inv(),
        ensures
            final(self)@ == old(self)@.closed(tally),
            final(self)@.inv(),
            final(self).session() == old(self).session(),
            finished == final(self)@.finished(),
    {
        if tally.errors > 0 {
            self.charge(tally.errors);
        }
        self.all_sold = tally.errors == 0 && !tally.retry;
        self.remove_dead();
        self.all_sold || !self.alive
    }

    /// One settlement pass. A dead account is finished at once: nothing of it changes and
    /// nothing is sent. A live one tries to sell every open position whose pair is among
    /// `symbols`, each once, and then closes the pass. Returns whether the account has
    /// nothing left to do.
    pub fn try_place_sell_limit(&mut self, symbols: &Vec<SymbolInfo>) -> (finished: bool)
        requires
            old(self)@.inv(),
            old(self)@.alive ==> priced(old(self)@.orders, symbols@),
        ensures
            final(self)@.inv(),
            exists|outcomes: Seq<SellOutcome>|
                old(self)@.sells_possible(symbols@, outcomes) && final(self)@ == #[trigger] old(
                    self,
                )@.settled(symbols@, outcomes),
            finished == final(self)@.finished(),
            !old(self)@.alive ==> finished && final(self)@ == old(self)@ && final(self).session()
                == old(self).session(),
            old(self)@.alive ==> only_survivors(old(self)@.orders, final(self)@.orders),
            final(self)@.health <= old(self)@.health,
            final(self)@.alive && finished ==> forall|j: int|
                0 <= j < final(self)@.orders.len() ==> !due(
                    #[trigger] final(self)@.orders[j],
                    symbols@,
                ),
    {
        if !self.alive {
            proof {
                let outcomes = Seq::new(
                    old(self)@.orders.len(),
                    |i: int|
                        if self@.precision.contains_key(self@.orders[i].symbol@) {
                            SellOutcome::Sold
                        } else {
                            SellOutcome::Unpriced
                        },
                );
                assert(old(self)@.sells_possible(symbols@, outcomes));
                assert(self@ == old(self)@.settled(symbols@, outcomes));
            }
            return true;
        }
        let ghost start = self@;
        let ghost mut outcomes: Seq<SellOutcome> = Seq::empty();
        let mut tally = SettleTally::new();
        let mut i: usize = 0;
        while i < self.active_orders.len()
            invariant
                i <= start.orders.len() == self@.orders.len(),
                outcomes.len() == i,
                self@ == (UserState { orders: self@.orders, ..start }),
                forall|j: int|
                    0 <= j < i ==> #[trigger] self@.orders[j] == (if due(start.orders[j], symbols@) {
                        order_after(start.orders[j], outcomes[j])
                    } else {
                        start.orders[j]
                    }),
                forall|j: int| i <= j < start.orders.len() ==> #[trigger] self@.orders[j] == start.orders[j],
                forall|j: int|
                    0 <= j < i && due(#[trigger] start.orders[j], symbols@) ==> {
                        if start.precision.contains_key(start.orders[j].symbol@) {
                            outcomes[j] != SellOutcome::Unpriced
                        } else {
                            outcomes[j] == SellOutcome::Unpriced || outcomes[j]
                                == SellOutcome::QueryFailed
                        }
                    },
                tally.errors == sell_errors(start.orders, symbols@, outcomes, i as nat),
                tally.retry == unfinished(start.orders, symbols@, outcomes, i as nat),
                tally.errors <= i,
                self@.inv(),
                start.alive,
                priced(start.orders, symbols@),
            decreases start.orders.len() - i,
        {
            let mut outcome = SellOutcome::Sold;
            if self.active_orders[i].alive {
                match find_symbol(symbols, &self.active_orders[i].symbol) {
                    Some(k) => {
                        outcome = self.try_place_one_sell_limit(&symbols[k]);
                        self.record_sell(i, &outcome);
                        tally.record(&outcome);
                    },
                    None => {},
                }
            }
            proof {
                let prev = outcomes;
                outcomes = outcomes.push(outcome);
                lemma_sell_errors_prefix(start.orders, symbols@, prev, outcomes, i as nat);
                if unfinished(start.orders, symbols@, prev, i as nat) {
                    let j = choose|j: int|
                        0 <= j < i && due(#[trigger] start.orders[j], symbols@) && prev[j]
                            != SellOutcome::Sold;
                    assert(outcomes[j] == prev[j]);
                }
                if unfinished(start.orders, symbols@, outcomes, (i + 1) as nat) && !tally.retry {
                    let j = choose|j: int|
                        0 <= j < i + 1 && due(#[trigger] start.orders[j], symbols@) && outcomes[j]
                            != SellOutcome::Sold;
                    assert(j < i);
                    assert(outcomes[j] == prev[j]);
                }
            }
            i += 1;
        }
        proof {
            assert(self@.orders =~= attempted(start.orders, symbols@, outcomes));
        }
        let finished = self.close_pass(tally);
        assert(old(self)@.sells_possible(symbols@, outcomes));
        assert(self@ == old(self)@.settled(symbols@, outcomes));
        proof {
            lemma_purged_orders_stay_out(start, symbols@, outcomes, None, None);
            if self@.alive && finished {
                assert forall|j: int| 0 <= j < self@.orders.len() implies !due(
                    #[trigger] self@.orders[j],
                    symbols@,
                ) by {
                    if due(self@.orders[j], symbols@) {
                        lemma_open_position_keeps_pass_unfinished(start, symbols@, outcomes, j);
                    }
                }
            }
        }
        finished
    }

    /// Purges the registry of the orders that are not alive. The others stay in order.
    pub fn remove_dead(&mut self)
        ensures
            final(self)@ == old(self)@.purged(),
            old(self)@.inv() ==> final(self)@.inv(),
            final(self).session() == old(self).session(),
    {
        let ghost before = self.active_orders@;
        let mut orders: Vec<Order> = Vec::new();
        std::mem::swap(&mut self.active_orders, &mut orders);
        proof {
            assert(before.take(0).filter(is_alive()) =~= Seq::<Order>::empty()) by {
                reveal(Seq::filter);
            }
        }
        for order in it: orders
            invariant
                it.seq() == before,
                self.session() == old(self).session(),
                self.active_orders@ == before.take(it.index() as int).filter(is_alive()),
                self@ == (UserState { orders: self.active_orders@, ..old(self)@ }),
        {
            proof {
                lemma_purge_step(before, it.index() as int);
            }
            if order.alive {
                self.active_orders.push(order);
            }
        }
        proof {
            assert(before.take(before.len() as int) =~= before);
            if old(self)@.inv() {
                let kept = before.filter(is_alive());
                assert forall|j: int| 0 <= j < kept.len() && (#[trigger] kept[j]).alive implies 0
                    < kept[j].health by {
                    before.lemma_filter_contains_rev(is_alive(), kept[j]);
                }
            }
        }
    }
}

} // verus!
