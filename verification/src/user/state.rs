//! The state of an account, and what each operation makes of it.
//!
//! The venue decides how an attempt to buy or to sell ends. The functions of this module
//! say what becomes of an account for each way in which it can end.

use crate::exchange::api_credentials::ApiCredentials;
use crate::exchange::kucoin::exchange_info::KucoinPrecisionInfo;
use crate::exchange::kucoin::token_info::SymbolInfo;
use crate::exchange::order::{Order, INITIAL_ORDER_HEALTH};
use vstd::prelude::*;

verus! {

/// The failure budget of a new account.
pub const INITIAL_HEALTH: i8 = 10;

/// How one attempt to buy a symbol ended.
#[derive(Debug)]
pub enum BuyOutcome {
    /// The account holds no precision for the symbol, so nothing was sent.
    Unpriced,
    /// The venue took the order and returned this handle.
    Placed(Order),
    /// The venue refused the order.
    Refused,
}

/// How one attempt to sell an open position ended.
#[derive(Debug, PartialEq, Eq, Structural)]
pub enum SellOutcome {
    /// The size of the position could not be read.
    QueryFailed,
    /// The account holds no precision for the symbol, so no sell order was sent.
    Unpriced,
    /// The venue took the sell order.
    Sold,
    /// The venue refused the sell order.
    Refused,
}

/// What one settlement pass has met so far.
#[derive(Debug, PartialEq, Eq, Structural)]
pub struct SettleTally {
    /// The number of positions whose sell order was refused or could not be sent.
    pub errors: usize,
    /// Whether any position is left for a later pass to try again.
    pub retry: bool,
}

/// The state of an account, without its session.
pub struct UserState {
    pub credentials: ApiCredentials,
    pub balance: Seq<char>,
    pub precision: Map<Seq<char>, KucoinPrecisionInfo>,
    pub alive: bool,
    pub health: int,
    pub orders: Seq<Order>,
    pub all_sold: bool,
}

/// The test that cleanup applies to an order.
pub open spec fn is_alive() -> spec_fn(Order) -> bool {
    |o: Order| o.alive
}

/// The order as the registry admits it: the venue's handle, with a full budget.
pub open spec fn admitted(order: Order) -> Order {
    Order { health: INITIAL_ORDER_HEALTH, alive: true, ..order }
}

/// Whether `symbols` holds the pair that `order` trades.
pub open spec fn requested(order: Order, symbols: Seq<SymbolInfo>) -> bool {
    exists|k: int| 0 <= k < symbols.len() && #[trigger] symbols[k].symbol_with_pair@ == order.symbol@
}

/// Whether a settlement pass over `symbols` tries to sell `order`.
pub open spec fn due(order: Order, symbols: Seq<SymbolInfo>) -> bool {
    order.alive && requested(order, symbols)
}

/// Whether every position that a pass over `symbols` tries has a price to be offered at.
pub open spec fn priced(orders: Seq<Order>, symbols: Seq<SymbolInfo>) -> bool {
    forall|i: int, k: int|
        0 <= i < orders.len() && 0 <= k < symbols.len() && orders[i].alive
            && #[trigger] symbols[k].symbol_with_pair@ == (#[trigger] orders[i]).symbol@
            ==> symbols[k].price is Some
}

/// The order after an attempt to sell it: a failed query is charged to the order, a sale
/// retires it. A sell order that was refused or could not be sent is charged to the
/// account and leaves the order as it is.
pub open spec fn order_after(order: Order, outcome: SellOutcome) -> Order {
    match outcome {
        SellOutcome::QueryFailed => order.lowered(),
        SellOutcome::Unpriced => order,
        SellOutcome::Sold => order.retired(),
        SellOutcome::Refused => order,
    }
}

/// The registry after a pass over `symbols` in which the attempt on the order at `i`, where
/// one was due, ended as `outcomes[i]`. Nothing has been purged yet.
pub open spec fn attempted(
    orders: Seq<Order>,
    symbols: Seq<SymbolInfo>,
    outcomes: Seq<SellOutcome>,
) -> Seq<Order> {
    Seq::new(
        orders.len(),
        |i: int|
            if due(orders[i], symbols) {
                order_after(orders[i], outcomes[i])
            } else {
                orders[i]
            },
    )
}

/// Whether an attempt that ended as `outcome` is charged to the account.
pub open spec fn charged_to_account(outcome: SellOutcome) -> bool {
    outcome == SellOutcome::Refused || outcome == SellOutcome::Unpriced
}

/// The number of positions among the first `upto` whose sell order was refused or could
/// not be sent.
pub open spec fn sell_errors(
    orders: Seq<Order>,
    symbols: Seq<SymbolInfo>,
    outcomes: Seq<SellOutcome>,
    upto: nat,
) -> nat
    decreases upto,
{
    if upto == 0 {
        0
    } else {
        let i = upto - 1;
        let rest = sell_errors(orders, symbols, outcomes, i as nat);
        if due(orders[i], symbols) && charged_to_account(outcomes[i]) {
            rest + 1
        } else {
            rest
        }
    }
}

/// Whether any of the first `upto` positions is left for a later pass to try again.
pub open spec fn unfinished(
    orders: Seq<Order>,
    symbols: Seq<SymbolInfo>,
    outcomes: Seq<SellOutcome>,
    upto: nat,
) -> bool {
    exists|i: int|
        0 <= i < upto && due(#[trigger] orders[i], symbols) && outcomes[i] != SellOutcome::Sold
}

impl SettleTally {
    /// The tally of a pass that has tried nothing yet.
    pub fn new() -> (tally: SettleTally)
        ensures
            tally == (SettleTally { errors: 0, retry: false }),
    {
        SettleTally { errors: 0, retry: false }
    }

    /// The tally with one more attempt that ended as `outcome`.
    pub open spec fn with(self, outcome: SellOutcome) -> SettleTally {
        match outcome {
            SellOutcome::QueryFailed => SettleTally { retry: true, ..self },
            SellOutcome::Sold => self,
            SellOutcome::Unpriced | SellOutcome::Refused => SettleTally {
                errors: (self.errors + 1) as usize,
                retry: true,
            },
        }
    }

    /// Enters an attempt that ended as `outcome`.
    pub fn record(&mut self, outcome: &SellOutcome)
        requires
            old(self).errors < usize::MAX,
        ensures
            *final(self) == old(self).with(*outcome),
    {
        match outcome {
            SellOutcome::QueryFailed => {
                self.retry = true;
            },
            SellOutcome::Sold => {},
            SellOutcome::Unpriced | SellOutcome::Refused => {
                self.errors = self.errors + 1;
                self.retry = true;
            },
        }
    }
}

impl UserState {
    /// What holds of an account between any two operations: it is alive exactly while some
    /// health is left, its health never exceeds the initial budget, and an order that is
    /// alive has some health left.
    pub open spec fn inv(self) -> bool {
        &&& self.alive == (self.health > 0)
        &&& i8::MIN <= self.health <= INITIAL_HEALTH
        &&& forall|i: int|
            0 <= i < self.orders.len() ==> ((#[trigger] self.orders[i]).alive ==> 0
                < self.orders[i].health)
    }

    /// The state of an account that has just been opened with `balance` and the
    /// precision that the venue stated.
    pub open spec fn fresh(
        credentials: ApiCredentials,
        balance: Seq<char>,
        precision: Map<Seq<char>, KucoinPrecisionInfo>,
    ) -> UserState {
        UserState {
            credentials,
            balance,
            precision,
            alive: true,
            health: INITIAL_HEALTH as int,
            orders: Seq::empty(),
            all_sold: false,
        }
    }

    /// The state after `amount` failures have been charged to the account. Health that
    /// would fall below the least value it can take stays at that value.
    pub open spec fn lowered(self, amount: int) -> UserState {
        UserState {
            health: if self.health - amount < i8::MIN {
                i8::MIN as int
            } else {
                self.health - amount
            },
            alive: self.alive && self.health - amount > 0,
            ..self
        }
    }

    /// The state after `count` failures, each charged on its own.
    pub open spec fn after_failures(self, count: nat) -> UserState
        decreases count,
    {
        if count == 0 {
            self
        } else {
            self.after_failures((count - 1) as nat).lowered(1)
        }
    }

    /// The state after the registry has been purged of the orders that are not alive.
    pub open spec fn purged(self) -> UserState {
        UserState { orders: self.orders.filter(is_alive()), ..self }
    }

    /// Whether an attempt to buy the pair `pair` can end as `outcome`: it ends for want of
    /// a precision exactly where the account holds none for the pair.
    pub open spec fn buy_possible(self, pair: Seq<char>, outcome: BuyOutcome) -> bool {
        outcome is Unpriced <==> !self.precision.contains_key(pair)
    }

    /// Whether the attempts to buy `symbols`, in turn, can end as `outcomes`.
    pub open spec fn buys_possible(
        self,
        symbols: Seq<SymbolInfo>,
        outcomes: Seq<BuyOutcome>,
    ) -> bool {
        &&& outcomes.len() == symbols.len()
        &&& forall|i: int|
            0 <= i < symbols.len() ==> self.buy_possible(
                (#[trigger] symbols[i]).symbol_with_pair@,
                outcomes[i],
            )
    }

    /// The state after one attempt to buy: a dead account stays as it is; a live one
    /// admits the order that was placed, or is charged one failure where the order was
    /// refused or could not be sent.
    pub open spec fn after_buy(self, outcome: BuyOutcome) -> UserState {
        if !self.alive {
            self
        } else {
            match outcome {
                BuyOutcome::Unpriced => self.lowered(1),
                BuyOutcome::Placed(order) => UserState {
                    orders: self.orders.push(admitted(order)),
                    ..self
                },
                BuyOutcome::Refused => self.lowered(1),
            }
        }
    }

    /// The state after one attempt to buy for each outcome of `outcomes`, in turn.
    pub open spec fn after_buys(self, outcomes: Seq<BuyOutcome>) -> UserState
        decreases outcomes.len(),
    {
        if outcomes.len() == 0 {
            self
        } else {
            self.after_buys(outcomes.drop_last()).after_buy(outcomes.last())
        }
    }

    /// The state after the buy phase of a batch whose attempts ended as `outcomes`. A live
    /// account starts a new cycle, in which nothing counts as sold yet.
    pub open spec fn bought(self, outcomes: Seq<BuyOutcome>) -> UserState {
        if !self.alive {
            self
        } else {
            (UserState { all_sold: false, ..self }).after_buys(outcomes)
        }
    }

    /// The state after the attempt on the order at `i` ended as `outcome`.
    pub open spec fn after_sell(self, i: int, outcome: SellOutcome) -> UserState {
        UserState { orders: self.orders.update(i, order_after(self.orders[i], outcome)), ..self }
    }

    /// The state after a settlement pass has been closed with `tally`: its errors are
    /// charged to the account, and the account counts as sold exactly if the pass left
    /// nothing to try again; then the registry is purged.
    pub open spec fn closed(self, tally: SettleTally) -> UserState {
        let charged = if tally.errors > 0 {
            self.lowered(tally.errors as int)
        } else {
            self
        };
        (UserState { all_sold: tally.errors == 0 && !tally.retry, ..charged }).purged()
    }

    /// Whether the attempts of a settlement pass over `symbols` can end as `outcomes`: an
    /// attempt ends for want of a precision only where the account holds none for the
    /// pair, and where it holds none the attempt ends so, or at the query before.
    pub open spec fn sells_possible(
        self,
        symbols: Seq<SymbolInfo>,
        outcomes: Seq<SellOutcome>,
    ) -> bool {
        &&& outcomes.len() == self.orders.len()
        &&& forall|i: int|
            0 <= i < self.orders.len() && due(#[trigger] self.orders[i], symbols) ==> {
                if self.precision.contains_key(self.orders[i].symbol@) {
                    outcomes[i] != SellOutcome::Unpriced
                } else {
                    outcomes[i] == SellOutcome::Unpriced || outcomes[i]
                        == SellOutcome::QueryFailed
                }
            }
    }

    /// The state after a settlement pass over `symbols` in which the attempt on the order
    /// at `i`, where one was due, ended as `outcomes[i]`. A dead account stays as it is.
    pub open spec fn settled(
        self,
        symbols: Seq<SymbolInfo>,
        outcomes: Seq<SellOutcome>,
    ) -> UserState {
        if !self.alive {
            self
        } else {
            (UserState { orders: attempted(self.orders, symbols, outcomes), ..self }).closed(
                SettleTally {
                    errors: sell_errors(self.orders, symbols, outcomes, self.orders.len()) as usize,
                    retry: unfinished(self.orders, symbols, outcomes, self.orders.len()),
                },
            )
        }
    }

    /// Whether the account has nothing left to do in this cycle.
    pub open spec fn finished(self) -> bool {
        self.all_sold || !self.alive
    }

    /// The state after a refresh. Where a new session was opened, `precision` is what
    /// the venue stated through it, and replaces what the account held; where the balance
    /// was read, `balance` is its text, and replaces the old one. A refresh that did not
    /// get as far as the balance is charged to the account. Then the registry is purged.
    pub open spec fn refreshed(
        self,
        precision: Option<Map<Seq<char>, KucoinPrecisionInfo>>,
        balance: Option<Seq<char>>,
    ) -> UserState {
        let reopened = match precision {
            Some(p) => UserState { precision: p, ..self },
            None => self,
        };
        (match balance {
            Some(b) => UserState { balance: b, ..reopened },
            None => reopened.lowered(1),
        }).purged()
    }
}

/// Whether two orders are the same handle of the venue, whatever is left of their budget.
pub open spec fn same_handle(a: Order, b: Order) -> bool {
    &&& a.order_id == b.order_id
    &&& a.symbol == b.symbol
    &&& a.kind == b.kind
    &&& a.side == b.side
}

/// Whether every order of `later` is alive and is an order that was alive in `earlier`,
/// with no more health than it had there.
pub open spec fn only_survivors(earlier: Seq<Order>, later: Seq<Order>) -> bool {
    &&& later.len() <= earlier.len()
    &&& forall|j: int|
        0 <= j < later.len() ==> (#[trigger] later[j]).alive && exists|i: int|
            0 <= i < earlier.len() && (#[trigger] earlier[i]).alive && same_handle(
                earlier[i],
                later[j],
            ) && later[j].health <= earlier[i].health
}

/// Whether no attempt of a pass over `symbols` failed: every position that was due was
/// sold.
pub open spec fn clean(
    orders: Seq<Order>,
    symbols: Seq<SymbolInfo>,
    outcomes: Seq<SellOutcome>,
) -> bool {
    forall|i: int|
        0 <= i < orders.len() && due(#[trigger] orders[i], symbols) ==> outcomes[i]
            == SellOutcome::Sold
}

/// What is left of the budgets of a registry: the health of its orders that are alive.
pub open spec fn order_budget(orders: Seq<Order>) -> int
    decreases orders.len(),
{
    if orders.len() == 0 {
        0
    } else {
        order_budget(orders.drop_last()) + if orders.last().alive {
            orders.last().health as int
        } else {
            0
        }
    }
}

/// What is left of the budgets of an account: its health and that of its orders that are
/// alive. A dead account has nothing left.
pub open spec fn budget(state: UserState) -> int {
    if state.alive {
        state.health + order_budget(state.orders)
    } else {
        0
    }
}

} // verus!
