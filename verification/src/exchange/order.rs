//! Orders and their failure budget.

use vstd::prelude::*;
use vstd::string::*;

verus! {

/// The failure budget of an order that the venue has just taken.
pub const INITIAL_ORDER_HEALTH: i8 = 5;

/// How an order is priced.
#[derive(Debug, PartialEq, Eq, Structural)]
pub enum OrderKind {
    Market,
    Limit,
}

impl OrderKind {
    /// The word by which the venue knows the kind.
    pub open spec fn text(self) -> Seq<char> {
        match self {
            OrderKind::Market => "market"@,
            OrderKind::Limit => "limit"@,
        }
    }

    /// The word by which the venue knows the kind.
    pub fn to_string(&self) -> (word: String)
        ensures
            word@ == self.text(),
    {
        match self {
            OrderKind::Market => String::from_str("market"),
            OrderKind::Limit => String::from_str("limit"),
        }
    }
}

impl Clone for OrderKind {
    fn clone(&self) -> (copy: OrderKind)
        ensures
            copy == *self,
    {
        match self {
            OrderKind::Market => OrderKind::Market,
            OrderKind::Limit => OrderKind::Limit,
        }
    }
}

/// The side of the book an order sits on.
#[derive(Debug, PartialEq, Eq, Structural)]
pub enum OrderSide {
    Buy,
    Sell,
}

impl OrderSide {
    /// The word by which the venue knows the side.
    pub open spec fn text(self) -> Seq<char> {
        match self {
            OrderSide::Buy => "buy"@,
            OrderSide::Sell => "sell"@,
        }
    }

    /// The word by which the venue knows the side.
    pub fn to_string(&self) -> (word: String)
        ensures
            word@ == self.text(),
    {
        match self {
            OrderSide::Buy => String::from_str("buy"),
            OrderSide::Sell => String::from_str("sell"),
        }
    }
}

impl Clone for OrderSide {
    fn clone(&self) -> (copy: OrderSide)
        ensures
            copy == *self,
    {
        match self {
            OrderSide::Buy => OrderSide::Buy,
            OrderSide::Sell => OrderSide::Sell,
        }
    }
}

/// An open position: the venue's handle for an order, with a failure budget.
///
/// `alive` is cleared when the position has been handed on, or when `health` falls to zero
/// or below; it is never set again.
#[derive(Debug)]
pub struct Order {
    pub order_id: String,
    pub symbol: String,
    pub kind: Option<OrderKind>,
    pub side: Option<OrderSide>,
    pub health: i8,
    pub alive: bool,
}

impl Order {
    /// The order after one failure: one unit of health is gone, and the order is alive only
    /// if it was alive and some health is left.
    pub open spec fn lowered(self) -> Order {
        Order {
            health: (self.health - 1) as i8,
            alive: self.alive && self.health - 1 > 0,
            ..self
        }
    }

    /// The order once its position has been handed on.
    pub open spec fn retired(self) -> Order {
        Order { alive: false, ..self }
    }

    /// Charges one failure to the order.
    pub fn lower_health(&mut self)
        requires
            old(self).health > i8::MIN,
        ensures
            *final(self) == old(self).lowered(),
    {
        self.health -= 1;
        if self.health <= 0 {
            self.alive = false;
        }
    }
}

impl Clone for Order {
    fn clone(&self) -> (copy: Order)
        ensures
            copy == *self,
    {
        Order {
            order_id: self.order_id.clone(),
            symbol: self.symbol.clone(),
            kind: match &self.kind {
                Some(k) => Some(k.clone()),
                None => None,
            },
            side: match &self.side {
                Some(s) => Some(s.clone()),
                None => None,
            },
            health: self.health,
            alive: self.alive,
        }
    }
}

} // verus!
