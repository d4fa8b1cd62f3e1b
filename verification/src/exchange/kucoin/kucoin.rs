//! What the trading core computes for the venue: amounts cut to the venue's precision,
//! answers unwrapped, and the handles of the orders that the venue took.
//!
//! Amounts are decimal text. An amount is cut, never rounded: the characters behind the
//! decimals that the venue takes are dropped.

use crate::error::MintError;
use crate::exchange::kucoin::exchange_info::{
    decimals_start, has_point, lemma_point_is_unique, not_point, point_at, sig_digits,
    ExchangeInfo, KucoinPrecisionInfo,
};
use crate::exchange::order::{Order, OrderKind, OrderSide, INITIAL_ORDER_HEALTH};
use vstd::prelude::*;
use vstd::string::*;

verus! {

/// The currency in which balances and prices are counted.
pub const DENOMINATION: &'static str = "BTC";

/// `text`, cut behind `digits` characters after its first decimal point. A text with no
/// more characters than that behind the point, or with no point, is left as it is; so is
/// every text where `digits` is negative.
pub open spec fn truncated(text: Seq<char>, digits: int) -> Seq<char> {
    if digits < 0 || text.len() - decimals_start(text) <= digits {
        text
    } else {
        text.take(decimals_start(text) + digits)
    }
}

/// The message of the error for a symbol that the venue has stated no precision for.
pub open spec fn no_info_message(symbol: Seq<char>) -> Seq<char> {
    "Could not get info for symbol "@ + symbol
}

/// The message of the error for an answer that holds no data.
pub open spec fn no_data_message(msg: Option<Seq<char>>) -> Seq<char> {
    match msg {
        Some(msg) => "Error in unwrap_data!\n"@ + msg,
        None => "Didn't get any data in unwrap_data!"@,
    }
}

/// The index behind the first decimal point of `text`, or its length where it holds none.
fn find_decimals_start(text: &str) -> (start: usize)
    ensures
        start == decimals_start(text@),
        start <= text@.len(),
        has_point(text@) ==> start >= 1 && point_at(text@, start - 1),
{
    let len = text.unicode_len();
    let mut i: usize = 0;
    for c in it: text.chars()
        invariant
            it.seq() == text@,
            len == text@.len(),
            i == it.index(),
            forall|j: int| 0 <= j < i ==> text@[j] != '.',
    {
        i += 1;
        if c == '.' {
            proof {
                lemma_point_is_unique(text@, i - 1);
            }
            return i;
        }
    }
    assert(!has_point(text@));
    i
}

/// Cutting is idempotent: a text that has been cut to `digits` decimals is not changed by
/// cutting it to `digits` decimals again.
pub proof fn lemma_truncated_idempotent(text: Seq<char>, digits: int)
    ensures
        truncated(truncated(text, digits), digits) == truncated(text, digits),
{
    let start = decimals_start(text);
    if !(digits < 0 || text.len() - start <= digits) {
        let cut = text.take(start + digits);
        assert(has_point(text));
        let p = choose|i: int| point_at(text, i);
        assert(point_at(cut, p));
        lemma_point_is_unique(cut, p);
    }
}

/// Cutting never leaves more decimals than were asked for: behind the first decimal
/// point of a text cut to `digits` decimals stand at most `digits` characters, and so at
/// most `digits` digits.
pub proof fn lemma_truncated_bounds_decimals(text: Seq<char>, digits: int)
    requires
        digits >= 0,
    ensures
        truncated(text, digits).len() - decimals_start(truncated(text, digits)) <= digits,
        sig_digits(truncated(text, digits)) <= digits,
        sig_digits(truncated(text, digits)) <= sig_digits(text),
        truncated(text, digits).is_prefix_of(text),
{
    let start = decimals_start(text);
    let cut = truncated(text, digits);
    if text.len() - start <= digits {
        if has_point(text) {
            let p = choose|i: int| point_at(text, i);
        }
    } else {
        assert(has_point(text));
        let p = choose|i: int| point_at(text, i);
        assert(point_at(cut, p));
        lemma_point_is_unique(cut, p);
        assert(cut.skip(start) =~= text.skip(start).take(digits));
        lemma_filter_prefix(text.skip(start), digits);
    }
    cut.skip(decimals_start(cut)).lemma_filter_len(not_point());
}

/// A prefix of a text holds no more digits than the text.
proof fn lemma_filter_prefix(text: Seq<char>, n: int)
    requires
        0 <= n <= text.len(),
    ensures
        text.take(n).filter(not_point()).len() <= text.filter(not_point()).len(),
    decreases text.len() - n,
{
    reveal(Seq::filter);
    if n < text.len() {
        assert(text.take(n + 1).drop_last() =~= text.take(n));
        lemma_filter_prefix(text, n + 1);
    } else {
        assert(text.take(n) =~= text);
    }
}

/// The part of a session with the venue that needs no connection: the precision that
/// the venue has stated for its symbols.
pub struct KucoinExchange {
    pub exchange_info: ExchangeInfo,
}

impl KucoinExchange {
    /// The text of an amount, cut to `sig_digits` decimals.
    pub fn round_to_sig(price: &str, sig_digits: i8) -> (cut: Result<String, MintError>)
        ensures
            cut matches Ok(text) && text@ == truncated(price@, sig_digits as int),
    {
        let len = price.unicode_len();
        let i = find_decimals_start(price);
        if sig_digits < 0 || len - i <= sig_digits as usize {
            return Ok(String::from_str(price));
        }
        let sig_digits = sig_digits as usize;
        Ok(String::from_str(price.substring_char(0, sig_digits + i)))
    }

    /// The precision that the venue takes for `symbol`, or the error that says that the
    /// venue has stated none.
    fn info_for(&self, symbol: &String) -> (info: Result<KucoinPrecisionInfo, MintError>)
        ensures
            info is Ok <==> self.exchange_info@.contains_key(symbol@),
            info matches Ok(p) ==> p == self.exchange_info@[symbol@],
            info matches Err(e) ==> e matches MintError::Other(m) && m.text() == no_info_message(
                symbol@,
            ),
    {
        match self.exchange_info.get(symbol) {
            Some(info) => Ok(info),
            None => {
                let mut msg = String::from_str("Could not get info for symbol ");
                msg.append(symbol.as_str());
                Err(MintError::from_str(msg))
            },
        }
    }

    /// The text of a price of `symbol`, cut to the decimals that the venue takes in one.
    /// A symbol that the venue has stated no precision for is an error.
    pub fn round_to_sig_digits_price(&mut self, symbol: &String, val: &str) -> (cut: Result<
        String,
        MintError,
    >)
        ensures
            *final(self) == *old(self),
            cut is Ok <==> old(self).exchange_info@.contains_key(symbol@),
            cut matches Ok(text) ==> text@ == truncated(
                val@,
                old(self).exchange_info@[symbol@].price_sig_digs as int,
            ),
            cut matches Err(e) ==> e matches MintError::Other(m) && m.text() == no_info_message(
                symbol@,
            ),
    {
        let price_sig_digits = match self.info_for(symbol) {
            Ok(info) => info.price_sig_digs,
            Err(e) => {
                return Err(e);
            },
        };
        KucoinExchange::round_to_sig(val, price_sig_digits)
    }

    /// The text of a quantity of `symbol`, cut to the decimals that the venue takes in
    /// one. A symbol that the venue has stated no precision for is an error.
    pub fn round_to_sig_digits_base(&mut self, symbol: &String, val: &str) -> (cut: Result<
        String,
        MintError,
    >)
        ensures
            *final(self) == *old(self),
            cut is Ok <==> old(self).exchange_info@.contains_key(symbol@),
            cut matches Ok(text) ==> text@ == truncated(
                val@,
                old(self).exchange_info@[symbol@].base_sig_digs as int,
            ),
            cut matches Err(e) ==> e matches MintError::Other(m) && m.text() == no_info_message(
                symbol@,
            ),
    {
        let quantity_sig_digits = match self.info_for(symbol) {
            Ok(info) => info.base_sig_digs,
            Err(e) => {
                return Err(e);
            },
        };
        KucoinExchange::round_to_sig(val, quantity_sig_digits)
    }

    /// The data of an answer of the venue, or the error that says that it holds none,
    /// with the venue's message where it sent one.
    pub fn unwrap_data<T>(data: Option<T>, msg: Option<String>) -> (unwrapped: Result<T, MintError>)
        ensures
            match data {
                Some(d) => unwrapped == Ok::<T, MintError>(d),
                None => unwrapped matches Err(MintError::Other(m)) && m.text() == no_data_message(
                    match msg {
                        Some(msg) => Some(msg@),
                        None => None,
                    },
                ),
            },
    {
        match data {
            Some(d) => Ok(d),
            None => {
                let text = match msg {
                    Some(msg) => {
                        let mut text = String::from_str("Error in unwrap_data!\n");
                        text.append(msg.as_str());
                        text
                    },
                    None => String::from_str("Didn't get any data in unwrap_data!"),
                };
                Err(MintError::from_str(text))
            },
        }
    }

    /// The handle of an order that the venue took: alive, with a full budget.
    pub fn order_placed(symbol: String, order_id: String, kind: OrderKind, side: OrderSide) -> (order:
        Order)
        ensures
            order == (Order {
                order_id,
                symbol,
                kind: Some(kind),
                side: Some(side),
                health: INITIAL_ORDER_HEALTH,
                alive: true,
            }),
    {
        Order {
            symbol,
            order_id,
            kind: Some(kind),
            side: Some(side),
            health: INITIAL_ORDER_HEALTH,
            alive: true,
        }
    }
}

} // verus!
