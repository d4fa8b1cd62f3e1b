use mint_trader::error::MintError;
use mint_trader::exchange::kucoin::exchange_info::{
    count_sig_digits, get_exchange_info_kc, get_one_symbol_info_kc, num_sig_digits, ExchangeInfo,
    KucoinPrecisionInfo, SymbolIncrements,
};
use mint_trader::exchange::kucoin::kucoin::{KucoinExchange, DENOMINATION};
use mint_trader::exchange::kucoin::token_info::{
    make_token_info_vec, pair_with_denomination, prep_symbol_for_kucoin,
};
use mint_trader::exchange::order::{Order, OrderKind, OrderSide};

fn increments(symbol: &str, base: &str, price: &str) -> SymbolIncrements {
    SymbolIncrements {
        symbol: symbol.to_string(),
        base_increment: base.to_string(),
        price_increment: price.to_string(),
    }
}

fn cut(text: &str, digits: i8) -> String {
    KucoinExchange::round_to_sig(text, digits).expect("cutting does not fail")
}

fn message(e: MintError) -> String {
    let mut e = e;
    e.get_fmt_error()
}

#[test]
fn order_loses_one_health_at_a_time() {
    let mut order = KucoinExchange::order_placed(
        "ETH-BTC".to_string(),
        "id-1".to_string(),
        OrderKind::Market,
        OrderSide::Buy,
    );
    assert_eq!(order.health, 5);
    assert!(order.alive);
    for left in [4, 3, 2, 1] {
        order.lower_health();
        assert_eq!(order.health, left);
        assert!(order.alive);
    }
    order.lower_health();
    assert_eq!(order.health, 0);
    assert!(!order.alive);
    order.lower_health();
    assert_eq!(order.health, -1);
    assert!(!order.alive);
    assert_eq!(order.order_id, "id-1");
    assert_eq!(order.symbol, "ETH-BTC");
}

#[test]
fn retired_order_stays_retired() {
    let mut order = Order {
        order_id: "id".to_string(),
        symbol: "ETH-BTC".to_string(),
        kind: None,
        side: None,
        health: 5,
        alive: false,
    };
    order.lower_health();
    assert_eq!(order.health, 4);
    assert!(!order.alive);
    let copy = order.clone();
    assert_eq!(copy.order_id, "id");
    assert_eq!(copy.symbol, "ETH-BTC");
    assert_eq!(copy.kind, None);
    assert_eq!(copy.side, None);
    assert_eq!((copy.health, copy.alive), (4, false));
}

#[test]
fn order_placed_keeps_what_it_is_given() {
    let order = KucoinExchange::order_placed(
        "XMR-BTC".to_string(),
        "id-9".to_string(),
        OrderKind::Limit,
        OrderSide::Sell,
    );
    assert_eq!(order.symbol, "XMR-BTC");
    assert_eq!(order.order_id, "id-9");
    assert_eq!(order.kind, Some(OrderKind::Limit));
    assert_eq!(order.side, Some(OrderSide::Sell));
}

#[test]
fn kinds_and_sides_have_the_words_of_the_venue() {
    assert_eq!(OrderKind::Market.to_string(), "market");
    assert_eq!(OrderKind::Limit.to_string(), "limit");
    assert_eq!(OrderSide::Buy.to_string(), "buy");
    assert_eq!(OrderSide::Sell.to_string(), "sell");
    assert_eq!(OrderKind::Limit.clone(), OrderKind::Limit);
    assert_eq!(OrderSide::Sell.clone(), OrderSide::Sell);
}

#[test]
fn decimals_of_a_step_are_counted_behind_the_point() {
    assert_eq!(num_sig_digits("0.0001".to_string()), 4);
    assert_eq!(num_sig_digits("0.00000001".to_string()), 8);
    assert_eq!(num_sig_digits("1".to_string()), 0);
    assert_eq!(num_sig_digits("1.".to_string()), 0);
    assert_eq!(num_sig_digits(".5".to_string()), 1);
    assert_eq!(num_sig_digits("".to_string()), 0);
    assert_eq!(num_sig_digits("1.2.3".to_string()), 2);
    assert_eq!(num_sig_digits("10.50".to_string()), 2);
    assert_eq!(count_sig_digits("0.001"), 3);
    let long = format!("0.{}", "0".repeat(127));
    assert_eq!(num_sig_digits(long.clone()), 127);
    assert_eq!(count_sig_digits(&format!("{}0", long)), 128);
}

#[test]
fn precision_of_a_symbol_is_that_of_its_steps() {
    let info = get_one_symbol_info_kc(&increments("ETH-BTC", "0.0001", "0.000001"))
        .expect("the steps can be counted");
    assert_eq!(info, KucoinPrecisionInfo { base_sig_digs: 4, price_sig_digs: 6 });
    let info = get_one_symbol_info_kc(&increments("XMR-BTC", "1", "0.1")).unwrap();
    assert_eq!(info, KucoinPrecisionInfo { base_sig_digs: 0, price_sig_digs: 1 });
}

#[test]
fn step_with_too_many_decimals_is_an_error() {
    let long = format!("0.{}", "0".repeat(128));
    let e = get_one_symbol_info_kc(&increments("ETH-BTC", &long, "0.1")).unwrap_err();
    assert_eq!(message(e), "Too many decimals in the increments of ETH-BTC");
    assert!(get_one_symbol_info_kc(&increments("ETH-BTC", "0.1", &long)).is_err());
    let fits = format!("0.{}", "0".repeat(127));
    assert!(get_one_symbol_info_kc(&increments("ETH-BTC", &fits, &fits)).is_ok());
}

#[test]
fn table_holds_the_last_entry_of_a_symbol() {
    let mut table = ExchangeInfo::new();
    assert_eq!(table.get(&"ETH-BTC".to_string()), None);
    table.insert("ETH-BTC".to_string(), KucoinPrecisionInfo { base_sig_digs: 1, price_sig_digs: 2 });
    table.insert("XMR-BTC".to_string(), KucoinPrecisionInfo { base_sig_digs: 3, price_sig_digs: 4 });
    table.insert("ETH-BTC".to_string(), KucoinPrecisionInfo { base_sig_digs: 5, price_sig_digs: 6 });
    assert_eq!(
        table.get(&"ETH-BTC".to_string()),
        Some(KucoinPrecisionInfo { base_sig_digs: 5, price_sig_digs: 6 })
    );
    assert_eq!(
        table.get(&"XMR-BTC".to_string()),
        Some(KucoinPrecisionInfo { base_sig_digs: 3, price_sig_digs: 4 })
    );
    assert_eq!(table.get(&"LTC-BTC".to_string()), None);
}

#[test]
fn exchange_info_passes_over_what_cannot_be_counted() {
    let long = format!("0.{}", "0".repeat(200));
    let listed = vec![
        increments("ETH-BTC", "0.0001", "0.000001"),
        increments("BAD-BTC", &long, "0.1"),
        increments("XMR-BTC", "0.01", "0.00001"),
    ];
    let table = get_exchange_info_kc(&listed);
    assert_eq!(
        table.get(&"ETH-BTC".to_string()),
        Some(KucoinPrecisionInfo { base_sig_digs: 4, price_sig_digs: 6 })
    );
    assert_eq!(table.get(&"BAD-BTC".to_string()), None);
    assert_eq!(
        table.get(&"XMR-BTC".to_string()),
        Some(KucoinPrecisionInfo { base_sig_digs: 2, price_sig_digs: 5 })
    );
}

#[test]
fn amounts_are_cut_not_rounded() {
    assert_eq!(cut("5.123456", 2), "5.12");
    assert_eq!(cut("5.19", 1), "5.1");
    assert_eq!(cut("0.99999", 3), "0.999");
    assert_eq!(cut("123.456", 0), "123.");
    assert_eq!(cut("0.000012345", 8), "0.00001234");
}

#[test]
fn short_amounts_are_left_as_they_are() {
    assert_eq!(cut("5", 3), "5");
    assert_eq!(cut("5.1", 3), "5.1");
    assert_eq!(cut("5.123", 3), "5.123");
    assert_eq!(cut("", 3), "");
    assert_eq!(cut("5.", 0), "5.");
    assert_eq!(cut("1e-7", 2), "1e-7");
}

#[test]
fn negative_precision_leaves_the_amount() {
    assert_eq!(cut("5.123456", -1), "5.123456");
    assert_eq!(cut("5.123456", i8::MIN), "5.123456");
}

#[test]
fn cutting_twice_is_cutting_once() {
    for text in ["5.123456", "5", "0.1", ".25", "7.", "1.2.3.4", "12345.678901234"] {
        for digits in [-1i8, 0, 1, 2, 5, 20, 127] {
            let once = cut(text, digits);
            assert_eq!(cut(&once, digits), once);
            if digits >= 0 {
                assert!(count_sig_digits(&once) <= digits as usize);
                assert!(text.starts_with(&once));
            }
        }
    }
}

#[test]
fn cutting_the_text_of_a_float() {
    let value: f32 = 0.123456;
    assert_eq!(cut(&value.to_string(), 4), "0.1234");
    let value: f32 = 5.0;
    assert_eq!(cut(&value.to_string(), 4), "5");
    let price: f32 = 2.0;
    let take_profit: f32 = 0.5;
    assert_eq!(cut(&(price + price * take_profit).to_string(), 2), "3");
}

#[test]
fn amounts_are_cut_to_the_precision_of_the_symbol() {
    let mut exchange = KucoinExchange {
        exchange_info: get_exchange_info_kc(&vec![increments("ETH-BTC", "0.01", "0.0001")]),
    };
    let pair = "ETH-BTC".to_string();
    assert_eq!(exchange.round_to_sig_digits_price(&pair, "0.123456789").unwrap(), "0.1234");
    assert_eq!(exchange.round_to_sig_digits_base(&pair, "0.123456789").unwrap(), "0.12");
    assert_eq!(exchange.round_to_sig_digits_price(&pair, "7").unwrap(), "7");
}

#[test]
fn unknown_symbol_has_no_precision() {
    let mut exchange = KucoinExchange { exchange_info: ExchangeInfo::new() };
    let pair = "ETH-BTC".to_string();
    let e = exchange.round_to_sig_digits_price(&pair, "0.1").unwrap_err();
    assert_eq!(message(e), "Could not get info for symbol ETH-BTC");
    let e = exchange.round_to_sig_digits_base(&pair, "0.1").unwrap_err();
    assert_eq!(message(e), "Could not get info for symbol ETH-BTC");
}

#[test]
fn answer_with_data_is_unwrapped() {
    let data = KucoinExchange::unwrap_data(Some(7u32), Some("ignored".to_string()));
    assert_eq!(data.unwrap(), 7);
    let data = KucoinExchange::unwrap_data(Some("x".to_string()), None);
    assert_eq!(data.unwrap(), "x");
}

#[test]
fn answer_without_data_is_an_error() {
    let e = KucoinExchange::unwrap_data::<u32>(None, Some("Invalid symbol".to_string()))
        .unwrap_err();
    assert_eq!(message(e), "Error in unwrap_data!\nInvalid symbol");
    let e = KucoinExchange::unwrap_data::<u32>(None, None).unwrap_err();
    assert_eq!(message(e), "Didn't get any data in unwrap_data!");
}

#[test]
fn pair_is_the_symbol_in_upper_case_with_the_denomination() {
    assert_eq!(DENOMINATION, "BTC");
    assert_eq!(prep_symbol_for_kucoin("eth".to_string()), "ETH-BTC");
    assert_eq!(prep_symbol_for_kucoin("Xmr".to_string()), "XMR-BTC");
    assert_eq!(prep_symbol_for_kucoin("LTC".to_string()), "LTC-BTC");
    assert_eq!(prep_symbol_for_kucoin("".to_string()), "-BTC");
    assert_eq!(pair_with_denomination("eth".to_string()), "eth-BTC");
}

#[test]
fn batch_is_made_in_upper_case_without_prices() {
    let batch = make_token_info_vec(vec!["eth".to_string(), "XMR".to_string(), "straße".to_string()]);
    assert_eq!(batch.len(), 3);
    assert_eq!(batch[0].symbol, "ETH");
    assert_eq!(batch[0].symbol_with_pair, "ETH-BTC");
    assert_eq!(batch[0].price, None);
    assert_eq!(batch[1].symbol, "XMR");
    assert_eq!(batch[1].symbol_with_pair, "XMR-BTC");
    assert_eq!(batch[2].symbol, "STRASSE");
    assert_eq!(batch[2].symbol_with_pair, "STRASSE-BTC");
    assert!(make_token_info_vec(Vec::new()).is_empty());
    let copy = batch[0].clone();
    assert_eq!(copy.symbol, "ETH");
    assert_eq!(copy.symbol_with_pair, "ETH-BTC");
    assert_eq!(copy.price, None);
}
