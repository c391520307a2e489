//! Per-exchange venue settings: which instrument types and feeds are enabled.

use vstd::prelude::*;
use crate::text::str_eq;

verus! {

/// The enabled instrument types and feeds of one exchange.
#[derive(Debug, Clone)]
pub struct VenueSettings {
    pub exchange: String,
    pub instrument_types: Vec<String>,
    pub market_feeds: Vec<String>,
    pub order_feeds: Vec<String>,
    pub notes: String,
}

/// The texts of a list of strings.
pub open spec fn texts(v: Seq<String>) -> Seq<Seq<char>> {
    v.map_values(|s: String| s@)
}

/// The texts of a list of string slices.
pub open spec fn str_texts(v: Seq<&str>) -> Seq<Seq<char>> {
    v.map_values(|s: &str| s@)
}

/// The default instrument types, market feeds and order feeds of an exchange.
pub open spec fn default_venue(exchange: Seq<char>) -> (Seq<Seq<char>>, Seq<Seq<char>>, Seq<Seq<char>>) {
    let all_kinds = seq!["option"@, "future"@, "perpetual"@, "spot"@];
    let full_market = seq!["orderbook_l3"@, "market_trades"@, "reference_data"@, "top_of_book"@];
    let full_orders = seq![
        "account_summary"@, "fund_update"@, "transfer_update"@, "create_order"@, "modify_order"@,
        "cancel_order"@, "cancel_all_order"@, "position_update"@,
    ];
    let basic_market = seq!["market_trades"@, "reference_data"@, "top_of_book"@];
    let fut_kinds = seq!["future"@, "perpetual"@, "spot"@];
    let fund_orders = seq![
        "account_summary"@, "fund_update"@, "create_order"@, "modify_order"@, "cancel_order"@,
        "cancel_all_order"@, "position_update"@,
    ];
    if exchange == "deribit"@ || exchange == "okx"@ {
        (all_kinds, full_market, full_orders)
    } else if exchange == "bybit"@ || exchange == "binance"@ {
        (fut_kinds, basic_market, fund_orders)
    } else if exchange == "coincall"@ {
        (
            seq!["option"@, "future"@],
            basic_market,
            seq!["account_summary"@, "create_order"@, "cancel_order"@, "cancel_all_order"@, "position_update"@],
        )
    } else if exchange == "mexc"@ {
        (
            fut_kinds,
            basic_market,
            seq!["account_summary"@, "create_order"@, "cancel_order"@, "cancel_all_order"@, "position_update"@],
        )
    } else if exchange == "hyperliquid"@ {
        (
            seq!["perpetual"@],
            basic_market,
            seq![
                "account_summary"@, "create_order"@, "cancel_order"@, "cancel_all_order"@,
                "position_update"@, "trade_update"@, "order_update"@, "fund_update"@,
            ],
        )
    } else if exchange == "uniswap"@ {
        (seq!["spot"@], seq!["top_of_book"@], seq!["create_order"@, "account_summary"@])
    } else {
        (
            seq!["spot"@],
            seq!["market_trades"@, "top_of_book"@],
            seq!["account_summary"@, "create_order"@, "cancel_order"@],
        )
    }
}

fn strings_of(items: &[&str]) -> (r: Vec<String>)
    ensures
        texts(r@) == str_texts(items@),
{
    let mut r: Vec<String> = Vec::new();
    let mut i: usize = 0;
    while i < items.len()
        invariant
            i <= items.len(),
            r@.len() == i,
            texts(r@) =~= str_texts(items@.subrange(0, i as int)),
        decreases items.len() - i,
    {
        let ghost before = r@;
        r.push(String::from_str(items[i]));
        assert(r@ =~= before.push(r@[i as int]));
        assert(items@.subrange(0, i + 1) =~= items@.subrange(0, i as int).push(items@[i as int]));
        assert(texts(r@) =~= texts(before).push(items@[i as int]@));
        i = i + 1;
    }
    assert(items@.subrange(0, items.len() as int) =~= items@);
    r
}

/// The settings an exchange starts with.
pub fn default_for(exchange: &str) -> (r: VenueSettings)
    ensures
        r.exchange@ == exchange@,
        (texts(r.instrument_types@), texts(r.market_feeds@), texts(r.order_feeds@))
            == default_venue(exchange@),
        r.notes@ == Seq::<char>::empty(),
{
    let (inst, mkt, ord) = if str_eq(exchange, "deribit") || str_eq(exchange, "okx") {
        (
            strings_of(&["option", "future", "perpetual", "spot"]),
            strings_of(&["orderbook_l3", "market_trades", "reference_data", "top_of_book"]),
            strings_of(
                &[
                    "account_summary", "fund_update", "transfer_update", "create_order",
                    "modify_order", "cancel_order", "cancel_all_order", "position_update",
                ],
            ),
        )
    } else if str_eq(exchange, "bybit") || str_eq(exchange, "binance") {
        (
            strings_of(&["future", "perpetual", "spot"]),
            strings_of(&["market_trades", "reference_data", "top_of_book"]),
            strings_of(
                &[
                    "account_summary", "fund_update", "create_order", "modify_order",
                    "cancel_order", "cancel_all_order", "position_update",
                ],
            ),
        )
    } else if str_eq(exchange, "coincall") {
        (
            strings_of(&["option", "future"]),
            strings_of(&["market_trades", "reference_data", "top_of_book"]),
            strings_of(
                &["account_summary", "create_order", "cancel_order", "cancel_all_order", "position_update"],
            ),
        )
    } else if str_eq(exchange, "mexc") {
        (
            strings_of(&["future", "perpetual", "spot"]),
            strings_of(&["market_trades", "reference_data", "top_of_book"]),
            strings_of(
                &["account_summary", "create_order", "cancel_order", "cancel_all_order", "position_update"],
            ),
        )
    } else if str_eq(exchange, "hyperliquid") {
        (
            strings_of(&["perpetual"]),
            strings_of(&["market_trades", "reference_data", "top_of_book"]),
            strings_of(
                &[
                    "account_summary", "create_order", "cancel_order", "cancel_all_order",
                    "position_update", "trade_update", "order_update", "fund_update",
                ],
            ),
        )
    } else if str_eq(exchange, "uniswap") {
        (
            strings_of(&["spot"]),
            strings_of(&["top_of_book"]),
            strings_of(&["create_order", "account_summary"]),
        )
    } else {
        (
            strings_of(&["spot"]),
            strings_of(&["market_trades", "top_of_book"]),
            strings_of(&["account_summary", "create_order", "cancel_order"]),
        )
    };
    VenueSettings {
        exchange: String::from_str(exchange),
        instrument_types: inst,
        market_feeds: mkt,
        order_feeds: ord,
        notes: String::new(),
    }
}

} // verus!
