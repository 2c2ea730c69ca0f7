use merx::md_handlers::helper::{cbag_market_to_exchange, exchange_to_cbag_market};
use merx::md_handlers::cbbo_v1::transform_markets;
use merx::md_handlers::market_depth_v1::transform_level_markets;
use merx::text::{trim_end_matches_char, trim_start_matches, u32_to_decimal};

#[test]
fn cbag_markets_map_to_exchange_slugs() {
    assert_eq!(cbag_market_to_exchange("COINBASE"), "gdax");
    assert_eq!(cbag_market_to_exchange("HUOBI"), "huobipro");
    assert_eq!(cbag_market_to_exchange("BINANCE"), "binance");
    assert_eq!(cbag_market_to_exchange("c42-KRAKEN#NA"), "kraken");
    assert_eq!(cbag_market_to_exchange("c42-COINBASE%23NA"), "gdax");
}

#[test]
fn exchange_slugs_map_to_cbag_markets() {
    assert_eq!(exchange_to_cbag_market("gdax", "c42", false, false, false), "COINBASE");
    assert_eq!(exchange_to_cbag_market("huobipro", "c42", false, false, false), "HUOBI");
    assert_eq!(exchange_to_cbag_market("binance", "c42", true, true, false), "c42-BINANCE%23NA");
    assert_eq!(exchange_to_cbag_market("kraken", "c42", false, true, true), "c42-KRAKEN");
    assert_eq!(exchange_to_cbag_market("bitstamp", "c42", true, false, false), "BITSTAMP%23NA");
}

#[test]
fn exchange_round_trip_examples() {
    for (slug, customer, nonagg) in [("binance", true, true), ("gdax", false, true), ("Kraken", true, false)] {
        let market = exchange_to_cbag_market(slug, "client_7", nonagg, customer, false);
        assert_eq!(cbag_market_to_exchange(&market), slug.to_lowercase());
    }
    let market = exchange_to_cbag_market("coinbase", "c1", false, false, false);
    assert_eq!(cbag_market_to_exchange(&market), "gdax");
}

#[test]
fn update_markets_are_renamed() {
    let markets = vec!["COINBASE".to_string(), "c1-BINANCE%23NA".to_string()];
    assert_eq!(transform_markets(&markets), vec!["gdax".to_string(), "binance".to_string()]);
    let levels = vec![("HUOBI".to_string(), "1.5".to_string()), ("KRAKEN#NA".to_string(), "2".to_string())];
    assert_eq!(
        transform_level_markets(&levels),
        vec![("huobipro".to_string(), "1.5".to_string()), ("kraken".to_string(), "2".to_string())]
    );
}

#[test]
fn text_helpers() {
    assert_eq!(u32_to_decimal(0), "0");
    assert_eq!(u32_to_decimal(300), "300");
    assert_eq!(u32_to_decimal(4294967295), "4294967295");
    assert_eq!(trim_end_matches_char("/api/streaming/cbbo//", '/'), "/api/streaming/cbbo");
    assert_eq!(trim_start_matches("Token Token abc", "Token "), "abc");
}

#[test]
fn round_trip_with_unusual_client_id() {
    let market = exchange_to_cbag_market("kraken", "ab#c", true, true, false);
    assert_eq!(market, "ab#c-KRAKEN%23NA");
    assert_eq!(cbag_market_to_exchange(&market), "kraken");
    let market = exchange_to_cbag_market("OKX", "x%y", false, true, false);
    assert_eq!(cbag_market_to_exchange(&market), "okx");
}

#[test]
fn exchange_names_are_stable() {
    for market in ["c1-HUOBI%23NA", "COINBASE", "c9-BitStamp", "KRAKEN#NA", "gdax"] {
        let name = cbag_market_to_exchange(market);
        assert!(!name.contains('-'));
        assert_eq!(name, name.to_lowercase());
        assert_eq!(cbag_market_to_exchange(&name), name);
    }
}
