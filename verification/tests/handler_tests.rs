use merx::client::{ClientAddr, ClientIp};
use merx::md_handlers::{cbbo_v1, market_depth_v1, rest_cost_calculator_v1};
use merx::routes_config::MarketDataType;
use merx::state::ConnectionStateStruct;
use merx::subscriptions::SubTraits;
use merx::symbols::{parse_currency_pairs_response, PairSizes, SizeValue};
use merx::user::{ExchangeResponse, UserResponse};

fn client(port: u16) -> ClientAddr {
    ClientAddr { ip: ClientIp { v6: false, bits: 0x0a00_0001 }, port }
}

fn size(key: u64, text: &str) -> SizeValue {
    SizeValue { key: Some(key), text: text.to_string() }
}

fn exchange(slug: &str, non_aggregated_prices: bool, customer_specific: bool) -> ExchangeResponse {
    ExchangeResponse {
        slug: slug.to_string(),
        name: slug.to_uppercase(),
        is_real_time: true,
        has_fok: false,
        has_post: false,
        non_aggregated_prices,
        public: false,
        customer_specific,
    }
}

fn ready_state() -> ConnectionStateStruct {
    let mut st = ConnectionStateStruct::new(vec!["BTC-USD".to_string()], vec![]);
    let pairs = vec![
        PairSizes { slug: "BTC-USD".to_string(), cbbo_sizes: vec![Some(size(10, "1.0")), Some(size(5, "0.5"))] },
        PairSizes { slug: "ETH-USD".to_string(), cbbo_sizes: vec![Some(size(20, "2.0"))] },
    ];
    let symbols = parse_currency_pairs_response(&pairs).unwrap();
    st.add_or_update_symbols(symbols, "[]".to_string()).unwrap();
    let user = UserResponse {
        username: "alice".to_string(),
        is_staff: None,
        organization: "acme".to_string(),
        client_id: "c42".to_string(),
        exchanges: vec![exchange("gdax", false, false), exchange("binance", true, true)],
    };
    assert_eq!(st.add_or_update_user("tok", &user), Ok("alice".to_string()));
    st
}

#[test]
fn cbbo_subscription_for_authenticated_client() {
    let mut st = ready_state();
    let out = cbbo_v1::handle_subscription(
        &client(1),
        &mut st,
        "BTC-USD".to_string(),
        "1".to_string(),
        Some(size(10, "1")),
        false,
        MarketDataType::CbboV1,
        Some("alice".to_string()),
        Some("md1".to_string()),
        false,
        None,
    );
    assert!(out.messages.is_empty());
    let sub = out.upstream.unwrap();
    assert_eq!(sub.get_url(), "/ws/legacy-cbbo/BTC-USD?quantity_filter=1&interval_ms=500&client=c42_md1&user=merx");
    // a second client joins without a new upstream subscription
    let again = cbbo_v1::handle_subscription(
        &client(2),
        &mut st,
        "BTC-USD".to_string(),
        "1".to_string(),
        Some(size(10, "1")),
        false,
        MarketDataType::CbboV1,
        Some("alice".to_string()),
        Some("md1".to_string()),
        false,
        None,
    );
    assert!(again.messages.is_empty());
    assert!(again.upstream.is_none());
}

#[test]
fn cbbo_public_subscription_has_no_client_id() {
    let mut st = ready_state();
    let out = cbbo_v1::handle_subscription(
        &client(1), &mut st, "BTC-USD".to_string(), "0.5".to_string(), Some(size(5, "0.5")), false,
        MarketDataType::CbboV1, None, None, true, None,
    );
    assert!(out.messages.is_empty());
    assert_eq!(
        out.upstream.unwrap().get_url(),
        "/ws/legacy-cbbo/BTC-USD?quantity_filter=0.5&interval_ms=500&client=&user=merx"
    );
}

#[test]
fn cbbo_refusals() {
    let mut st = ready_state();
    let out = cbbo_v1::handle_subscription(
        &client(1), &mut st, "ETH-USD".to_string(), "2".to_string(), Some(size(20, "2")), false,
        MarketDataType::CbboV1, None, None, true, None,
    );
    assert_eq!(out.messages, vec!["{\"type\":\"error\",\"error_code\":100001,\"error\":\"INVALID_CURRENCY_PAIR\",\"error_text\":\"Please check currency pair\"}".to_string()]);
    assert!(out.upstream.is_none());
    let out = cbbo_v1::handle_subscription(
        &client(1), &mut st, "DOGE-USD".to_string(), "2".to_string(), Some(size(20, "2")), false,
        MarketDataType::CbboV1, None, None, false, None,
    );
    assert_eq!(out.messages, vec!["{\"type\":\"error\",\"error_code\":100001,\"error\":\"INVALID_CURRENCY_PAIR\",\"error_text\":\"Please check currency pair\"}".to_string()]);
    let out = cbbo_v1::handle_subscription(
        &client(1), &mut st, "BTC-USD".to_string(), "abc".to_string(), None, false,
        MarketDataType::CbboV1, None, None, false, None,
    );
    assert_eq!(out.messages, vec!["{\"type\":\"error\",\"error_code\":100003,\"error\":\"INVALID_SIZE_FILTER\",\"error_text\":\"Could not parse size filter into a decimal\"}".to_string()]);
    let out = cbbo_v1::handle_subscription(
        &client(1), &mut st, "BTC-USD".to_string(), "3".to_string(), Some(size(30, "3")), false,
        MarketDataType::CbboV1, None, None, false, None,
    );
    assert_eq!(out.messages, vec!["{\"type\":\"error\",\"error_code\":100003,\"error\":\"INVALID_SIZE_FILTER\",\"error_text\":\"3 is an invalid size filter for BTC-USD. Available size filters are [1.0, 0.5]\"}".to_string()]);
    let out = cbbo_v1::handle_subscription(
        &client(1), &mut st, "BTC-USD".to_string(), "1".to_string(), Some(size(10, "1")), false,
        MarketDataType::CbboV1, Some("mallory".to_string()), None, false, None,
    );
    assert_eq!(out.messages, vec!["{\"type\":\"error\",\"error_code\":101007,\"error\":\"SERVER_ERROR\",\"error_text\":\"Unexpected Server Error\"}".to_string()]);
    assert!(out.upstream.is_none());
    assert!(!st.is_client_still_active(&client(1)));
}

#[test]
fn cbbo_negative_size_is_reported_and_kept() {
    let mut st = ready_state();
    let out = cbbo_v1::handle_subscription(
        &client(1), &mut st, "BTC-USD".to_string(), "-1".to_string(), Some(size(10, "-1")), true,
        MarketDataType::CbboV1, None, None, false, None,
    );
    assert_eq!(out.messages, vec!["{\"type\":\"error\",\"error_code\":100003,\"error\":\"INVALID_SIZE_FILTER\",\"error_text\":\"Size filter must be positive\"}".to_string()]);
    assert!(out.upstream.is_some());
}

#[test]
fn cbbo_before_symbols_is_refused() {
    let mut st = ConnectionStateStruct::new(vec![], vec![]);
    let out = cbbo_v1::handle_subscription(
        &client(1), &mut st, "BTC-USD".to_string(), "1".to_string(), Some(size(10, "1")), false,
        MarketDataType::CbboV1, None, None, false, None,
    );
    assert_eq!(out.messages, vec!["{\"type\":\"error\",\"error_code\":101005,\"error\":\"AWAITING_SYMBOL_DATA\",\"error_text\":\"Server is initializing and awaiting metadata. Please try again later\"}".to_string()]);
}

#[test]
fn cbbo_repeated_subscription_is_answered_with_error() {
    let mut st = ready_state();
    for expected_new in [true, false] {
        let out = cbbo_v1::handle_subscription(
            &client(1), &mut st, "BTC-USD".to_string(), "1".to_string(), Some(size(10, "1")), false,
            MarketDataType::CbboV1, None, None, false, None,
        );
        if expected_new {
            assert!(out.messages.is_empty());
            assert!(out.upstream.is_some());
        } else {
            assert_eq!(out.messages, vec!["{\"type\":\"error\",\"error_code\":101006,\"error\":\"ALREADY_SUBSCRIBED\",\"error_text\":\"Already subscribed to this subscription\"}".to_string()]);
            assert!(out.upstream.is_none());
        }
    }
}

#[test]
fn market_depth_subscription() {
    let mut st = ready_state();
    let out = market_depth_v1::handle_subscription(
        &client(1), &mut st, "BTC-USD".to_string(),
        vec!["gdax".to_string(), "binance".to_string(), "huobipro".to_string()], None,
        MarketDataType::MarketDepthV1,
    );
    assert!(out.messages.is_empty());
    assert_eq!(
        out.upstream.unwrap().get_url(),
        "/ws/snapshot/BTC-USD?markets=COINBASE,BINANCE,HUOBI,&depth_limit=50&interval_ms=300"
    );
    let out = market_depth_v1::handle_subscription(
        &client(2), &mut st, "BTC-USD".to_string(), vec!["kraken".to_string()], Some(200),
        MarketDataType::MarketDepthV1,
    );
    assert_eq!(out.upstream.unwrap().get_url(), "/ws/snapshot/BTC-USD?markets=KRAKEN,&depth_limit=200&interval_ms=300");
}

#[test]
fn market_depth_refusals() {
    let mut st = ready_state();
    for bad in [0u32, 201] {
        let out = market_depth_v1::handle_subscription(
            &client(1), &mut st, "BTC-USD".to_string(), vec!["gdax".to_string()], Some(bad),
            MarketDataType::MarketDepthV1,
        );
        assert_eq!(out.messages, vec!["{\"error\":\"depth_limit must be between 1-200\"}".to_string()]);
        assert!(out.upstream.is_none());
    }
    let out = market_depth_v1::handle_subscription(
        &client(1), &mut st, "BTC-USD".to_string(), vec![], Some(10), MarketDataType::MarketDepthV1,
    );
    assert_eq!(out.messages, vec!["{\"error\":\"exchanges must contain at least 1 exchange\"}".to_string()]);
    assert!(!st.is_client_still_active(&client(1)));
}

#[test]
fn cost_calculator_subscription() {
    let mut st = ready_state();
    let out = rest_cost_calculator_v1::handle_subscription(
        &client(1), &mut st, "BTC-USD".to_string(),
        vec!["gdax".to_string(), "binance".to_string()],
        vec!["1".to_string(), "2.5".to_string()],
        MarketDataType::RestCostCalculatorV1, "alice", None, None,
    );
    assert!(out.messages.is_empty());
    assert_eq!(
        out.upstream.unwrap().get_url(),
        "/ws/cost-calculator/BTC-USD?side=both&funding_quantity=1,2.5&interval_ms=1000&markets=COINBASE,C42-BINANCE%23NA"
    );
}

#[test]
fn cost_calculator_refusals() {
    let mut empty = ConnectionStateStruct::new(vec![], vec![]);
    let out = rest_cost_calculator_v1::handle_subscription(
        &client(1), &mut empty, "BTC-USD".to_string(), vec!["gdax".to_string()], vec!["1".to_string()],
        MarketDataType::RestCostCalculatorV1, "alice", None, None,
    );
    assert_eq!(out.messages, vec!["{\"type\":\"error\",\"error_code\":101005,\"error\":\"AWAITING_SYMBOL_DATA\",\"error_text\":\"Server is initializing and awaiting metadata. Please try again later\"}".to_string()]);
    let mut st = ready_state();
    let out = rest_cost_calculator_v1::handle_subscription(
        &client(1), &mut st, "BTC-USD".to_string(), vec![], vec!["1".to_string()],
        MarketDataType::RestCostCalculatorV1, "alice", None, None,
    );
    assert_eq!(out.messages, vec!["{\"type\":\"error\",\"error_code\":100005,\"error\":\"INVALID_EXCHANGES\",\"error_text\":\"No Exchanges Found. At least one exchange must be provided\"}".to_string()]);
    let out = rest_cost_calculator_v1::handle_subscription(
        &client(1), &mut st, "BTC-USD".to_string(), vec!["gdax".to_string(), "ftx".to_string(), "okx".to_string()],
        vec!["1".to_string()], MarketDataType::RestCostCalculatorV1, "alice", None, None,
    );
    assert_eq!(out.messages, vec!["{\"type\":\"error\",\"error_code\":100005,\"error\":\"INVALID_EXCHANGES\",\"error_text\":\"Exchange `ftx` invalid or user does not have access\"}".to_string()]);
    let out = rest_cost_calculator_v1::handle_subscription(
        &client(1), &mut st, "BTC-USD".to_string(), vec!["gdax".to_string()], vec!["1".to_string()],
        MarketDataType::RestCostCalculatorV1, "nobody", None, None,
    );
    assert_eq!(out.messages, vec!["{\"type\":\"error\",\"error_code\":101007,\"error\":\"SERVER_ERROR\",\"error_text\":\"Unexpected Server Error\"}".to_string()]);
    assert!(out.upstream.is_none());
}

#[test]
fn cost_market_names() {
    assert_eq!(rest_cost_calculator_v1::cost_market_of("SIM_gdax"), "COINBASE");
    assert_eq!(rest_cost_calculator_v1::cost_market_of("huobipro"), "HUOBI");
    assert_eq!(rest_cost_calculator_v1::cost_market_of("SIM_BINANCE"), "BINANCE");
    assert_eq!(rest_cost_calculator_v1::cost_market_of("kraken"), "KRAKEN");
}

#[test]
fn market_depth_identical_subscription_is_shared() {
    let mut st = ready_state();
    let first = market_depth_v1::handle_subscription(
        &client(1), &mut st, "ETH-USD".to_string(), vec!["gdax".to_string()], Some(20), MarketDataType::MarketDepthV1,
    );
    assert!(first.upstream.is_some());
    let second = market_depth_v1::handle_subscription(
        &client(2), &mut st, "ETH-USD".to_string(), vec!["gdax".to_string()], Some(20), MarketDataType::MarketDepthV1,
    );
    assert!(second.messages.is_empty());
    assert!(second.upstream.is_none());
    let other_depth = market_depth_v1::handle_subscription(
        &client(2), &mut st, "ETH-USD".to_string(), vec!["gdax".to_string()], Some(21), MarketDataType::MarketDepthV1,
    );
    assert!(other_depth.upstream.is_some());
}
