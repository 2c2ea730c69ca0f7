use merx::auth::{
    auth_address, auth_endpoint_address, authenticate_token, authorization_value, check_token, check_token_at,
    check_token_and_authenticate, currency_pairs_address, get_symbols, token_of_request, AuthReply,
    SymbolsReply, TokenCheck,
};
use merx::cached_routes::{cached_endpoints, is_cached_endpoint};
use merx::client::{ClientAddr, ClientIp};
use merx::functions::{
    check_session, exceeds_max_session_time, get_cached_ohlc_response, get_cached_response,
    missing_chart_parameter, plan_websocket, text_frame_handler, OhlcStep, SessionCheck, TextFrameHandler,
};
use merx::routes_config::{routes_get, sub_type_get, ws_limit_routes_get, MarketDataType, SubscriptionType, WebSocketLimitType};
use merx::state::ConnectionStateStruct;
use merx::subscriptions::{DirectStruct, Subscription};
use merx::symbols::{PairSizes, SizeValue};
use merx::tasks::{bootstrap_host, pull_start, pull_step, PullPhase, PullRequest};
use merx::upstream::{after_message, listeners_refresh_due, parse_tung_response_body_to_str, UpstreamAction, UpstreamEvent, UpstreamTask};
use merx::urls::{chart_fetch_url, chart_fetch_url_at, chart_url, cost_calculator_url, forward_url, upstream_url, volume_url};
use merx::user::{ExchangeResponse, UserResponse};

fn peer(port: u16) -> ClientAddr {
    ClientAddr { ip: ClientIp { v6: true, bits: 1 }, port }
}

fn alice() -> UserResponse {
    UserResponse {
        username: "alice".to_string(),
        is_staff: Some(false),
        organization: "acme".to_string(),
        client_id: "c42".to_string(),
        exchanges: vec![ExchangeResponse {
            slug: "gdax".to_string(),
            name: "Coinbase".to_string(),
            is_real_time: true,
            has_fok: true,
            has_post: true,
            non_aggregated_prices: false,
            public: true,
            customer_specific: false,
        }],
    }
}

fn pairs_reply(status: u16, body: Option<&str>, pairs: Option<Vec<PairSizes>>) -> SymbolsReply {
    SymbolsReply::Response {
        status,
        status_text: "404 Not Found".to_string(),
        body: body.map(|b| b.to_string()),
        pairs,
    }
}

#[test]
fn token_is_taken_from_header_then_query() {
    assert_eq!(token_of_request(Some(Some("Token abc".to_string())), Some("q".to_string())), Ok("abc".to_string()));
    assert_eq!(token_of_request(Some(Some("abc".to_string())), None), Ok("abc".to_string()));
    assert_eq!(token_of_request(Some(None), Some("q".to_string())), Err("Unable to parse token".to_string()));
    assert_eq!(token_of_request(None, Some("Token Token q".to_string())), Ok("q".to_string()));
    assert_eq!(token_of_request(None, None), Err("No token provided".to_string()));
}

#[test]
fn validated_token_is_known_afterwards() {
    let mut st = ConnectionStateStruct::new(vec![], vec![]);
    match check_token(&st, Some(Some("Token tok".to_string())), None) {
        Ok(TokenCheck::Authenticate(t)) => assert_eq!(t, "tok"),
        _ => panic!("unknown token must be authenticated"),
    }
    let reply = AuthReply::Response { status: 200, user: Some(alice()) };
    assert_eq!(authenticate_token(&mut st, "tok", reply), Ok("alice".to_string()));
    match check_token(&st, None, Some("tok".to_string())) {
        Ok(TokenCheck::Known(name)) => assert_eq!(name, "alice"),
        _ => panic!("validated token not recognised"),
    }
    assert_eq!(st.get_client_id("alice"), Ok("c42".to_string()));
    assert_eq!(st.get_client_id("bob"), Err("User bob not found".to_string()));
}

#[test]
fn auth_server_replies() {
    let mut st = ConnectionStateStruct::new(vec![], vec![]);
    assert_eq!(authenticate_token(&mut st, "t", AuthReply::RequestFailed), Err("error: {:?}".to_string()));
    assert_eq!(
        authenticate_token(&mut st, "t", AuthReply::Response { status: 401, user: None }),
        Err("auth failed".to_string())
    );
    assert_eq!(
        authenticate_token(&mut st, "t", AuthReply::Response { status: 200, user: None }),
        Err("Unable to parse user response".to_string())
    );
    let header = || Some(Some("Token t".to_string()));
    assert_eq!(
        check_token_and_authenticate(&mut st, header(), None, AuthReply::Response { status: 500, user: None }),
        Err("Unable to authenticate token".to_string())
    );
    assert_eq!(
        check_token_and_authenticate(&mut st, header(), None, AuthReply::Response { status: 200, user: Some(alice()) }),
        Ok("alice".to_string())
    );
    // the token is now cached: the reply is not consulted
    assert_eq!(
        check_token_and_authenticate(&mut st, None, Some("t".to_string()), AuthReply::RequestFailed),
        Ok("alice".to_string())
    );
    assert_eq!(
        check_token_and_authenticate(&mut st, Some(None), Some("t".to_string()), AuthReply::RequestFailed),
        Err("Unable to parse token".to_string())
    );
    assert_eq!(
        check_token_and_authenticate(&mut st, None, None, AuthReply::RequestFailed),
        Err("No token provided".to_string())
    );
    assert!(check_token(&st, None, None).is_err());
}

#[test]
fn invalid_and_attempted_tokens() {
    let mut st = ConnectionStateStruct::new(vec![], vec![]);
    assert!(!st.check_token_known_to_be_invalid("t", None));
    st.invalidate_token("t");
    assert!(st.check_token_known_to_be_invalid("t", None));
    assert_eq!(
        authenticate_token(&mut st, "t", AuthReply::Response { status: 200, user: Some(alice()) }),
        Ok("alice".to_string())
    );
    assert!(!st.check_token_known_to_be_invalid("t", None));
    assert!(!st.check_if_attempted_auth("u", None));
    st.add_attempted_auth("u");
    assert!(st.check_if_attempted_auth("u", None));
}

#[test]
fn auth_server_addresses() {
    assert_eq!(auth_address("portal.example.com"), "https://portal.example.com/api/user/");
    assert_eq!(currency_pairs_address("portal.example.com"), "https://portal.example.com/api/currency_pairs/");
    assert_eq!(auth_endpoint_address("p.example.com", "/api/exchanges"), "https://p.example.com/api/exchanges");
    assert_eq!(authorization_value("abc"), "Token abc");
    assert_eq!(bootstrap_host(), "merx.coinroutes.com");
}

#[test]
fn symbols_replies() {
    let mut st = ConnectionStateStruct::new(vec![], vec![]);
    assert_eq!(get_symbols(&mut st, SymbolsReply::RequestFailed), Ok(()));
    assert!(!st.is_ready());
    assert_eq!(get_symbols(&mut st, pairs_reply(404, None, None)), Err("Unable to get currency pairs: 404 Not Found".to_string()));
    assert_eq!(get_symbols(&mut st, pairs_reply(200, None, None)), Err("Unable to get currency pairs".to_string()));
    assert_eq!(get_symbols(&mut st, pairs_reply(200, Some("x"), None)), Err("Unable to parse currency pairs response".to_string()));
    let unparsable = vec![PairSizes { slug: "BTC-USD".to_string(), cbbo_sizes: vec![None] }];
    assert_eq!(
        get_symbols(&mut st, pairs_reply(200, Some("[]"), Some(unparsable))),
        Err("Unable to parse currency pairs response".to_string())
    );
    assert!(!st.is_ready());
    assert_eq!(st.get_currency_pairs_json(), Err("Awaiting symbol data".to_string()));
    let good = vec![PairSizes {
        slug: "BTC-USD".to_string(),
        cbbo_sizes: vec![Some(SizeValue { key: Some(1), text: "1.0".to_string() })],
    }];
    assert_eq!(get_symbols(&mut st, pairs_reply(200, Some("[{\"slug\":\"BTC-USD\"}]"), Some(good))), Ok(()));
    assert!(st.is_ready());
    assert!(st.is_pair_valid("BTC-USD").is_ok());
    assert!(st.is_pair_valid("ETH-USD").is_err());
    assert_eq!(st.get_currency_pairs_json(), Ok("[{\"slug\":\"BTC-USD\"}]".to_string()));
}

#[test]
fn cached_responses_are_read_back() {
    let mut st = ConnectionStateStruct::new(vec![], vec![]);
    assert_eq!(get_cached_response(&st, "/api/exchanges/"), None);
    st.add_or_update_cached_response("/api/exchanges", "[1]".to_string());
    st.add_or_update_cached_response("/api/exchange_fees", "[2]".to_string());
    assert_eq!(get_cached_response(&st, "/api/exchanges/"), Some("[1]".to_string()));
    st.add_or_update_cached_response("/api/exchanges", "[3]".to_string());
    assert_eq!(st.get_cached_response("/api/exchanges"), Ok("[3]".to_string()));
    assert_eq!(st.get_cached_response("/api/exchange_fees"), Ok("[2]".to_string()));
    assert_eq!(cached_endpoints().len(), 6);
    assert!(is_cached_endpoint("/api_internal/exchange_fees"));
    assert!(!is_cached_endpoint("/api/user"));
}

#[test]
fn route_tables() {
    assert_eq!(routes_get("/api/streaming/market_depth"), Some(MarketDataType::MarketDepthV1));
    assert_eq!(routes_get("/nope"), None);
    assert_eq!(sub_type_get("/api/public/streaming/cbbo"), Some(SubscriptionType::PublicSubscription));
    let r = ws_limit_routes_get("/api/streaming/cbbo").unwrap();
    assert_eq!(r.limit_number, 100);
    assert_eq!(r.limit_type, WebSocketLimitType::Token);
    assert!(ws_limit_routes_get("/api/public/streaming/cbbo").is_none());
}

#[test]
fn websocket_plans() {
    let p = plan_websocket("/api/streaming/cbbo/").unwrap();
    assert_eq!(p.market_data_type, MarketDataType::CbboV1);
    assert_eq!(p.subscription_type, SubscriptionType::Subscription);
    assert!(p.websocketlimit_route.is_some());
    assert_eq!(p.username, None);
    let p = plan_websocket("/api/public/streaming/market_depth").unwrap();
    assert_eq!(p.username, Some("PUBLIC".to_string()));
    assert!(p.websocketlimit_route.is_none());
    assert_eq!(plan_websocket("/ws/unknown").err(), Some("Endpoint not available".to_string()));
}

#[test]
fn session_checks() {
    let mut st = ConnectionStateStruct::new(vec![], vec![]);
    let c = peer(9);
    assert!(matches!(check_session(&st, &c, SubscriptionType::Subscription, 19_999), SessionCheck::Wait));
    match check_session(&st, &c, SubscriptionType::Subscription, 20_000) {
        SessionCheck::Close(reason) => assert_eq!(reason, "Subscription no longer active"),
        SessionCheck::Wait => panic!("inactive client kept"),
    }
    match check_session(&st, &c, SubscriptionType::Direct, 0) {
        SessionCheck::Close(reason) => assert_eq!(reason, "Subscription no longer active"),
        SessionCheck::Wait => panic!("inactive direct client kept"),
    }
    let sub = Subscription::Direct(DirectStruct::new(MarketDataType::CbboV1, "/ws/x".to_string()));
    assert!(st.add_client_to_subscription(&c, sub, None, String::new()).is_ok());
    assert!(matches!(check_session(&st, &c, SubscriptionType::PublicSubscription, 10_800_000), SessionCheck::Wait));
    match check_session(&st, &c, SubscriptionType::PublicSubscription, 10_800_001) {
        SessionCheck::Close(reason) => assert_eq!(reason, "Exceeds max session time"),
        SessionCheck::Wait => panic!("long public session kept"),
    }
    assert!(matches!(check_session(&st, &c, SubscriptionType::Subscription, 10_800_001), SessionCheck::Wait));
    assert!(exceeds_max_session_time(10_800_001));
    assert!(!exceeds_max_session_time(10_800_000));
}

#[test]
fn text_frames_go_to_their_handler() {
    match text_frame_handler(SubscriptionType::Subscription, MarketDataType::CbboV1, "alice") {
        TextFrameHandler::Cbbo { username, enforce_subscription_whitelist } => {
            assert_eq!(username, Some("alice".to_string()));
            assert!(!enforce_subscription_whitelist);
        },
        _ => panic!("cbbo frame misrouted"),
    }
    match text_frame_handler(SubscriptionType::PublicSubscription, MarketDataType::CbboV1, "PUBLIC") {
        TextFrameHandler::Cbbo { username, enforce_subscription_whitelist } => {
            assert_eq!(username, None);
            assert!(enforce_subscription_whitelist);
        },
        _ => panic!("public cbbo frame misrouted"),
    }
    assert!(matches!(text_frame_handler(SubscriptionType::Subscription, MarketDataType::RestCostCalculatorV1, "a"), TextFrameHandler::CostCalculator));
    assert!(matches!(text_frame_handler(SubscriptionType::PublicSubscription, MarketDataType::MarketDepthV1, "a"), TextFrameHandler::MarketDepth));
    assert!(matches!(text_frame_handler(SubscriptionType::PublicSubscription, MarketDataType::RestCostCalculatorV1, "a"), TextFrameHandler::Ignore));
    assert!(matches!(text_frame_handler(SubscriptionType::Direct, MarketDataType::CbboV1, "a"), TextFrameHandler::Ignore));
}

#[test]
fn chart_requests_need_all_keys() {
    let mut params: Vec<(String, String)> = vec![("product".to_string(), "BTC-USD".to_string())];
    assert_eq!(missing_chart_parameter(&params), Some("interval is required".to_string()));
    params.push(("interval".to_string(), "m".to_string()));
    assert_eq!(missing_chart_parameter(&params), Some("start_time is required".to_string()));
    for k in ["start_time", "end_time", "size"] {
        params.push((k.to_string(), "x".to_string()));
    }
    assert_eq!(missing_chart_parameter(&params), Some("exchanges is required".to_string()));
    params.push(("exchanges".to_string(), "COINBASE".to_string()));
    assert_eq!(missing_chart_parameter(&params), None);
}

#[test]
fn cached_ohlc_chart_steps() {
    let mut st = ConnectionStateStruct::new(vec![], vec![]);
    match get_cached_ohlc_response(&mut st, None) {
        OhlcStep::BadRequest(b) => assert_eq!(b, "product is required"),
        _ => panic!("missing product accepted"),
    }
    let good = vec![PairSizes { slug: "BTC-USD".to_string(), cbbo_sizes: vec![] }];
    assert_eq!(get_symbols(&mut st, SymbolsReply::Response { status: 200, status_text: String::new(), body: Some("[]".to_string()), pairs: Some(good) }), Ok(()));
    match get_cached_ohlc_response(&mut st, Some("ETH-USD".to_string())) {
        OhlcStep::BadRequest(b) => assert_eq!(b, "{\"type\":\"error\",\"error_code\":100001,\"error\":\"INVALID_CURRENCY_PAIR\",\"error_text\":\"Please check currency pair\"}"),
        _ => panic!("unknown product accepted"),
    }
    assert!(matches!(get_cached_ohlc_response(&mut st, Some("BTC-USD".to_string())), OhlcStep::Fetch { start_refresh: true }));
    assert!(matches!(get_cached_ohlc_response(&mut st, Some("BTC-USD".to_string())), OhlcStep::Fetch { start_refresh: false }));
    st.set_ohlc_chart("BTC-USD".to_string(), "chart".to_string());
    match get_cached_ohlc_response(&mut st, Some("BTC-USD".to_string())) {
        OhlcStep::Chart(c) => assert_eq!(c, "chart"),
        _ => panic!("stored chart not served"),
    }
}

#[test]
fn request_urls() {
    let params = vec![("product".to_string(), "BTC-USD".to_string()), ("note".to_string(), "a b&c".to_string())];
    assert_eq!(volume_url("trades:9000", &params), Some("http://trades:9000/volume?product=BTC-USD&note=a+b%26c".to_string()));
    assert_eq!(chart_url("charts:1", &params), Some("http://charts:1/ohlc?product=BTC-USD&note=a+b%26c".to_string()));
    assert_eq!(
        cost_calculator_url("cbag:8080", "/api/cost_calculator/BTC-USD", &vec![("side".to_string(), "buy".to_string())]),
        Some("http://cbag:8080/cost-calculator/BTC-USD?side=buy".to_string())
    );
    assert_eq!(volume_url("bad host:x", &params), None);
    assert_eq!(forward_url("cbag:8080", "/version?x=1"), "http://cbag:8080/version?x=1");
    let sub = Subscription::Direct(DirectStruct::new(MarketDataType::Direct, "/ws/bookstats/BTC".to_string()));
    assert_eq!(upstream_url("cbag:8080", &sub), "ws://cbag:8080/ws/bookstats/BTC");
}

#[test]
fn chart_fetch_urls() {
    let exchanges = vec!["COINBASE".to_string(), "KRAKEN".to_string()];
    assert_eq!(
        chart_fetch_url("charts:1", "BTC-USD", &exchanges, "s", "e"),
        "http://charts:1/ohlc/?interval=m&product=BTC-USD&start_time=s&end_time=e&size=0&exchanges=COINBASE,KRAKEN"
    );
    assert_eq!(
        chart_fetch_url_at("charts:1", "BTC-USD", &exchanges, 86_400_000 + 5),
        Some("http://charts:1/ohlc/?interval=m&product=BTC-USD&start_time=1970-01-01T00:00:00.005Z&end_time=1970-01-02T00:00:00.005Z&size=0&exchanges=COINBASE,KRAKEN".to_string())
    );
    assert_eq!(
        chart_fetch_url_at("charts:1", "ETH-USD", &vec![], 947638923004 + 86_400_000),
        Some("http://charts:1/ohlc/?interval=m&product=ETH-USD&start_time=2000-01-12T01:02:03.004Z&end_time=2000-01-13T01:02:03.004Z&size=0&exchanges=".to_string())
    );
    assert_eq!(chart_fetch_url_at("charts:1", "BTC-USD", &exchanges, i64::MIN), None);
}

#[test]
fn upstream_task_gives_up_after_five_failures() {
    let mut t = UpstreamTask::new();
    assert!(matches!(t.step(UpstreamEvent::Begin), UpstreamAction::Connect));
    for _ in 0..4 {
        assert!(matches!(t.step(UpstreamEvent::ConnectTimedOut), UpstreamAction::Connect));
    }
    assert!(matches!(t.step(UpstreamEvent::ConnectTimedOut), UpstreamAction::CloseFailed));
    let mut t = UpstreamTask::new();
    assert!(matches!(t.step(UpstreamEvent::ConnectFailed { http_status: Some(503) }), UpstreamAction::Pause(500)));
    assert!(matches!(t.step(UpstreamEvent::Begin), UpstreamAction::Connect));
    assert!(matches!(t.step(UpstreamEvent::Connected), UpstreamAction::Read));
    assert_eq!(t.consecutive_errors, 0);
    assert!(matches!(t.step(UpstreamEvent::StreamEnded), UpstreamAction::Connect));
    assert!(matches!(t.step(UpstreamEvent::ConnectFailed { http_status: Some(400) }), UpstreamAction::CloseFailed));
    assert!(t.bad_request);
}

#[test]
fn upstream_bodies_and_listeners() {
    assert_eq!(parse_tung_response_body_to_str(&Some(b"bad pair".to_vec())), Ok("bad pair".to_string()));
    assert_eq!(parse_tung_response_body_to_str(&Some(vec![0xff, 0xfe])), Err("Unable to parse body".to_string()));
    assert_eq!(parse_tung_response_body_to_str(&None), Err("Empty body".to_string()));
    assert!(listeners_refresh_due(2001));
    assert!(!listeners_refresh_due(2000));
    let mut st = ConnectionStateStruct::new(vec![], vec![]);
    let sub = Subscription::Direct(DirectStruct::new(MarketDataType::Direct, "/ws/x".to_string()));
    let c = peer(1);
    assert!(st.add_client_to_subscription(&c, sub.duplicate(), None, String::new()).is_ok());
    assert!(!after_message(&mut st, &sub, 0));
    assert!(!after_message(&mut st, &sub, 1));
    assert_eq!(st.remove_client_from_subscription(&c, &sub), Ok(()));
    assert!(after_message(&mut st, &sub, 0));
    assert!(st.listeners(&sub).is_none());
}

#[test]
fn pull_symbols_schedule() {
    let (mut phase, first) = pull_start();
    assert!(matches!(first, PullRequest::Pairs { from_bootstrap_host: true }));
    for _ in 0..4 {
        let (p, sleep, req) = pull_step(phase, false);
        assert_eq!(sleep, 250);
        assert!(matches!(req, PullRequest::Pairs { from_bootstrap_host: true }));
        phase = p;
    }
    let (p, sleep, req) = pull_step(phase, false);
    assert_eq!(sleep, 250);
    assert!(matches!(req, PullRequest::Pairs { from_bootstrap_host: false }));
    assert!(matches!(p, PullPhase::Pairs));
    let (p, sleep, _) = pull_step(p, false);
    assert_eq!(sleep, 5000);
    let (mut phase, sleep, req) = pull_step(p, true);
    assert_eq!(sleep, 5000);
    assert!(matches!(req, PullRequest::Endpoint(0)));
    for i in 1..6 {
        let (p, sleep, req) = pull_step(phase, i % 2 == 0);
        assert_eq!(sleep, 5000);
        assert!(matches!(req, PullRequest::Endpoint(j) if j == i));
        phase = p;
    }
    let (p, sleep, req) = pull_step(phase, true);
    assert_eq!(sleep, 40_000);
    assert!(matches!(req, PullRequest::Pairs { from_bootstrap_host: false }));
    assert!(matches!(p, PullPhase::Pairs));
    let (p, sleep, _) = pull_step(PullPhase::Bootstrap(2), true);
    assert_eq!(sleep, 0);
    assert!(matches!(p, PullPhase::Pairs));
}

#[test]
fn route_tables_agree() {
    for path in [
        "/api/streaming/cbbo",
        "/api/streaming/market_depth",
        "/api/cost_calculator",
        "/api/public/streaming/cbbo",
        "/api/public/streaming/market_depth",
        "/api/unknown",
    ] {
        assert_eq!(routes_get(path).is_some(), sub_type_get(path).is_some());
        if ws_limit_routes_get(path).is_some() {
            assert_eq!(sub_type_get(path), Some(SubscriptionType::Subscription));
        }
    }
}

#[test]
fn token_validation_expires() {
    let mut st = ConnectionStateStruct::new(vec![], vec![]);
    let reply = AuthReply::Response { status: 200, user: Some(alice()) };
    assert_eq!(authenticate_token(&mut st, "tok", reply), Ok("alice".to_string()));
    match check_token(&st, Some(Some("tok".to_string())), None) {
        Ok(TokenCheck::Known(name)) => assert_eq!(name, "alice"),
        _ => panic!("fresh validation not trusted"),
    }
    match check_token_at(&st, Some(Some("tok".to_string())), None, i64::MAX) {
        Ok(TokenCheck::Authenticate(t)) => assert_eq!(t, "tok"),
        _ => panic!("stale validation trusted"),
    }
    match check_token_at(&st, None, None, 0) {
        Err(e) => assert_eq!(e, "No token provided"),
        _ => panic!("request without token accepted"),
    }
}

#[test]
fn invalidated_token_stays_invalid_until_validated() {
    let mut st = ConnectionStateStruct::new(vec![], vec![]);
    st.invalidate_token("bad");
    st.add_attempted_auth("bad");
    st.invalidate_token("other");
    assert_eq!(authenticate_token(&mut st, "good", AuthReply::Response { status: 200, user: Some(alice()) }), Ok("alice".to_string()));
    assert!(st.check_token_known_to_be_invalid("bad", None));
    assert!(st.check_token_known_to_be_invalid("bad", Some(60_000)));
    assert_eq!(authenticate_token(&mut st, "bad", AuthReply::Response { status: 200, user: Some(alice()) }), Ok("alice".to_string()));
    assert!(!st.check_token_known_to_be_invalid("bad", None));
}
