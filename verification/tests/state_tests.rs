use merx::client::{ClientAddr, ClientIp};
use merx::error::ErrorCode;
use merx::routes_config::{MarketDataType, WebSocketLimitRoute, WebSocketLimitType};
use merx::state::ConnectionStateStruct;
use merx::subscriptions::{DirectStruct, LegacyCbboStruct, SnapshotStruct, SubTraits, Subscription};

fn addr(last: u8, port: u16) -> ClientAddr {
    ClientAddr { ip: ClientIp { v6: false, bits: 0x7f00_0000 + last as u128 }, port }
}

fn direct(endpoint: &str) -> Subscription {
    Subscription::Direct(DirectStruct::new(MarketDataType::Direct, endpoint.to_string()))
}

fn empty_state() -> ConnectionStateStruct {
    ConnectionStateStruct::new(vec!["BTC-USD".to_string()], vec!["COINBASE".to_string()])
}

#[test]
fn subscription_urls() {
    let snap = SnapshotStruct::new(
        MarketDataType::MarketDepthV1,
        "BTC-USD".to_string(),
        vec!["COINBASE".to_string(), "BINANCE".to_string()],
        50,
        300,
    );
    assert_eq!(snap.get_url(), "/ws/snapshot/BTC-USD?markets=COINBASE,BINANCE,&depth_limit=50&interval_ms=300");
    assert_eq!(snap.get_market_data_type(), MarketDataType::MarketDepthV1);
    let cbbo = LegacyCbboStruct::new(MarketDataType::CbboV1, "ETH-USD".to_string(), "2".to_string(), 500, "c42".to_string());
    assert_eq!(cbbo.get_url(), "/ws/legacy-cbbo/ETH-USD?quantity_filter=2&interval_ms=500&client=c42&user=merx");
    let d = DirectStruct::new(MarketDataType::Direct, "/ws/bookstats/BTC-USD".to_string());
    assert_eq!(d.get_url(), "/ws/bookstats/BTC-USD");
    assert!(direct("/a").same_as(&direct("/a")));
    assert!(!direct("/a").same_as(&direct("/b")));
}

#[test]
fn identical_subscriptions_are_made_upstream_once() {
    let mut st = empty_state();
    let a = addr(1, 1000);
    let b = addr(2, 2000);
    assert!(matches!(st.add_client_to_subscription(&a, direct("/ws/x"), None, String::new()), Ok(true)));
    assert!(matches!(st.add_client_to_subscription(&b, direct("/ws/x"), None, String::new()), Ok(false)));
    let listeners = st.listeners(&direct("/ws/x")).unwrap();
    assert_eq!(listeners.len(), 2);
    assert!(listeners.contains(&a) && listeners.contains(&b));
}

#[test]
fn a_client_cannot_subscribe_twice() {
    let mut st = empty_state();
    let a = addr(1, 1000);
    assert!(st.add_client_to_subscription(&a, direct("/ws/x"), None, String::new()).is_ok());
    match st.add_client_to_subscription(&a, direct("/ws/x"), None, String::new()) {
        Err(e) => assert_eq!(e.error_code, ErrorCode::AlreadySubscribed),
        Ok(_) => panic!("second subscription accepted"),
    }
    assert_eq!(st.listeners(&direct("/ws/x")).unwrap().len(), 1);
}

#[test]
fn removing_a_client_undoes_its_subscription() {
    let mut st = empty_state();
    let a = addr(1, 1000);
    assert!(st.add_client_to_subscription(&a, direct("/ws/x"), None, String::new()).is_ok());
    assert!(st.is_client_still_active(&a));
    assert_eq!(st.remove_client_from_subscription(&a, &direct("/ws/x")), Ok(()));
    assert!(!st.is_client_still_active(&a));
    assert_eq!(st.listeners(&direct("/ws/x")).unwrap().len(), 0);
    assert!(st.remove_subscription_if_unused(&direct("/ws/x")));
    assert!(st.listeners(&direct("/ws/x")).is_none());
}

#[test]
fn removing_unknown_subscriptions_and_clients_fails() {
    let mut st = empty_state();
    let a = addr(1, 1000);
    assert_eq!(
        st.remove_client_from_subscription(&a, &direct("/ws/none")),
        Err("Subscription does not exist".to_string())
    );
    assert!(st.add_client_to_subscription(&addr(2, 1), direct("/ws/x"), None, String::new()).is_ok());
    assert_eq!(
        st.remove_client_from_subscription(&a, &direct("/ws/x")),
        Err("Client not subscribed to this subscription".to_string())
    );
}

#[test]
fn disconnected_client_leaves_every_subscription() {
    let mut st = empty_state();
    let a = addr(1, 1000);
    let b = addr(2, 1000);
    assert!(st.add_client_to_subscription(&a, direct("/ws/x"), None, String::new()).is_ok());
    assert!(st.add_client_to_subscription(&a, direct("/ws/y"), None, String::new()).is_ok());
    assert!(st.add_client_to_subscription(&b, direct("/ws/y"), None, String::new()).is_ok());
    st.remove_client_from_state(&a, None, String::new());
    assert!(!st.is_client_still_active(&a));
    assert!(st.is_client_still_active(&b));
    assert_eq!(st.listeners(&direct("/ws/x")).unwrap().len(), 0);
    assert_eq!(st.listeners(&direct("/ws/y")).unwrap(), vec![b]);
}

#[test]
fn websocket_limit_is_enforced_per_user() {
    let mut st = empty_state();
    let route = WebSocketLimitRoute { path: "/limited", limit_type: WebSocketLimitType::Token, limit_number: 1 };
    assert!(st.add_client_to_subscription(&addr(1, 1), direct("/ws/x"), Some(&route), "alice".to_string()).is_ok());
    match st.add_client_to_subscription(&addr(2, 2), direct("/ws/y"), Some(&route), "alice".to_string()) {
        Err(e) => assert_eq!(e.error_code, ErrorCode::ReachedWebSocketLimitNumber),
        Ok(_) => panic!("limit not enforced"),
    }
    assert!(st.add_client_to_subscription(&addr(3, 3), direct("/ws/y"), Some(&route), "bob".to_string()).is_ok());
    st.remove_client_from_state(&addr(1, 1), Some(&route), "alice".to_string());
    assert!(st.add_client_to_subscription(&addr(2, 2), direct("/ws/y"), Some(&route), "alice".to_string()).is_ok());
}

#[test]
fn failing_subscription_is_locked_then_refused() {
    let mut st = empty_state();
    let a = addr(1, 1000);
    assert!(st.add_client_to_subscription_at(&a, direct("/ws/bad"), None, String::new(), 1_000).is_ok());
    let listeners = st.close_failed_subscription_at(&direct("/ws/bad"), 1_000).unwrap();
    assert_eq!(listeners, vec![a]);
    assert!(!st.is_client_still_active(&a));
    // a second failure within the window does not lock it
    assert!(st.add_client_to_subscription_at(&a, direct("/ws/bad"), None, String::new(), 2_000).is_ok());
    assert!(st.close_failed_subscription_at(&direct("/ws/bad"), 2_000).is_some());
    assert!(st.add_client_to_subscription_at(&a, direct("/ws/bad"), None, String::new(), 3_000).is_ok());
    // a failure after the window locks it
    assert!(st.close_failed_subscription_at(&direct("/ws/bad"), 400_000).is_some());
    match st.add_client_to_subscription_at(&a, direct("/ws/bad"), None, String::new(), 400_001) {
        Err(e) => assert_eq!(e.error_code, ErrorCode::LockedSubscription),
        Ok(_) => panic!("locked subscription accepted"),
    }
    // the lock lapses after its duration
    assert!(st.add_client_to_subscription_at(&a, direct("/ws/bad"), None, String::new(), 400_000 + 1_800_000).is_ok());
    // an unknown subscription has no listeners to close
    assert!(st.close_failed_subscription_at(&direct("/ws/none"), 5).is_none());
}

#[test]
fn summary_lists_subscriptions_and_counts() {
    let mut st = empty_state();
    let a = addr(1, 1000);
    assert!(st.add_client_to_subscription(&a, direct("/ws/x"), None, String::new()).is_ok());
    assert!(st.add_client_to_subscription(&a, direct("/ws/y"), None, String::new()).is_ok());
    let (subs, counts) = st.subscription_summary();
    assert_eq!(subs.len(), 2);
    assert!(subs.contains(&("/ws/x".to_string(), vec![a])));
    assert!(subs.contains(&("/ws/y".to_string(), vec![a])));
    assert_eq!(counts, vec![(a, 2)]);
}

#[test]
fn charts_are_registered_then_stored() {
    let mut st = empty_state();
    assert_eq!(st.get_ohlc_chart("BTC-USD"), None);
    assert!(st.subscribe_ohlc_chart("BTC-USD".to_string()));
    assert!(!st.subscribe_ohlc_chart("BTC-USD".to_string()));
    assert_eq!(st.get_ohlc_chart("BTC-USD"), None);
    st.set_ohlc_chart("BTC-USD".to_string(), "{\"c\":1}".to_string());
    assert_eq!(st.get_ohlc_chart("BTC-USD"), Some("{\"c\":1}".to_string()));
}

#[test]
fn whitelist_check() {
    let st = empty_state();
    assert!(st.is_pair_whitelisted("BTC-USD").is_ok());
    match st.is_pair_whitelisted("ETH-USD") {
        Err(e) => assert_eq!(e.error_code, ErrorCode::InvalidCurrencyPair),
        Ok(_) => panic!("pair not whitelisted"),
    }
}

#[test]
fn ip_counts_follow_client_counts() {
    let mut st = empty_state();
    let a = addr(7, 1000);
    let b = addr(7, 2000);
    assert!(st.add_client_to_subscription(&a, direct("/ws/x"), None, String::new()).is_ok());
    assert!(st.add_client_to_subscription(&b, direct("/ws/x"), None, String::new()).is_ok());
    assert!(st.add_client_to_subscription(&b, direct("/ws/y"), None, String::new()).is_ok());
    assert_eq!(st.subscription_ip_count.get(&a.ip), Some(&3));
    assert_eq!(st.remove_client_from_subscription(&b, &direct("/ws/y")), Ok(()));
    assert_eq!(st.subscription_ip_count.get(&a.ip), Some(&2));
    st.remove_client_from_state(&a, None, String::new());
    assert_eq!(st.subscription_ip_count.get(&a.ip), Some(&1));
    st.remove_client_from_state(&b, None, String::new());
    assert_eq!(st.subscription_ip_count.get(&a.ip), None);
}

#[test]
fn closing_a_failed_subscription_lowers_ip_count_by_remaining_count() {
    let mut st = empty_state();
    let a = addr(8, 1000);
    for e in ["/ws/1", "/ws/2", "/ws/3"] {
        assert!(st.add_client_to_subscription_at(&a, direct(e), None, String::new(), 0).is_ok());
    }
    assert_eq!(st.subscription_ip_count.get(&a.ip), Some(&3));
    assert_eq!(st.close_failed_subscription_at(&direct("/ws/1"), 0), Some(vec![a]));
    assert_eq!(st.subscription_count.get(&a), Some(&2));
    assert_eq!(st.subscription_ip_count.get(&a.ip), Some(&1));
}

#[test]
fn removing_a_client_undoes_its_subscription_on_a_limited_route() {
    let mut st = empty_state();
    let route = WebSocketLimitRoute { path: "/limited", limit_type: WebSocketLimitType::Token, limit_number: 5 };
    let a = addr(1, 1000);
    let b = addr(1, 2000);
    assert!(st.add_client_to_subscription(&b, direct("/ws/x"), Some(&route), "bob".to_string()).is_ok());
    assert!(st.add_client_to_subscription(&a, direct("/ws/x"), Some(&route), "alice".to_string()).is_ok());
    assert_eq!(st.subscription_ip_count.get(&a.ip), Some(&2));
    assert_eq!(st.remove_client_from_subscription(&a, &direct("/ws/x")), Ok(()));
    assert_eq!(st.listeners(&direct("/ws/x")).unwrap(), vec![b]);
    assert_eq!(st.subscription_count.get(&a), None);
    assert_eq!(st.subscription_count.get(&b), Some(&1));
    assert_eq!(st.subscription_ip_count.get(&a.ip), Some(&1));
}

#[test]
fn removed_client_stays_inactive_while_others_come_and_go() {
    let mut st = empty_state();
    let a = addr(3, 1);
    let b = addr(3, 2);
    assert!(st.add_client_to_subscription(&a, direct("/ws/x"), None, String::new()).is_ok());
    st.remove_client_from_state(&a, None, String::new());
    assert!(st.add_client_to_subscription(&b, direct("/ws/x"), None, String::new()).is_ok());
    assert!(st.add_client_to_subscription(&b, direct("/ws/y"), None, String::new()).is_ok());
    assert_eq!(st.remove_client_from_subscription(&b, &direct("/ws/y")), Ok(()));
    assert!(st.close_failed_subscription_at(&direct("/ws/x"), 7).is_some());
    assert!(!st.is_client_still_active(&a));
    assert_eq!(st.subscription_count.get(&a), None);
}
