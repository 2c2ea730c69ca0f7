//! The decisions of merx's request handlers: which route a websocket request
//! is for, what a client's text frame is handed to, when a client's session is
//! closed, and what the REST handlers answer from the state.
use vstd::prelude::*;
use crate::client::ClientAddr;
use crate::error::ErrorCode;
use crate::md_handlers::outcome::default_message;
use crate::routes_config::{
    routes_get, spec_route, spec_sub_type, spec_ws_limit_route, sub_type_get, ws_limit_routes_get,
    MarketDataType, SubscriptionType, WebSocketLimitRoute,
};
use crate::state::ConnectionStateStruct;
use crate::text::{str_eq, trim_end_char, trim_end_matches_char};

verus! {

/// The addresses of the servers that merx talks to.
#[derive(Clone)]
pub struct URIs {
    pub cbag_uri: String,
    pub cbag_depth_uri: String,
    pub auth_uri: String,
    pub chart_uri: String,
    pub trades_uri: String,
}

/// What a websocket request is for: the market data type and subscription type
/// of its route, the route's connection limit, and the name the client goes by
/// when the route needs no authentication (`None`: authenticate the client).
pub struct WsPlan {
    pub market_data_type: MarketDataType,
    pub subscription_type: SubscriptionType,
    pub websocketlimit_route: Option<WebSocketLimitRoute>,
    pub username: Option<String>,
}

/// The name a client of a route goes by without authentication, if any.
pub open spec fn fixed_username(t: SubscriptionType) -> Option<Seq<char>> {
    match t {
        SubscriptionType::Direct => Some("DIRECT"@),
        SubscriptionType::PublicSubscription => Some("PUBLIC"@),
        _ => None,
    }
}

/// Plans a websocket request to `path` (trailing slashes ignored): an error when
/// the path is not a route that merx serves.
pub fn plan_websocket(path: &str) -> (r: Result<WsPlan, String>)
    ensures
        ({
            let base = trim_end_char(path@, '/');
            match (spec_route(base), spec_sub_type(base)) {
                (Some(mdt), Some(st)) => r matches Ok(p) && p.market_data_type == mdt
                    && p.subscription_type == st && (match p.websocketlimit_route {
                    Some(rt) => Some(rt@),
                    None => None,
                }) == spec_ws_limit_route(base) && p.username.deep_view() == fixed_username(st),
                _ => r matches Err(e) && e@ == "Endpoint not available"@,
            }
        }),
{
    let base = trim_end_matches_char(path, '/');
    let market_data_type = match routes_get(base.as_str()) {
        Some(m) => m,
        None => {
            return Err(String::from_str("Endpoint not available"));
        },
    };
    let subscription_type = match sub_type_get(base.as_str()) {
        Some(t) => t,
        None => {
            return Err(String::from_str("Endpoint not available"));
        },
    };
    let websocketlimit_route = ws_limit_routes_get(base.as_str());
    let username = match subscription_type {
        SubscriptionType::Direct => Some(String::from_str("DIRECT")),
        SubscriptionType::PublicSubscription => Some(String::from_str("PUBLIC")),
        _ => None,
    };
    proof {
        reveal_strlit("DIRECT");
        reveal_strlit("PUBLIC");
    }
    Ok(WsPlan { market_data_type, subscription_type, websocketlimit_route, username })
}

/// The longest session of a public client, in milliseconds: three hours.
pub open spec fn max_session_ms() -> int {
    10_800_000
}

/// How long a subscribing client has to subscribe before its session is
/// checked, in milliseconds.
pub open spec fn subscribe_grace_ms() -> int {
    20_000
}

/// Whether a session has lasted longer than the longest session.
pub fn exceeds_max_session_time(connected_for_ms: u64) -> (r: bool)
    ensures
        r == (connected_for_ms > max_session_ms()),
{
    connected_for_ms > 10_800_000
}

/// What the periodic check of a client's session decides.
pub enum SessionCheck {
    /// Check again later.
    Wait,
    /// Close the websocket normally, with this reason.
    Close(String),
}

/// The decision of a session check, from the subscription type, how long the
/// client has been connected and whether it still has a subscription.
pub open spec fn spec_check_session(t: SubscriptionType, connected_for_ms: int, active: bool) -> Option<Seq<char>> {
    if (t == SubscriptionType::Subscription || t == SubscriptionType::PublicSubscription)
        && connected_for_ms < subscribe_grace_ms() {
        None
    } else if !active {
        Some("Subscription no longer active"@)
    } else if t == SubscriptionType::PublicSubscription && connected_for_ms > max_session_ms() {
        Some("Exceeds max session time"@)
    } else {
        None
    }
}

/// Checks a client's session: a client that subscribes by message is first
/// given time to subscribe; then a client with no subscription left is closed,
/// and so is a public client past the longest session.
pub fn check_session(
    connection_state: &ConnectionStateStruct,
    client_address: &ClientAddr,
    subscription_type: SubscriptionType,
    connected_for_ms: u64,
) -> (r: SessionCheck)
    requires
        connection_state.wf(),
    ensures
        ({
            let counts = connection_state.subs_view().counts;
            let active = counts.contains_key(*client_address) && counts[*client_address] > 0;
            match spec_check_session(subscription_type, connected_for_ms as int, active) {
                None => r is Wait,
                Some(reason) => r matches SessionCheck::Close(x) && x@ == reason,
            }
        }),
{
    let subscribing = match subscription_type {
        SubscriptionType::Subscription => true,
        SubscriptionType::PublicSubscription => true,
        _ => false,
    };
    if subscribing && connected_for_ms < 20_000 {
        return SessionCheck::Wait;
    }
    if !connection_state.is_client_still_active(client_address) {
        return SessionCheck::Close(String::from_str("Subscription no longer active"));
    }
    let public = match subscription_type {
        SubscriptionType::PublicSubscription => true,
        _ => false,
    };
    if public && exceeds_max_session_time(connected_for_ms) {
        return SessionCheck::Close(String::from_str("Exceeds max session time"));
    }
    SessionCheck::Wait
}

/// The handler of a client's text frame.
pub enum TextFrameHandler {
    /// The cbbo handler, with the client's name (none for a public client) and
    /// whether the pair must be whitelisted.
    Cbbo { username: Option<String>, enforce_subscription_whitelist: bool },
    MarketDepth,
    CostCalculator,
    /// The frame is not a subscription message.
    Ignore,
}

/// The handler of a client's text frame, by the route's subscription type and
/// market data type: an authenticated client subscribes to cbbo under its name, a
/// public one to whitelisted pairs only and only to cbbo and market depth.
pub fn text_frame_handler(
    subscription_type: SubscriptionType,
    market_data_type: MarketDataType,
    username: &str,
) -> (r: TextFrameHandler)
    ensures
        match (subscription_type, market_data_type) {
            (SubscriptionType::Subscription, MarketDataType::CbboV1) => r matches TextFrameHandler::Cbbo {
                username: Some(u),
                enforce_subscription_whitelist: false,
            } && u@ == username@,
            (SubscriptionType::PublicSubscription, MarketDataType::CbboV1) => r matches TextFrameHandler::Cbbo {
                username: None,
                enforce_subscription_whitelist: true,
            },
            (SubscriptionType::Subscription, MarketDataType::MarketDepthV1) => r is MarketDepth,
            (SubscriptionType::PublicSubscription, MarketDataType::MarketDepthV1) => r is MarketDepth,
            (SubscriptionType::Subscription, MarketDataType::RestCostCalculatorV1) => r is CostCalculator,
            _ => r is Ignore,
        },
{
    match subscription_type {
        SubscriptionType::Subscription => match market_data_type {
            MarketDataType::CbboV1 => TextFrameHandler::Cbbo {
                username: Some(username.to_string()),
                enforce_subscription_whitelist: false,
            },
            MarketDataType::MarketDepthV1 => TextFrameHandler::MarketDepth,
            MarketDataType::RestCostCalculatorV1 => TextFrameHandler::CostCalculator,
            MarketDataType::Direct => TextFrameHandler::Ignore,
        },
        SubscriptionType::PublicSubscription => match market_data_type {
            MarketDataType::CbboV1 => TextFrameHandler::Cbbo {
                username: None,
                enforce_subscription_whitelist: true,
            },
            MarketDataType::MarketDepthV1 => TextFrameHandler::MarketDepth,
            _ => TextFrameHandler::Ignore,
        },
        _ => TextFrameHandler::Ignore,
    }
}

/// The query keys that a chart request must carry, in the order they are checked.
pub open spec fn chart_required_keys() -> Seq<Seq<char>> {
    seq!["interval"@, "product"@, "start_time"@, "end_time"@, "size"@, "exchanges"@]
}

/// Whether a key is one of the query's keys.
pub open spec fn has_key(params: Seq<(Seq<char>, Seq<char>)>, key: Seq<char>) -> bool {
    exists|i: int| 0 <= i < params.len() && (#[trigger] params[i]).0 == key
}

/// Whether `key` is one of the query's keys.
pub fn contains_key(params: &Vec<(String, String)>, key: &str) -> (r: bool)
    ensures
        r == has_key(params.deep_view(), key@),
{
    let mut i: usize = 0;
    while i < params.len()
        invariant
            i <= params@.len(),
            forall|j: int| 0 <= j < i ==> (#[trigger] params.deep_view()[j]).0 != key@,
        decreases params.len() - i,
    {
        if str_eq(params[i].0.as_str(), key) {
            assert(params.deep_view()[i as int].0 == key@);
            return true;
        }
        i = i + 1;
    }
    false
}

/// The answer to a chart request that lacks a required key: `<key> is required`
/// for the first key missing, none when all are there.
pub fn missing_chart_parameter(params: &Vec<(String, String)>) -> (r: Option<String>)
    ensures
        r is None <==> (forall|k: int| 0 <= k < 6 ==> has_key(params.deep_view(), #[trigger] chart_required_keys()[k])),
        r matches Some(m) ==> exists|k: int|
            0 <= k < 6 && !has_key(params.deep_view(), #[trigger] chart_required_keys()[k])
                && (forall|j: int| 0 <= j < k ==> has_key(params.deep_view(), chart_required_keys()[j]))
                && m@ == chart_required_keys()[k] + " is required"@,
{
    let keys: Vec<&str> = vec!["interval", "product", "start_time", "end_time", "size", "exchanges"];
    proof {
        reveal_strlit("interval");
        reveal_strlit("product");
        reveal_strlit("start_time");
        reveal_strlit("end_time");
        reveal_strlit("size");
        reveal_strlit("exchanges");
    }
    assert(keys@.map_values(|s: &str| s@) =~= chart_required_keys());
    let mut i: usize = 0;
    while i < keys.len()
        invariant
            i <= keys@.len(),
            keys@.len() == 6,
            keys@.map_values(|s: &str| s@) == chart_required_keys(),
            forall|j: int| 0 <= j < i ==> has_key(params.deep_view(), #[trigger] chart_required_keys()[j]),
        decreases keys.len() - i,
    {
        assert(keys@[i as int]@ == chart_required_keys()[i as int]);
        if !contains_key(params, keys[i]) {
            let mut m = keys[i].to_string();
            m.append(" is required");
            return Some(m);
        }
        i = i + 1;
    }
    None
}

/// What the cached ohlc chart endpoint answers.
pub enum OhlcStep {
    /// A bad request, with its body.
    BadRequest(String),
    /// The chart.
    Chart(String),
    /// The chart is not there yet: fetch it now, and start refreshing it when
    /// it was not asked for before.
    Fetch { start_refresh: bool },
}

/// Answers a request for a product's ohlc chart from the state: the product is
/// required and must be a known pair; a chart not fetched yet is asked for, and
/// a product asked for the first time is recorded.
pub fn get_cached_ohlc_response(connection_state: &mut ConnectionStateStruct, product: Option<String>) -> (r: OhlcStep)
    requires
        old(connection_state).wf(),
    ensures
        final(connection_state).wf(),
        final(connection_state).subs_view() == old(connection_state).subs_view(),
        final(connection_state).users == old(connection_state).users,
        final(connection_state).symbols == old(connection_state).symbols,
        ({
            let sym = old(connection_state).symbols@;
            let charts = old(connection_state).charts();
            match product {
                None => r matches OhlcStep::BadRequest(b) && b@ == "product is required"@
                    && final(connection_state).charts() == charts,
                Some(p) => if sym.cbbo_sizes.dom().len() == 0 {
                    r matches OhlcStep::BadRequest(b) && b@ == default_message(ErrorCode::ServerInitializing)
                        && final(connection_state).charts() == charts
                } else if !sym.cbbo_sizes.contains_key(p@) {
                    r matches OhlcStep::BadRequest(b) && b@ == default_message(ErrorCode::InvalidCurrencyPair)
                        && final(connection_state).charts() == charts
                } else if charts.contains_key(p@) && charts[p@] is Some {
                    r matches OhlcStep::Chart(c) && Some(c@) == charts[p@]
                        && final(connection_state).charts() == charts
                } else {
                    r == (OhlcStep::Fetch { start_refresh: !charts.contains_key(p@) })
                        && final(connection_state).charts() == if charts.contains_key(p@) {
                        charts
                    } else {
                        charts.insert(p@, None)
                    }
                },
            }
        }),
{
    let product = match product {
        Some(p) => p,
        None => {
            return OhlcStep::BadRequest(String::from_str("product is required"));
        },
    };
    match connection_state.is_pair_valid(product.as_str()) {
        Ok(_) => {},
        Err(e) => {
            return OhlcStep::BadRequest(e.to_json_str());
        },
    }
    match connection_state.get_ohlc_chart(product.as_str()) {
        Some(chart) => OhlcStep::Chart(chart),
        None => {
            let start_refresh = connection_state.subscribe_ohlc_chart(product);
            OhlcStep::Fetch { start_refresh }
        },
    }
}

/// The cached response of the endpoint at `path` (trailing slashes ignored).
pub fn get_cached_response(connection_state: &ConnectionStateStruct, path: &str) -> (r: Option<String>)
    requires
        connection_state.wf(),
    ensures
        ({
            let cached = connection_state.symbols@.cached_responses;
            let endpoint = trim_end_char(path@, '/');
            &&& cached.contains_key(endpoint) ==> (r matches Some(b) && b@ == cached[endpoint])
            &&& !cached.contains_key(endpoint) ==> r is None
        }),
{
    let endpoint = trim_end_matches_char(path, '/');
    match connection_state.get_cached_response(endpoint.as_str()) {
        Ok(b) => Some(b),
        Err(_) => None,
    }
}

} // verus!
