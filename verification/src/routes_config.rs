//! The routes that merx serves and the limits attached to them.
use vstd::prelude::*;
use crate::text::str_eq;

verus! {

/// The kinds of market data that merx serves.
#[derive(Debug, Clone, Copy, PartialEq, Eq, Hash, Structural)]
pub enum MarketDataType {
    CbboV1,
    MarketDepthV1,
    RestCostCalculatorV1,
    /// for pass through requests, used on proxy only
    Direct,
}

/// How a route is subscribed to and whether it needs authentication.
#[derive(Debug, Clone, Copy, PartialEq, Eq, Structural)]
pub enum SubscriptionType {
    Direct,
    Subscription,
    PublicSubscription,
    AuthenticatedRest,
}

/// What a websocket connection limit counts by.
#[derive(Debug, Clone, Copy, PartialEq, Eq, Hash, Structural)]
pub enum WebSocketLimitType {
    IP,
    Token,
}

/// A route whose websocket connections are limited in number per key.
#[derive(Debug, Clone, PartialEq, Eq, Hash)]
pub struct WebSocketLimitRoute {
    pub path: &'static str,
    pub limit_type: WebSocketLimitType,
    pub limit_number: u32,
}

/// The plain value of a websocket limit route.
pub struct WebSocketLimitRouteView {
    pub path: Seq<char>,
    pub limit_type: WebSocketLimitType,
    pub limit_number: u32,
}

impl View for WebSocketLimitRoute {
    type V = WebSocketLimitRouteView;

    open spec fn view(&self) -> WebSocketLimitRouteView {
        WebSocketLimitRouteView {
            path: self.path@,
            limit_type: self.limit_type,
            limit_number: self.limit_number,
        }
    }
}

impl WebSocketLimitRoute {
    /// Whether two routes are the same route.
    pub fn same_route(&self, other: &WebSocketLimitRoute) -> (r: bool)
        ensures
            r == (self@ == other@),
    {
        str_eq(self.path, other.path) && self.limit_type == other.limit_type
            && self.limit_number == other.limit_number
    }
}

/// The market data type served at a route.
pub open spec fn spec_route(path: Seq<char>) -> Option<MarketDataType> {
    if path == "/api/streaming/cbbo"@ {
        Some(MarketDataType::CbboV1)
    } else if path == "/api/streaming/market_depth"@ {
        Some(MarketDataType::MarketDepthV1)
    } else if path == "/api/cost_calculator"@ {
        Some(MarketDataType::RestCostCalculatorV1)
    } else if path == "/api/public/streaming/cbbo"@ {
        Some(MarketDataType::CbboV1)
    } else if path == "/api/public/streaming/market_depth"@ {
        Some(MarketDataType::MarketDepthV1)
    } else {
        None
    }
}

/// The subscription type of a route.
pub open spec fn spec_sub_type(path: Seq<char>) -> Option<SubscriptionType> {
    if path == "/api/streaming/cbbo"@ {
        Some(SubscriptionType::Subscription)
    } else if path == "/api/streaming/market_depth"@ {
        Some(SubscriptionType::Subscription)
    } else if path == "/api/cost_calculator"@ {
        Some(SubscriptionType::AuthenticatedRest)
    } else if path == "/api/public/streaming/cbbo"@ {
        Some(SubscriptionType::PublicSubscription)
    } else if path == "/api/public/streaming/market_depth"@ {
        Some(SubscriptionType::PublicSubscription)
    } else {
        None
    }
}

/// The websocket limit of a route: at most 100 connections per token on the
/// authenticated streaming routes.
pub open spec fn spec_ws_limit_route(path: Seq<char>) -> Option<WebSocketLimitRouteView> {
    if path == "/api/streaming/cbbo"@ {
        Some(
            WebSocketLimitRouteView {
                path: "/api/streaming/cbbo"@,
                limit_type: WebSocketLimitType::Token,
                limit_number: 100,
            },
        )
    } else if path == "/api/streaming/market_depth"@ {
        Some(
            WebSocketLimitRouteView {
                path: "/api/streaming/market_depth"@,
                limit_type: WebSocketLimitType::Token,
                limit_number: 100,
            },
        )
    } else {
        None
    }
}

/// The market data type served at a route.
pub fn routes_get(path: &str) -> (r: Option<MarketDataType>)
    ensures
        r == spec_route(path@),
{
    if str_eq(path, "/api/streaming/cbbo") {
        Some(MarketDataType::CbboV1)
    } else if str_eq(path, "/api/streaming/market_depth") {
        Some(MarketDataType::MarketDepthV1)
    } else if str_eq(path, "/api/cost_calculator") {
        Some(MarketDataType::RestCostCalculatorV1)
    } else if str_eq(path, "/api/public/streaming/cbbo") {
        Some(MarketDataType::CbboV1)
    } else if str_eq(path, "/api/public/streaming/market_depth") {
        Some(MarketDataType::MarketDepthV1)
    } else {
        None
    }
}

/// The subscription type of a route.
pub fn sub_type_get(path: &str) -> (r: Option<SubscriptionType>)
    ensures
        r == spec_sub_type(path@),
{
    if str_eq(path, "/api/streaming/cbbo") {
        Some(SubscriptionType::Subscription)
    } else if str_eq(path, "/api/streaming/market_depth") {
        Some(SubscriptionType::Subscription)
    } else if str_eq(path, "/api/cost_calculator") {
        Some(SubscriptionType::AuthenticatedRest)
    } else if str_eq(path, "/api/public/streaming/cbbo") {
        Some(SubscriptionType::PublicSubscription)
    } else if str_eq(path, "/api/public/streaming/market_depth") {
        Some(SubscriptionType::PublicSubscription)
    } else {
        None
    }
}

/// The websocket limit of a route, if it has one.
pub fn ws_limit_routes_get(path: &str) -> (r: Option<WebSocketLimitRoute>)
    ensures
        r matches Some(route) ==> spec_ws_limit_route(path@) == Some(route@),
        r is None ==> spec_ws_limit_route(path@) is None,
{
    if str_eq(path, "/api/streaming/cbbo") {
        Some(
            WebSocketLimitRoute {
                path: "/api/streaming/cbbo",
                limit_type: WebSocketLimitType::Token,
                limit_number: 100,
            },
        )
    } else if str_eq(path, "/api/streaming/market_depth") {
        Some(
            WebSocketLimitRoute {
                path: "/api/streaming/market_depth",
                limit_type: WebSocketLimitType::Token,
                limit_number: 100,
            },
        )
    } else {
        None
    }
}

} // verus!
