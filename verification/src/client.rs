//! Plain values for clients, their addresses and the keys that count their connections.
use vstd::prelude::*;
use crate::routes_config::WebSocketLimitRoute;
use crate::subscriptions::Subscription;
use crate::table::TableKey;

verus! {

/// The IP address of a client: a 32-bit IPv4 address or a 128-bit IPv6 address.
#[derive(Debug, Clone, Copy, PartialEq, Eq, Hash, Structural)]
pub struct ClientIp {
    pub v6: bool,
    pub bits: u128,
}

/// The socket address of a client: its IP address and port.
#[derive(Debug, Clone, Copy, PartialEq, Eq, Hash, Structural)]
pub struct ClientAddr {
    pub ip: ClientIp,
    pub port: u16,
}

/// What a websocket limit counts by: the client's IP address or its user.
#[derive(Debug, Clone, PartialEq, Eq, Hash)]
pub enum LimitKey {
    Ip(ClientIp),
    Token(String),
}

/// The plain value of a limit key.
pub enum LimitKeyView {
    Ip(ClientIp),
    Token(Seq<char>),
}

/// A client subscribed to a subscription (the channel to it is held by the server).
#[derive(Debug, Clone, Copy)]
pub struct Listener;

/// When a failing subscription was first recorded, and when it was locked.
#[derive(Debug, Clone, Copy, PartialEq, Eq, Structural)]
pub struct TimeLog {
    pub temp: i64,
    pub locked: Option<i64>,
}

impl View for ClientIp {
    type V = ClientIp;

    open spec fn view(&self) -> ClientIp {
        *self
    }
}

impl View for ClientAddr {
    type V = ClientAddr;

    open spec fn view(&self) -> ClientAddr {
        *self
    }
}

impl View for LimitKey {
    type V = LimitKeyView;

    open spec fn view(&self) -> LimitKeyView {
        match self {
            LimitKey::Ip(ip) => LimitKeyView::Ip(*ip),
            LimitKey::Token(t) => LimitKeyView::Token(t@),
        }
    }
}

impl View for Listener {
    type V = ();

    open spec fn view(&self) -> () {
        ()
    }
}

impl View for TimeLog {
    type V = TimeLog;

    open spec fn view(&self) -> TimeLog {
        *self
    }
}

impl TableKey for ClientIp {
    fn key_eq(&self, other: &Self) -> (r: bool) {
        *self == *other
    }

    fn key_clone(&self) -> (r: Self) {
        *self
    }
}

impl TableKey for ClientAddr {
    fn key_eq(&self, other: &Self) -> (r: bool) {
        *self == *other
    }

    fn key_clone(&self) -> (r: Self) {
        *self
    }
}

impl TableKey for LimitKey {
    fn key_eq(&self, other: &Self) -> (r: bool) {
        match (self, other) {
            (LimitKey::Ip(a), LimitKey::Ip(b)) => *a == *b,
            (LimitKey::Token(a), LimitKey::Token(b)) => *a == *b,
            _ => false,
        }
    }

    fn key_clone(&self) -> (r: Self) {
        match self {
            LimitKey::Ip(a) => LimitKey::Ip(*a),
            LimitKey::Token(a) => LimitKey::Token(a.clone()),
        }
    }
}

impl TableKey for Subscription {
    fn key_eq(&self, other: &Self) -> (r: bool) {
        self.same_as(other)
    }

    fn key_clone(&self) -> (r: Self) {
        self.duplicate()
    }
}

impl TableKey for WebSocketLimitRoute {
    fn key_eq(&self, other: &Self) -> (r: bool) {
        self.same_route(other)
    }

    fn key_clone(&self) -> (r: Self) {
        WebSocketLimitRoute {
            path: self.path,
            limit_type: self.limit_type,
            limit_number: self.limit_number,
        }
    }
}

} // verus!
