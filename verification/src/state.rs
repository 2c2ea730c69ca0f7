//! The connection state: every subscription made to cbag with the clients that
//! listen to it, the number of subscriptions of each client and of each IP
//! address, the subscriptions that failed upstream, the websocket connection
//! counts of limited routes, and the users, symbols and charts known to merx.
use vstd::prelude::*;
use crate::client::{ClientAddr, ClientIp, LimitKey, LimitKeyView, Listener, TimeLog};
use crate::clock::now_millis;
use crate::error::{ErrorCode, MerxErrorResponse};
use crate::routes_config::{WebSocketLimitRoute, WebSocketLimitRouteView, WebSocketLimitType};
use crate::subscriptions::{SubTraits, Subscription, SubscriptionView};
use crate::symbols::{SizeValue, Symbols, SymbolsView, same_size, invalid_size_filter_text};
use crate::text::str_eq;
use crate::user::{recorded_in, within_window, UserResponse, spec_add_or_update_user, first_missing, invalid_exchange_text, spec_exchange_cbag_market};
use crate::text::opt_view;
use crate::subscriptions::views_of;
use crate::table::{increment, Table, TableKey};
use crate::user::Users;

verus! {

/// How long a subscription stays locked after repeated upstream failures: 30 minutes.
pub open spec fn lock_duration_ms() -> int {
    1_800_000
}

/// How long after a first upstream failure a further failure locks the subscription: 5 minutes.
pub open spec fn failure_window_ms() -> int {
    300_000
}

/// The plain value of the subscription bookkeeping.
pub struct SubscriptionsView {
    /// the clients of each subscription
    pub subs: Map<SubscriptionView, Set<ClientAddr>>,
    /// the number of subscriptions of each client
    pub counts: Map<ClientAddr, u32>,
    /// the number of subscriptions from each IP address
    pub ip_counts: Map<ClientIp, u32>,
    /// the subscriptions that failed upstream
    pub bad: Map<SubscriptionView, TimeLog>,
    /// the websocket connection counts of each limited route
    pub limits: Map<WebSocketLimitRouteView, Map<LimitKeyView, u32>>,
}

/// The clients of each subscription.
pub open spec fn clients_of(t: Map<SubscriptionView, Map<ClientAddr, ()>>) -> Map<SubscriptionView, Set<ClientAddr>> {
    t.map_values(|m: Map<ClientAddr, ()>| m.dom())
}

/// The count of `k` plus one (one when it has none).
pub open spec fn incremented<K>(m: Map<K, u32>, k: K) -> Map<K, u32> {
    m.insert(k, if m.contains_key(k) { (m[k] + 1) as u32 } else { 1u32 })
}

/// The key that a limited route counts a client's connection by.
pub open spec fn limit_key_of(t: WebSocketLimitType, client: ClientAddr, username: Seq<char>) -> LimitKeyView {
    match t {
        WebSocketLimitType::IP => LimitKeyView::Ip(client.ip),
        WebSocketLimitType::Token => LimitKeyView::Token(username),
    }
}

/// The subscription is locked at time `now`.
pub open spec fn is_locked(s: SubscriptionsView, sub: SubscriptionView, now: int) -> bool {
    s.bad.contains_key(sub) && s.bad[sub].locked is Some && now - s.bad[sub].locked->0
        < lock_duration_ms()
}

/// The subscription's lock, if any, is lifted.
pub open spec fn unlock(s: SubscriptionsView, sub: SubscriptionView) -> SubscriptionsView {
    if s.bad.contains_key(sub) && s.bad[sub].locked is Some {
        SubscriptionsView { bad: s.bad.remove(sub), ..s }
    } else {
        s
    }
}

/// The client is already a listener of the subscription.
pub open spec fn is_listener(s: SubscriptionsView, client: ClientAddr, sub: SubscriptionView) -> bool {
    s.subs.contains_key(sub) && s.subs[sub].contains(client)
}

/// The client becomes a listener of the subscription, which is created if need
/// be, and its counts go up by one.
pub open spec fn add_listener(s: SubscriptionsView, client: ClientAddr, sub: SubscriptionView) -> SubscriptionsView {
    SubscriptionsView {
        subs: s.subs.insert(
            sub,
            if s.subs.contains_key(sub) { s.subs[sub].insert(client) } else { set![client] },
        ),
        counts: incremented(s.counts, client),
        ip_counts: incremented(s.ip_counts, client.ip),
        ..s
    }
}

/// Adding a client to a subscription at time `now`: the new state, and whether
/// the subscription is new upstream, or the error.
pub open spec fn spec_add_client(
    s: SubscriptionsView,
    client: ClientAddr,
    sub: SubscriptionView,
    route: Option<WebSocketLimitRouteView>,
    username: Seq<char>,
    now: int,
) -> (SubscriptionsView, Result<bool, ErrorCode>) {
    if is_locked(s, sub, now) {
        (s, Err(ErrorCode::LockedSubscription))
    } else {
        let s1 = unlock(s, sub);
        match route {
            None => {
                if is_listener(s1, client, sub) {
                    (s1, Err(ErrorCode::AlreadySubscribed))
                } else {
                    (add_listener(s1, client, sub), Ok(!s1.subs.contains_key(sub)))
                }
            },
            Some(rt) => {
                let key = limit_key_of(rt.limit_type, client, username);
                let limits = if s1.limits.contains_key(rt) {
                    s1.limits
                } else {
                    s1.limits.insert(rt, Map::empty())
                };
                let s2 = SubscriptionsView { limits, ..s1 };
                if limits[rt].contains_key(key) && limits[rt][key] >= rt.limit_number {
                    (s2, Err(ErrorCode::ReachedWebSocketLimitNumber))
                } else if is_listener(s2, client, sub) {
                    (s2, Err(ErrorCode::AlreadySubscribed))
                } else {
                    let s3 = add_listener(s2, client, sub);
                    (
                        SubscriptionsView {
                            limits: s3.limits.insert(rt, incremented(s3.limits[rt], key)),
                            ..s3
                        },
                        Ok(!s2.subs.contains_key(sub)),
                    )
                }
            },
        }
    }
}

/// The error of a result, by its code.
pub open spec fn code_of<T>(r: Result<T, MerxErrorResponse>) -> Result<T, ErrorCode> {
    match r {
        Ok(v) => Ok(v),
        Err(e) => Err(e.error_code),
    }
}

/// An error response carries the name and default text of its code.
pub open spec fn is_default_error<T>(r: Result<T, MerxErrorResponse>) -> bool {
    r matches Err(e) ==> e.error@ == e.error_code.spec_name() && e.error_text@
        == e.error_code.spec_default_error_text()
}

/// A chart of a product, once fetched.
pub struct Chart {
    data: Option<String>,
}

/// The connection state.
pub struct ConnectionStateStruct {
    pub subscription_state: Table<Subscription, Table<ClientAddr, Listener>>,
    pub subscription_count: Table<ClientAddr, u32>,
    pub subscription_ip_count: Table<ClientIp, u32>,
    pub subscription_bad: Table<Subscription, TimeLog>,
    pub websocket_limit_state: Table<WebSocketLimitRoute, Table<LimitKey, u32>>,
    pub users: Users,
    pub symbols: Symbols,
    pub symbols_whitelist: Vec<String>,
    pub chart_exchanges: Vec<String>,
    pub product_to_chart: Table<String, Chart>,
}

impl View for Chart {
    type V = Option<Seq<char>>;

    closed spec fn view(&self) -> Option<Seq<char>> {
        match self.data {
            Some(d) => Some(d@),
            None => None,
        }
    }
}

impl ConnectionStateStruct {
    /// The subscription bookkeeping.
    pub open spec fn subs_view(&self) -> SubscriptionsView {
        SubscriptionsView {
            subs: clients_of(self.subscription_state@),
            counts: self.subscription_count@,
            ip_counts: self.subscription_ip_count@,
            bad: self.subscription_bad@,
            limits: self.websocket_limit_state@,
        }
    }

    /// The charts known, by product.
    pub open spec fn charts(&self) -> Map<Seq<char>, Option<Seq<char>>> {
        self.product_to_chart@
    }

    /// All tables are well formed.
    pub open spec fn wf(&self) -> bool {
        &&& self.subscription_state.wf()
        &&& forall|i: int|
            0 <= i < self.subscription_state.spec_len()
                ==> (#[trigger] self.subscription_state.spec_value_at(i)).wf()
        &&& self.subscription_count.wf()
        &&& self.subscription_ip_count.wf()
        &&& self.subscription_bad.wf()
        &&& self.websocket_limit_state.wf()
        &&& forall|i: int|
            0 <= i < self.websocket_limit_state.spec_len()
                ==> (#[trigger] self.websocket_limit_state.spec_value_at(i)).wf()
        &&& self.users.wf()
        &&& self.symbols.wf()
        &&& self.product_to_chart.wf()
    }

    /// Nothing but the subscription bookkeeping differs.
    pub open spec fn same_but_subscriptions(&self, other: &Self) -> bool {
        &&& self.users == other.users
        &&& self.symbols == other.symbols
        &&& self.symbols_whitelist == other.symbols_whitelist
        &&& self.chart_exchanges == other.chart_exchanges
        &&& self.charts() == other.charts()
    }
}

/// No count is zero: a client, an address or a limit key with no connection has no entry.
pub open spec fn no_zero_counts(s: SubscriptionsView) -> bool {
    &&& forall|c: ClientAddr| #[trigger] s.counts.contains_key(c) ==> s.counts[c] > 0
    &&& forall|ip: ClientIp| #[trigger] s.ip_counts.contains_key(ip) ==> s.ip_counts[ip] > 0
    &&& forall|rt: WebSocketLimitRouteView, k: LimitKeyView|
        s.limits.contains_key(rt) && #[trigger] s.limits[rt].contains_key(k) ==> s.limits[rt][k] > 0
}

/// The error text of a result.
pub open spec fn text_of<T>(r: Result<T, String>) -> Result<T, Seq<char>> {
    match r {
        Ok(v) => Ok(v),
        Err(e) => Err(e@),
    }
}

/// Removing a client from a subscription: the new state and the result.
pub open spec fn spec_remove_client(s: SubscriptionsView, client: ClientAddr, sub: SubscriptionView) -> (
    SubscriptionsView,
    Result<(), Seq<char>>,
) {
    if !s.subs.contains_key(sub) {
        (s, Err("Subscription does not exist"@))
    } else if !s.subs[sub].contains(client) {
        (s, Err("Client not subscribed to this subscription"@))
    } else {
        let s1 = SubscriptionsView { subs: s.subs.insert(sub, s.subs[sub].remove(client)), ..s };
        if !s1.counts.contains_key(client) {
            (s1, Err("Client not subscribed to any subscriptions"@))
        } else {
            let counts = s1.counts.insert(client, (s1.counts[client] - 1) as u32);
            let s2 = SubscriptionsView { counts, ..s1 };
            let ip = client.ip;
            if !s2.ip_counts.contains_key(ip) {
                (s2, Err("Client not subscribed to any subscriptions"@))
            } else if s2.ip_counts[ip] == 0 {
                (s2, Err("Count has already reached zero for this client"@))
            } else {
                let ip_counts = s2.ip_counts.insert(ip, (s2.ip_counts[ip] - 1) as u32);
                (
                    SubscriptionsView {
                        counts: if counts[client] == 0 { counts.remove(client) } else { counts },
                        ip_counts: if ip_counts[ip] == 0 { ip_counts.remove(ip) } else { ip_counts },
                        ..s2
                    },
                    Ok(()),
                )
            }
        }
    }
}

/// The subscriptions that a client listens to.
pub open spec fn listened(subs: Map<SubscriptionView, Set<ClientAddr>>, c: ClientAddr) -> Set<SubscriptionView> {
    subs.dom().filter(|x: SubscriptionView| subs[x].contains(c))
}

/// Every subscription without the client.
pub open spec fn without_client(subs: Map<SubscriptionView, Set<ClientAddr>>, c: ClientAddr) -> Map<SubscriptionView, Set<ClientAddr>> {
    subs.map_values(|m: Set<ClientAddr>| m.remove(c))
}

/// The websocket connection counts after a client that listened to exactly one
/// subscription left a limited route: its count goes down by one (an entry that
/// is or reaches zero is removed).
pub open spec fn release_limit(
    limits: Map<WebSocketLimitRouteView, Map<LimitKeyView, u32>>,
    rt: WebSocketLimitRouteView,
    key: LimitKeyView,
) -> Map<WebSocketLimitRouteView, Map<LimitKeyView, u32>> {
    if limits.contains_key(rt) && limits[rt].contains_key(key) {
        let v = limits[rt][key];
        let v2 = if v < 1 { v } else { (v - 1) as u32 };
        limits.insert(rt, if v2 == 0 { limits[rt].remove(key) } else { limits[rt].insert(key, v2) })
    } else {
        limits
    }
}

/// Removing a disconnected client from the whole state.
pub open spec fn spec_remove_client_from_state(
    s: SubscriptionsView,
    c: ClientAddr,
    route: Option<WebSocketLimitRouteView>,
    username: Seq<char>,
) -> SubscriptionsView {
    let ip = c.ip;
    SubscriptionsView {
        subs: without_client(s.subs, c),
        counts: s.counts.remove(c),
        ip_counts: if s.ip_counts.contains_key(ip) && s.counts.contains_key(c) {
            if s.ip_counts[ip] > s.counts[c] {
                s.ip_counts.insert(ip, (s.ip_counts[ip] - s.counts[c]) as u32)
            } else {
                s.ip_counts.remove(ip)
            }
        } else {
            s.ip_counts
        },
        bad: s.bad,
        limits: match route {
            Some(rt) => if listened(s.subs, c).len() == 1 {
                release_limit(s.limits, rt, limit_key_of(rt.limit_type, c, username))
            } else {
                s.limits
            },
            None => s.limits,
        },
    }
}

/// The failure log after a subscription failed upstream at time `now`: a first
/// failure is recorded; a failure at least the failure window after the first
/// locks the subscription.
pub open spec fn record_failure(bad: Map<SubscriptionView, TimeLog>, sub: SubscriptionView, now: i64) -> Map<SubscriptionView, TimeLog> {
    if bad.contains_key(sub) {
        if now - bad[sub].temp < failure_window_ms() {
            bad
        } else {
            bad.insert(sub, TimeLog { temp: bad[sub].temp, locked: Some(now) })
        }
    } else {
        bad.insert(sub, TimeLog { temp: now, locked: None })
    }
}

/// The subscription counts after the listeners of a closed subscription lost
/// it: each goes down by one, and an entry that reaches zero is removed.
pub open spec fn release_counts(counts: Map<ClientAddr, u32>, listeners: Set<ClientAddr>) -> Map<ClientAddr, u32> {
    Map::new(
        |c: ClientAddr| counts.contains_key(c) && !(listeners.contains(c) && counts[c] <= 1),
        |c: ClientAddr| if listeners.contains(c) { (counts[c] - 1) as u32 } else { counts[c] },
    )
}

/// The IP address counts after the listeners of a closed subscription, in
/// turn, lowered the count of their address by their remaining subscription
/// count (an entry that reaches zero is removed).
pub open spec fn release_ip_counts(
    ip_counts: Map<ClientIp, u32>,
    counts: Map<ClientAddr, u32>,
    clients: Seq<ClientAddr>,
) -> Map<ClientIp, u32>
    decreases clients.len(),
{
    if clients.len() == 0 {
        ip_counts
    } else {
        let rest = release_ip_counts(ip_counts, counts, clients.drop_last());
        let c = clients.last();
        if counts.contains_key(c) && rest.contains_key(c.ip) {
            let v = if rest[c.ip] > counts[c] { (rest[c.ip] - counts[c]) as u32 } else { 0u32 };
            if v == 0 {
                rest.remove(c.ip)
            } else {
                rest.insert(c.ip, v)
            }
        } else {
            rest
        }
    }
}

/// Closing a subscription that failed upstream at time `now`, whose listeners,
/// in the order they are released, are `listeners`.
pub open spec fn spec_close_failed_subscription(
    s: SubscriptionsView,
    sub: SubscriptionView,
    now: i64,
    listeners: Option<Seq<ClientAddr>>,
) -> SubscriptionsView {
    let bad = record_failure(s.bad, sub, now);
    match listeners {
        None => SubscriptionsView { bad, ..s },
        Some(l) => {
            let counts = release_counts(s.counts, s.subs[sub]);
            SubscriptionsView {
                subs: s.subs.remove(sub),
                counts,
                ip_counts: release_ip_counts(s.ip_counts, counts, l),
                bad,
                limits: s.limits,
            }
        },
    }
}

/// The listeners returned, as a sequence.
pub open spec fn listeners_view(r: Option<Vec<ClientAddr>>) -> Option<Seq<ClientAddr>> {
    match r {
        Some(l) => Some(l@),
        None => None,
    }
}

/// The plain value of an optional route.
pub open spec fn route_view(r: Option<&WebSocketLimitRoute>) -> Option<WebSocketLimitRouteView> {
    match r {
        Some(rt) => Some(rt@),
        None => None,
    }
}

impl ConnectionStateStruct {
    /// The nested tables of the subscription state stay well formed when the
    /// table is changed by an insertion of a well formed value.
    proof fn lemma_nested_insert<K: TableKey, W: TableKey, V: View>(
        before: Table<K, Table<W, V>>,
        after: Table<K, Table<W, V>>,
        v: Table<W, V>,
    )
        requires
            forall|i: int| 0 <= i < before.spec_len() ==> (#[trigger] before.spec_value_at(i)).wf(),
            v.wf(),
            after.values_from(&before, Some(v)),
        ensures
            forall|i: int| 0 <= i < after.spec_len() ==> (#[trigger] after.spec_value_at(i)).wf(),
    {
        assert forall|j: int| 0 <= j < after.spec_len() implies (#[trigger] after.spec_value_at(j)).wf() by {
            if Some(after.spec_value_at(j)) != Some(v) {
                let k = choose|k: int| 0 <= k < before.spec_len() && after.spec_value_at(j) == before.spec_value_at(k);
                assert(before.spec_value_at(k).wf());
            }
        }
    }

    /// Adds a client to a subscription at time `now`, unless the subscription is
    /// locked, the client's limited route has reached its limit, or the client
    /// already listens to it. Returns whether the subscription is new, that is,
    /// whether it has to be made upstream.
    pub fn add_client_to_subscription_at(
        &mut self,
        client_address: &ClientAddr,
        subscription: Subscription,
        websocketlimit_type: Option<&WebSocketLimitRoute>,
        username: String,
        now: i64,
    ) -> (r: Result<bool, MerxErrorResponse>)
        requires
            old(self).wf(),
            old(self).subs_view().counts.contains_key(*client_address) ==> old(self).subs_view().counts[*client_address] < u32::MAX,
            old(self).subs_view().ip_counts.contains_key(client_address.ip) ==> old(self).subs_view().ip_counts[client_address.ip] < u32::MAX,
        ensures
            final(self).wf(),
            final(self).same_but_subscriptions(old(self)),
            (final(self).subs_view(), code_of(r)) == spec_add_client(
                old(self).subs_view(),
                *client_address,
                subscription@,
                route_view(websocketlimit_type),
                username@,
                now as int,
            ),
            is_default_error(r),
    {
        let ghost s0 = self.subs_view();
        let ghost sub = subscription@;
        let ghost client = *client_address;
        // a locked subscription is refused; an expired lock is lifted
        match self.subscription_bad.get(&subscription) {
            Some(log) => {
                match log.locked {
                    Some(t) => {
                        if (now as i128) - (t as i128) < 1_800_000 {
                            return Err(MerxErrorResponse::new(ErrorCode::LockedSubscription));
                        }
                        self.subscription_bad.remove(&subscription);
                    },
                    None => {},
                }
            },
            None => {},
        }
        let ghost s1 = self.subs_view();
        assert(s1 == unlock(s0, sub));
        // a limited route must not have reached its limit
        let mut limit_key: Option<LimitKey> = None;
        match websocketlimit_type {
            Some(route) => {
                let key = match route.limit_type {
                    WebSocketLimitType::IP => LimitKey::Ip(client_address.ip),
                    WebSocketLimitType::Token => LimitKey::Token(username),
                };
                if !self.websocket_limit_state.contains_key(route) {
                    let ghost before = self.websocket_limit_state;
                    let empty: Table<LimitKey, u32> = Table::new();
                    self.websocket_limit_state.insert(route.key_clone(), empty);
                    proof {
                        Self::lemma_nested_insert(before, self.websocket_limit_state, empty);
                    }
                }
                let i = self.websocket_limit_state.index_of(route).unwrap();
                let counts = self.websocket_limit_state.value_at(i);
                proof {
                    self.websocket_limit_state.lemma_positions();
                    assert(counts.wf());
                }
                match counts.get(&key) {
                    Some(n) => {
                        if *n >= route.limit_number {
                            return Err(MerxErrorResponse::new(ErrorCode::ReachedWebSocketLimitNumber));
                        }
                    },
                    None => {},
                }
                proof {
                    assert(key@ == limit_key_of(route.limit_type, client, username@));
                    assert(self.websocket_limit_state@[route@] == counts@);
                    assert(!(counts@.contains_key(key@) && counts@[key@] >= route.limit_number));
                    assert(self.subs_view().limits == (if s1.limits.contains_key(route@) {
                        s1.limits
                    } else {
                        s1.limits.insert(route@, Map::empty())
                    }));
                }
                limit_key = Some(key);
            },
            None => {},
        }
        let ghost s2 = self.subs_view();
        assert(s2.subs == s1.subs && s2.counts == s1.counts && s2.ip_counts == s1.ip_counts
            && s2.bad == s1.bad);
        assert(websocketlimit_type is None ==> s2 == s1);
        assert(websocketlimit_type is Some ==> limit_key is Some && limit_key->0@ == limit_key_of(
            websocketlimit_type->0.limit_type,
            client,
            username@,
        ));
        // the client must not listen already
        let already: bool;
        match self.subscription_state.index_of(&subscription) {
            Some(i) => {
                proof {
                    self.subscription_state.lemma_positions();
                }
                if self.subscription_state.value_at(i).contains_key(client_address) {
                    return Err(MerxErrorResponse::new(ErrorCode::AlreadySubscribed));
                }
                let mut clients = self.subscription_state.replace_value_at(i, Table::new());
                let ghost old_clients = clients@;
                clients.insert(*client_address, Listener);
                self.subscription_state.set_value_at(i, clients);
                proof {
                    assert(clients_of(self.subscription_state@) =~= s2.subs.insert(sub, s2.subs[sub].insert(client)));
                }
                already = true;
            },
            None => {
                let ghost before = self.subscription_state;
                let mut clients = Table::new();
                clients.insert(*client_address, Listener);
                self.subscription_state.insert(subscription, clients);
                proof {
                    Self::lemma_nested_insert(before, self.subscription_state, clients);
                    assert(clients@.dom() =~= set![client]);
                    assert(clients_of(self.subscription_state@) =~= s2.subs.insert(sub, set![client]));
                }
                already = false;
            },
        }
        // count the connection on the limited route
        match (websocketlimit_type, limit_key) {
            (Some(route), Some(key)) => {
                let i = self.websocket_limit_state.index_of(route).unwrap();
                let mut counts = self.websocket_limit_state.replace_value_at(i, Table::new());
                proof {
                    self.websocket_limit_state.lemma_positions();
                }
                increment(&mut counts, key);
                self.websocket_limit_state.set_value_at(i, counts);
            },
            _ => {},
        }
        increment(&mut self.subscription_count, *client_address);
        increment(&mut self.subscription_ip_count, client_address.ip);
        proof {
            let s3 = add_listener(s2, client, sub);
            assert(self.subs_view().subs == s3.subs);
            assert(self.subs_view().counts == s3.counts);
            assert(self.subs_view().ip_counts == s3.ip_counts);
            assert(self.subs_view().bad == s3.bad);
            assert(already == s2.subs.contains_key(sub));
            assert(!is_listener(s2, client, sub));
            assert(!is_locked(s0, sub, now as int));
            match websocketlimit_type {
                None => {
                    assert(self.subs_view().limits == s2.limits);
                    assert(self.subs_view() == s3);
                },
                Some(route) => {
                    let key = limit_key->0@;
                    assert(self.subs_view().limits == s2.limits.insert(
                        route@,
                        incremented(s2.limits[route@], key),
                    ));
                    assert(!(s2.limits[route@].contains_key(key) && s2.limits[route@][key]
                        >= route.limit_number));
                },
            }
        }
        Ok(!already)
    }
    /// Removes a client from a subscription, lowering its counts (an entry that
    /// reaches zero is removed).
    pub fn remove_client_from_subscription(
        &mut self,
        client_address: &ClientAddr,
        subscription: &Subscription,
    ) -> (r: Result<(), String>)
        requires
            old(self).wf(),
            old(self).subs_view().counts.contains_key(*client_address) ==> old(self).subs_view().counts[*client_address] > 0,
        ensures
            final(self).wf(),
            final(self).same_but_subscriptions(old(self)),
            (final(self).subs_view(), text_of(r)) == spec_remove_client(
                old(self).subs_view(),
                *client_address,
                subscription@,
            ),
    {
        let ghost s0 = self.subs_view();
        let ghost sub = subscription@;
        let ghost client = *client_address;
        match self.subscription_state.index_of(subscription) {
            Some(i) => {
                proof {
                    self.subscription_state.lemma_positions();
                }
                if !self.subscription_state.value_at(i).contains_key(client_address) {
                    return Err(String::from_str("Client not subscribed to this subscription"));
                }
                let mut clients = self.subscription_state.replace_value_at(i, Table::new());
                clients.remove(client_address);
                self.subscription_state.set_value_at(i, clients);
                proof {
                    assert(clients_of(self.subscription_state@) =~= s0.subs.insert(sub, s0.subs[sub].remove(client)));
                }
            },
            None => {
                return Err(String::from_str("Subscription does not exist"));
            },
        }
        let count = match self.subscription_count.get(client_address) {
            Some(c) => *c,
            None => {
                return Err(String::from_str("Client not subscribed to any subscriptions"));
            },
        };
        self.subscription_count.insert(*client_address, count - 1);
        let ip_count = match self.subscription_ip_count.get(&client_address.ip) {
            Some(c) => *c,
            None => {
                return Err(String::from_str("Client not subscribed to any subscriptions"));
            },
        };
        if ip_count == 0 {
            return Err(String::from_str("Count has already reached zero for this client"));
        }
        self.subscription_ip_count.insert(client_address.ip, ip_count - 1);
        if count - 1 == 0 {
            self.subscription_count.remove(client_address);
        }
        if ip_count - 1 == 0 {
            self.subscription_ip_count.remove(&client_address.ip);
        }
        Ok(())
    }
    /// Removes a disconnected client from every subscription and drops its
    /// count; its IP address count goes down by that count. When the client
    /// listened to exactly one subscription, its connection on a limited route is
    /// released.
    pub fn remove_client_from_state(
        &mut self,
        client_address: &ClientAddr,
        websocketlimit_type: Option<&WebSocketLimitRoute>,
        username: String,
    )
        requires
            old(self).wf(),
        ensures
            final(self).wf(),
            final(self).same_but_subscriptions(old(self)),
            final(self).subs_view() == spec_remove_client_from_state(
                old(self).subs_view(),
                *client_address,
                route_view(websocketlimit_type),
                username@,
            ),
    {
        let ghost s0 = self.subs_view();
        let ghost c = *client_address;
        let removal_count = remove_listener_everywhere(&mut self.subscription_state, client_address);
        // release the connection on the limited route
        if removal_count == 1 {
            match websocketlimit_type {
                Some(route) => {
                    let key = match route.limit_type {
                        WebSocketLimitType::IP => LimitKey::Ip(client_address.ip),
                        WebSocketLimitType::Token => LimitKey::Token(username),
                    };
                    match self.websocket_limit_state.index_of(route) {
                        Some(i) => {
                            proof {
                                self.websocket_limit_state.lemma_positions();
                            }
                            let mut counts = self.websocket_limit_state.replace_value_at(i, Table::new());
                            match counts.get(&key) {
                                Some(v) => {
                                    let v2 = if *v < 1 { *v } else { *v - 1 };
                                    if v2 == 0 {
                                        counts.remove(&key);
                                    } else {
                                        counts.insert(key, v2);
                                    }
                                },
                                None => {},
                            }
                            self.websocket_limit_state.set_value_at(i, counts);
                            proof {
                                assert(self.websocket_limit_state@ =~= release_limit(
                                    s0.limits,
                                    route@,
                                    limit_key_of(route.limit_type, c, username@),
                                ));
                            }
                        },
                        None => {},
                    }
                },
                None => {},
            }
        }
        // and from the counts
        let count = match self.subscription_count.remove(client_address) {
            Some(c) => Some(c),
            None => None,
        };
        match self.subscription_ip_count.get(&client_address.ip) {
            Some(ip_count) => {
                match count {
                    Some(count) => {
                        if *ip_count > count {
                            let v = *ip_count - count;
                            self.subscription_ip_count.insert(client_address.ip, v);
                        } else {
                            self.subscription_ip_count.remove(&client_address.ip);
                        }
                    },
                    None => {},
                }
            },
            None => {},
        }
    }
    /// Closes a subscription that failed upstream at time `now`: the failure is
    /// logged, and, when the subscription is still held, its listeners lose it
    /// and it is removed. Returns the listeners, to be told, or `None` when the
    /// subscription is no longer held.
    pub fn close_failed_subscription_at(&mut self, subscription: &Subscription, now: i64) -> (r: Option<Vec<ClientAddr>>)
        requires
            old(self).wf(),
            old(self).subs_view().subs.contains_key(subscription@) ==> forall|c: ClientAddr|
                #[trigger] old(self).subs_view().subs[subscription@].contains(c)
                    && old(self).subs_view().counts.contains_key(c) ==> old(self).subs_view().counts[c] > 0,
        ensures
            final(self).wf(),
            final(self).same_but_subscriptions(old(self)),
            r is Some == old(self).subs_view().subs.contains_key(subscription@),
            r matches Some(l) ==> l@.to_set() == old(self).subs_view().subs[subscription@]
                && l@.no_duplicates(),
            final(self).subs_view() == spec_close_failed_subscription(
                old(self).subs_view(),
                subscription@,
                now,
                listeners_view(r),
            ),
    {
        let ghost s0 = self.subs_view();
        let ghost sub = subscription@;
        // log the failure
        match self.subscription_bad.index_of(subscription) {
            Some(i) => {
                proof {
                    self.subscription_bad.lemma_positions();
                }
                let log = *self.subscription_bad.value_at(i);
                if (now as i128) - (log.temp as i128) >= 300_000 {
                    self.subscription_bad.set_value_at(i, TimeLog { temp: log.temp, locked: Some(now) });
                }
            },
            None => {
                self.subscription_bad.insert(subscription.key_clone(), TimeLog { temp: now, locked: None });
            },
        }
        assert(self.subscription_bad@ == record_failure(s0.bad, sub, now));
        let i = match self.subscription_state.index_of(subscription) {
            Some(i) => i,
            None => {
                return None;
            },
        };
        proof {
            self.subscription_state.lemma_positions();
        }
        let listeners = self.subscription_state.value_at(i).keys();
        let ghost set = s0.subs[sub];
        proof {
            let t = self.subscription_state.spec_value_at(i as int);
            assert(t.wf());
            t.lemma_positions();
            assert(self.subscription_state.spec_key_at(i as int) == sub);
            assert(self.subscription_state@[sub] == t@);
            assert(set == t@.dom());
            assert(listeners@.len() == t.spec_len());
            assert forall|j: int| 0 <= j < listeners@.len() implies listeners@[j] == t.spec_key_at(j) by {
                assert(listeners@[j]@ == t.spec_key_at(j));
            }
            assert(listeners@.to_set() =~= set) by {
                assert forall|c: ClientAddr| #[trigger] listeners@.contains(c) implies set.contains(c) by {
                    let j = choose|j: int| 0 <= j < listeners@.len() && listeners@[j] == c;
                    assert(listeners@[j] == t.spec_key_at(j));
                }
                assert forall|c: ClientAddr| #[trigger] set.contains(c) implies listeners@.contains(c) by {
                    let j = choose|j: int| 0 <= j < t.spec_len() && t.spec_key_at(j) == c;
                    assert(listeners@[j] == t.spec_key_at(j));
                }
            }
            assert forall|a: int, b: int| 0 <= a < listeners@.len() && 0 <= b < listeners@.len() && a != b
                implies listeners@[a] != listeners@[b] by {
                assert(listeners@[a] == t.spec_key_at(a));
                assert(listeners@[b] == t.spec_key_at(b));
                assert(t.spec_key_at(a) != t.spec_key_at(b));
            }
        }
        release_listener_counts(&mut self.subscription_count, &listeners, Ghost(set));
        let ghost counts_after = self.subscription_count@;
        release_listener_addresses(&mut self.subscription_ip_count, &self.subscription_count, &listeners);
        // the subscription is gone
        let ghost before_state = self.subscription_state;
        self.subscription_state.remove(subscription);
        proof {
            assert forall|j: int| 0 <= j < self.subscription_state.spec_len() implies (#[trigger] self.subscription_state.spec_value_at(j)).wf() by {
                assert(Some(self.subscription_state.spec_value_at(j)) != None::<Table<ClientAddr, Listener>>);
                let m = choose|m: int| 0 <= m < before_state.spec_len() && self.subscription_state.spec_value_at(j) == before_state.spec_value_at(m);
                assert(before_state.spec_value_at(m).wf());
            }
            assert(clients_of(self.subscription_state@) =~= s0.subs.remove(sub));
        }
        Some(listeners)
    }
    /// A state with no subscriptions, users, symbols or charts.
    pub fn new(symbols_whitelist: Vec<String>, chart_exchanges: Vec<String>) -> (r: Self)
        ensures
            r.wf(),
            r.subs_view().subs == Map::<SubscriptionView, Set<ClientAddr>>::empty(),
            r.subs_view().counts == Map::<ClientAddr, u32>::empty(),
            r.subs_view().ip_counts == Map::<ClientIp, u32>::empty(),
            r.subs_view().bad == Map::<SubscriptionView, TimeLog>::empty(),
            r.subs_view().limits == Map::<WebSocketLimitRouteView, Map<LimitKeyView, u32>>::empty(),
            r.users@.users.is_empty(),
            r.symbols@.cbbo_sizes.is_empty(),
            r.symbols_whitelist@ == symbols_whitelist@,
            r.chart_exchanges@ == chart_exchanges@,
            r.charts().is_empty(),
    {
        let r = ConnectionStateStruct {
            subscription_state: Table::new(),
            subscription_count: Table::new(),
            subscription_ip_count: Table::new(),
            subscription_bad: Table::new(),
            websocket_limit_state: Table::new(),
            users: Users::new(),
            symbols: Symbols::new(),
            symbols_whitelist,
            chart_exchanges,
            product_to_chart: Table::new(),
        };
        assert(clients_of(r.subscription_state@) =~= Map::<SubscriptionView, Set<ClientAddr>>::empty());
        r
    }

    /// Adds a client to a subscription now (see `add_client_to_subscription_at`).
    pub fn add_client_to_subscription(
        &mut self,
        client_address: &ClientAddr,
        subscription: Subscription,
        websocketlimit_type: Option<&WebSocketLimitRoute>,
        username: String,
    ) -> (r: Result<bool, MerxErrorResponse>)
        requires
            old(self).wf(),
            old(self).subs_view().counts.contains_key(*client_address) ==> old(self).subs_view().counts[*client_address] < u32::MAX,
            old(self).subs_view().ip_counts.contains_key(client_address.ip) ==> old(self).subs_view().ip_counts[client_address.ip] < u32::MAX,
        ensures
            final(self).wf(),
            final(self).same_but_subscriptions(old(self)),
            exists|now: int|
                (final(self).subs_view(), code_of(r)) == #[trigger] spec_add_client(
                    old(self).subs_view(),
                    *client_address,
                    subscription@,
                    route_view(websocketlimit_type),
                    username@,
                    now,
                ),
            is_default_error(r),
    {
        let now = now_millis();
        self.add_client_to_subscription_at(client_address, subscription, websocketlimit_type, username, now)
    }

    /// Closes a subscription that failed upstream now (see `close_failed_subscription_at`).
    pub fn close_failed_subscription(&mut self, subscription: &Subscription) -> (r: Option<Vec<ClientAddr>>)
        requires
            old(self).wf(),
            old(self).subs_view().subs.contains_key(subscription@) ==> forall|c: ClientAddr|
                #[trigger] old(self).subs_view().subs[subscription@].contains(c)
                    && old(self).subs_view().counts.contains_key(c) ==> old(self).subs_view().counts[c] > 0,
        ensures
            final(self).wf(),
            final(self).same_but_subscriptions(old(self)),
            r is Some == old(self).subs_view().subs.contains_key(subscription@),
            r matches Some(l) ==> l@.to_set() == old(self).subs_view().subs[subscription@]
                && l@.no_duplicates(),
            exists|now: i64|
                final(self).subs_view() == #[trigger] spec_close_failed_subscription(
                    old(self).subs_view(),
                    subscription@,
                    now,
                    listeners_view(r),
                ),
    {
        let now = now_millis();
        self.close_failed_subscription_at(subscription, now)
    }

    /// Removes a subscription that no client listens to. Returns whether the
    /// subscription is no longer held (it was absent or has just been removed).
    pub fn remove_subscription_if_unused(&mut self, subscription: &Subscription) -> (r: bool)
        requires
            old(self).wf(),
        ensures
            final(self).wf(),
            final(self).same_but_subscriptions(old(self)),
            r == (!old(self).subs_view().subs.contains_key(subscription@)
                || old(self).subs_view().subs[subscription@].is_empty()),
            final(self).subs_view() == (SubscriptionsView {
                subs: if r { old(self).subs_view().subs.remove(subscription@) } else { old(self).subs_view().subs },
                ..old(self).subs_view()
            }),
    {
        let ghost s0 = self.subs_view();
        match self.subscription_state.index_of(subscription) {
            Some(i) => {
                proof {
                    self.subscription_state.lemma_positions();
                    let t = self.subscription_state.spec_value_at(i as int);
                    assert(t.wf());
                    t.lemma_positions();
                    assert(s0.subs[subscription@] == t@.dom());
                }
                if self.subscription_state.value_at(i).len() == 0 {
                    let ghost before = self.subscription_state;
                    self.subscription_state.remove(subscription);
                    proof {
                        assert forall|j: int| 0 <= j < self.subscription_state.spec_len() implies (#[trigger] self.subscription_state.spec_value_at(j)).wf() by {
                            assert(Some(self.subscription_state.spec_value_at(j)) != None::<Table<ClientAddr, Listener>>);
                            let m = choose|m: int| 0 <= m < before.spec_len() && self.subscription_state.spec_value_at(j) == before.spec_value_at(m);
                            assert(before.spec_value_at(m).wf());
                        }
                        assert(clients_of(self.subscription_state@) =~= s0.subs.remove(subscription@));
                        assert(s0.subs[subscription@] =~= Set::empty());
                    }
                    true
                } else {
                    proof {
                        let t = self.subscription_state.spec_value_at(i as int);
                        assert(t.spec_len() > 0);
                        assert(t@.dom().contains(t.spec_key_at(0)));
                    }
                    false
                }
            },
            None => {
                assert(s0.subs.remove(subscription@) =~= s0.subs);
                true
            },
        }
    }

    /// The clients listening to a subscription, if it is held.
    pub fn listeners(&self, subscription: &Subscription) -> (r: Option<Vec<ClientAddr>>)
        requires
            self.wf(),
        ensures
            r is Some == self.subs_view().subs.contains_key(subscription@),
            r matches Some(l) ==> l@.to_set() == self.subs_view().subs[subscription@]
                && l@.no_duplicates(),
    {
        match self.subscription_state.index_of(subscription) {
            Some(i) => {
                proof {
                    self.subscription_state.lemma_positions();
                }
                let listeners = self.subscription_state.value_at(i).keys();
                proof {
                    let t = self.subscription_state.spec_value_at(i as int);
                    assert(t.wf());
                    t.lemma_positions();
                    assert(self.subscription_state@[subscription@] == t@);
                    let set = self.subs_view().subs[subscription@];
                    assert(set == t@.dom());
                    assert forall|j: int| 0 <= j < listeners@.len() implies listeners@[j] == t.spec_key_at(j) by {
                        assert(listeners@[j]@ == t.spec_key_at(j));
                    }
                    assert(listeners@.to_set() =~= set) by {
                        assert forall|c: ClientAddr| #[trigger] listeners@.contains(c) implies set.contains(c) by {
                            let j = choose|j: int| 0 <= j < listeners@.len() && listeners@[j] == c;
                            assert(listeners@[j] == t.spec_key_at(j));
                        }
                        assert forall|c: ClientAddr| #[trigger] set.contains(c) implies listeners@.contains(c) by {
                            let j = choose|j: int| 0 <= j < t.spec_len() && t.spec_key_at(j) == c;
                            assert(listeners@[j] == t.spec_key_at(j));
                        }
                    }
                    assert forall|a: int, b: int| 0 <= a < listeners@.len() && 0 <= b < listeners@.len() && a != b
                        implies listeners@[a] != listeners@[b] by {
                        assert(t.spec_key_at(a) != t.spec_key_at(b));
                    }
                }
                Some(listeners)
            },
            None => None,
        }
    }

    /// The upstream path of each held subscription with the clients that listen
    /// to it, and each client with its subscription count.
    pub fn subscription_summary(&self) -> (r: (Vec<(String, Vec<ClientAddr>)>, Vec<(ClientAddr, u32)>))
        requires
            self.wf(),
        ensures
            r.0@.len() == self.subs_view().subs.dom().len(),
            forall|i: int|
                0 <= i < r.0@.len() ==> summarises(self.subs_view().subs, #[trigger] r.0@[i]),
            forall|s: SubscriptionView|
                #[trigger] self.subs_view().subs.contains_key(s) ==> exists|i: int|
                    0 <= i < r.0@.len() && s.url() == (#[trigger] r.0@[i]).0@
                        && r.0@[i].1@.to_set() == self.subs_view().subs[s],
            r.1@.len() == self.subs_view().counts.dom().len(),
            forall|i: int|
                0 <= i < r.1@.len() ==> self.subs_view().counts.contains_key((#[trigger] r.1@[i]).0)
                    && self.subs_view().counts[r.1@[i].0] == r.1@[i].1,
            forall|c: ClientAddr|
                #[trigger] self.subs_view().counts.contains_key(c) ==> exists|i: int|
                    0 <= i < r.1@.len() && (#[trigger] r.1@[i]).0 == c,
    {
        proof {
            self.subscription_state.lemma_positions();
            self.subscription_count.lemma_positions();
        }
        let mut subs: Vec<(String, Vec<ClientAddr>)> = Vec::new();
        let mut i: usize = 0;
        while i < self.subscription_state.len()
            invariant
                self.wf(),
                i <= self.subscription_state.spec_len(),
                subs@.len() == i,
                forall|j: int|
                    0 <= j < i ==> (#[trigger] subs@[j]).0@ == self.subscription_state.spec_key_at(j).url()
                        && subs@[j].1@.to_set() == self.subscription_state.spec_value_at(j)@.dom()
                        && subs@[j].1@.no_duplicates(),
            decreases self.subscription_state.spec_len() - i,
        {
            let url = self.subscription_state.key_at(i).get_url();
            let t = self.subscription_state.value_at(i);
            let clients = t.keys();
            proof {
                assert(t.wf());
                assert forall|j: int| 0 <= j < clients@.len() implies #[trigger] clients@[j] == t.spec_key_at(j) by {
                    assert(clients@[j]@ == t.spec_key_at(j));
                }
                lemma_listener_keys(*t, clients@);
            }
            subs.push((url, clients));
            i = i + 1;
        }
        let mut counts: Vec<(ClientAddr, u32)> = Vec::new();
        let mut k: usize = 0;
        while k < self.subscription_count.len()
            invariant
                self.wf(),
                k <= self.subscription_count.spec_len(),
                counts@.len() == k,
                forall|j: int|
                    0 <= j < k ==> (#[trigger] counts@[j]).0 == self.subscription_count.spec_key_at(j)
                        && counts@[j].1 == self.subscription_count.spec_value_at(j),
            decreases self.subscription_count.spec_len() - k,
        {
            counts.push((*self.subscription_count.key_at(k), *self.subscription_count.value_at(k)));
            k = k + 1;
        }
        proof {
            let subs_v = self.subs_view().subs;
            let counts_v = self.subs_view().counts;
            assert(subs_v.dom() =~= self.subscription_state@.dom());
            assert forall|j: int| 0 <= j < subs@.len() implies summarises(self.subs_view().subs, #[trigger] subs@[j]) by {
                let s = self.subscription_state.spec_key_at(j);
                assert(self.subscription_state@.contains_key(s));
                assert(self.subs_view().subs.contains_key(s));
                assert(self.subs_view().subs[s] == self.subscription_state@[s].dom());
            }
            assert forall|s: SubscriptionView| #[trigger] self.subs_view().subs.contains_key(s) implies exists|j: int|
                0 <= j < subs@.len() && s.url() == (#[trigger] subs@[j]).0@
                    && subs@[j].1@.to_set() == self.subs_view().subs[s] by {
                let j = choose|j: int|
                    0 <= j < self.subscription_state.spec_len() && self.subscription_state.spec_key_at(j) == s;
                assert(subs@[j].0@ == s.url());
            }
            assert forall|c: ClientAddr| #[trigger] counts_v.contains_key(c) implies exists|j: int|
                0 <= j < counts@.len() && (#[trigger] counts@[j]).0 == c by {
                let j = choose|j: int|
                    0 <= j < self.subscription_count.spec_len() && self.subscription_count.spec_key_at(j) == c;
                assert(counts@[j].0 == c);
            }
            assert(subs@.len() == subs_v.dom().len());
            assert(counts@.len() == counts_v.dom().len());
            assert forall|j: int| 0 <= j < counts@.len() implies counts_v.contains_key((#[trigger] counts@[j]).0)
                && counts_v[counts@[j].0] == counts@[j].1 by {
                assert(counts@[j].0 == self.subscription_count.spec_key_at(j));
            }
        }
        (subs, counts)
    }

    /// Whether a client still has a subscription.
    pub fn is_client_still_active(&self, client_address: &ClientAddr) -> (r: bool)
        requires
            self.wf(),
        ensures
            r == (self.subs_view().counts.contains_key(*client_address)
                && self.subs_view().counts[*client_address] > 0),
    {
        match self.subscription_count.get(client_address) {
            Some(count) => *count > 0,
            None => false,
        }
    }

    /// The chart of a product, once fetched.
    pub fn get_ohlc_chart(&self, product: &str) -> (r: Option<String>)
        requires
            self.wf(),
        ensures
            self.charts().contains_key(product@) && self.charts()[product@] is Some ==> (r matches Some(c)
                && Some(c@) == self.charts()[product@]),
            !(self.charts().contains_key(product@) && self.charts()[product@] is Some) ==> r is None,
    {
        match self.product_to_chart.get(&product.to_string()) {
            Some(chart) => match &chart.data {
                Some(d) => Some(d.clone()),
                None => None,
            },
            None => None,
        }
    }

    /// Registers a product whose chart is to be fetched. Returns whether it is
    /// new, that is, whether fetching has to start.
    pub fn subscribe_ohlc_chart(&mut self, product: String) -> (r: bool)
        requires
            old(self).wf(),
        ensures
            final(self).wf(),
            r == !old(self).charts().contains_key(product@),
            final(self).charts() == if r {
                old(self).charts().insert(product@, None)
            } else {
                old(self).charts()
            },
            final(self).subs_view() == old(self).subs_view(),
            final(self).users == old(self).users,
            final(self).symbols == old(self).symbols,
    {
        if self.product_to_chart.contains_key(&product) {
            false
        } else {
            self.product_to_chart.insert(product, Chart { data: None });
            true
        }
    }

    /// Records the chart fetched for a product.
    pub fn set_ohlc_chart(&mut self, product: String, data: String)
        requires
            old(self).wf(),
        ensures
            final(self).wf(),
            final(self).charts() == old(self).charts().insert(product@, Some(data@)),
            final(self).subs_view() == old(self).subs_view(),
            final(self).users == old(self).users,
            final(self).symbols == old(self).symbols,
    {
        self.product_to_chart.insert(product, Chart { data: Some(data) });
    }

    /// Whether a currency pair is on the whitelist of public subscriptions.
    pub fn is_pair_whitelisted(&self, pair: &str) -> (r: Result<(), MerxErrorResponse>)
        ensures
            r is Ok == views_of(self.symbols_whitelist@).contains(pair@),
            r matches Err(e) ==> e.error_code == ErrorCode::InvalidCurrencyPair && e.error@
                == ErrorCode::InvalidCurrencyPair.spec_name() && e.error_text@
                == ErrorCode::InvalidCurrencyPair.spec_default_error_text(),
    {
        let mut i: usize = 0;
        while i < self.symbols_whitelist.len()
            invariant
                i <= self.symbols_whitelist@.len(),
                forall|j: int| 0 <= j < i ==> #[trigger] self.symbols_whitelist@[j]@ != pair@,
            decreases self.symbols_whitelist.len() - i,
        {
            if str_eq(self.symbols_whitelist[i].as_str(), pair) {
                assert(views_of(self.symbols_whitelist@)[i as int] == pair@);
                return Ok(());
            }
            i = i + 1;
        }
        assert(!views_of(self.symbols_whitelist@).contains(pair@)) by {
            if views_of(self.symbols_whitelist@).contains(pair@) {
                let j = choose|j: int| 0 <= j < views_of(self.symbols_whitelist@).len() && views_of(self.symbols_whitelist@)[j] == pair@;
                assert(self.symbols_whitelist@[j]@ != pair@);
            }
        }
        Err(MerxErrorResponse::new(ErrorCode::InvalidCurrencyPair))
    }

    /// Records the user that the auth server described for `token`.
    pub fn add_or_update_user(&mut self, token: &str, user_response: &UserResponse) -> (r: Result<String, String>)
        requires
            old(self).wf(),
        ensures
            final(self).wf(),
            final(self).users@ == spec_add_or_update_user(
                old(self).users@,
                token@,
                user_response,
                final(self).users@.users[user_response.username@].time_validated,
            ),
            final(self).subs_view() == old(self).subs_view(),
            final(self).symbols == old(self).symbols,
            final(self).charts() == old(self).charts(),
            r matches Ok(name) && name@ == user_response.username@,
    {
        self.users.add_or_update_user(token, user_response)
    }

    /// The username of a user validated with `token` within the window before
    /// time `now` (see `Users::check_user_in_state_at`).
    pub fn check_user_in_state_at(&self, token: &str, validated_since: Option<i64>, now: i64) -> (r: Option<String>)
        requires
            self.wf(),
        ensures
            r matches Some(name) ==> exists|k: Seq<char>|
                #![trigger self.users@.users[k]]
                self.users@.users.contains_key(k) && self.users@.users[k].token == token@
                    && self.users@.users[k].username == name@ && within_window(
                    self.users@.users[k].time_validated,
                    validated_since,
                    now,
                ),
            (forall|k: Seq<char>|
                #![trigger self.users@.users[k]]
                self.users@.users.contains_key(k) && self.users@.users[k].token == token@ ==> !within_window(
                    self.users@.users[k].time_validated,
                    validated_since,
                    now,
                )) ==> r is None,
            (exists|k: Seq<char>|
                #![trigger self.users@.users[k]]
                self.users@.users.contains_key(k) && self.users@.users[k].token == token@) && (forall|
                k: Seq<char>,
            |
                #![trigger self.users@.users[k]]
                self.users@.users.contains_key(k) && self.users@.users[k].token == token@ ==> within_window(
                    self.users@.users[k].time_validated,
                    validated_since,
                    now,
                )) ==> r is Some,
    {
        self.users.check_user_in_state_at(token, validated_since, now)
    }

    /// The username of a user validated with `token` (see `Users::check_user_in_state`).
    pub fn check_user_in_state(&self, token: &str, validated_since: Option<i64>) -> (r: Option<String>)
        requires
            self.wf(),
        ensures
            r matches Some(name) ==> exists|k: Seq<char>|
                #![trigger self.users@.users[k]]
                self.users@.users.contains_key(k) && self.users@.users[k].token == token@
                    && self.users@.users[k].username == name@,
            (forall|k: Seq<char>|
                #![trigger self.users@.users[k]]
                self.users@.users.contains_key(k) ==> self.users@.users[k].token != token@) ==> r is None,
            validated_since is None && (exists|k: Seq<char>|
                #![trigger self.users@.users[k]]
                self.users@.users.contains_key(k) && self.users@.users[k].token == token@) ==> r is Some,
    {
        self.users.check_user_in_state(token, validated_since)
    }

    /// The cbag markets of the exchanges for a user (see `Users::validate_exchanges_vector`).
    pub fn validate_exchanges_vector(
        &self,
        username: &str,
        exchanges: &Vec<String>,
        market_data_id: Option<String>,
    ) -> (r: Result<Vec<String>, MerxErrorResponse>)
        requires
            self.wf(),
        ensures
            !self.users@.users.contains_key(username@) ==> (r matches Err(e) && e.error_code
                == ErrorCode::ServerError && e.error_text@
                == ErrorCode::ServerError.spec_default_error_text()),
            self.users@.users.contains_key(username@) ==> ({
                let u = self.users@.users[username@];
                let list = views_of(exchanges@);
                &&& r is Ok <==> (forall|j: int|
                    0 <= j < list.len() ==> u.exchanges.contains_key(#[trigger] list[j]))
                &&& r matches Ok(v) ==> views_of(v@) == list.map_values(
                    |x: Seq<char>|
                        spec_exchange_cbag_market(u.exchanges[x], u.client_id, opt_view(market_data_id)),
                )
                &&& r matches Err(e) ==> e.error_code == ErrorCode::InvalidExchanges && exists|j: int|
                    first_missing(u.exchanges, list, j) && e.error_text@ == invalid_exchange_text(
                        #[trigger] list[j],
                    )
            }),
            r matches Err(e) ==> e.error@ == e.error_code.spec_name(),
    {
        self.users.validate_exchanges_vector(username, exchanges, market_data_id)
    }

    /// Replaces the symbols (see `Symbols::add_or_update_symbols`).
    pub fn add_or_update_symbols(&mut self, symbols_update: Symbols, response_json_string: String) -> (r: Result<(), String>)
        requires
            old(self).wf(),
            symbols_update.wf(),
        ensures
            final(self).wf(),
            final(self).symbols@.cbbo_sizes == symbols_update@.cbbo_sizes,
            final(self).symbols@.currency_pairs_json_response == response_json_string@,
            final(self).symbols@.cached_responses == old(self).symbols@.cached_responses,
            final(self).subs_view() == old(self).subs_view(),
            final(self).users == old(self).users,
            r is Ok,
    {
        self.symbols.add_or_update_symbols(symbols_update, response_json_string)
    }

    /// Whether the state has what it needs to accept subscriptions: known pairs.
    pub fn is_ready(&self) -> (r: bool)
        requires
            self.wf(),
        ensures
            r == (self.symbols@.cbbo_sizes.dom().len() > 0),
    {
        self.symbols.has_symbols()
    }

    /// Whether a pair is known (see `Symbols::is_pair_valid`).
    pub fn is_pair_valid(&self, pair: &str) -> (r: Result<(), MerxErrorResponse>)
        requires
            self.wf(),
        ensures
            self.symbols@.cbbo_sizes.dom().len() == 0 ==> (r matches Err(e) && e.error_code
                == ErrorCode::ServerInitializing),
            self.symbols@.cbbo_sizes.dom().len() > 0 && self.symbols@.cbbo_sizes.contains_key(pair@) ==> r is Ok,
            self.symbols@.cbbo_sizes.dom().len() > 0 && !self.symbols@.cbbo_sizes.contains_key(pair@) ==> (r matches Err(e)
                && e.error_code == ErrorCode::InvalidCurrencyPair),
            is_default_error(r),
    {
        self.symbols.is_pair_valid(pair)
    }

    /// Whether a size filter is one of a pair's (see `Symbols::is_size_filter_valid`).
    pub fn is_size_filter_valid(&self, pair: &str, size_filter: &SizeValue) -> (r: Result<(), MerxErrorResponse>)
        requires
            self.wf(),
        ensures
            self.symbols@.cbbo_sizes.dom().len() == 0 ==> (r matches Err(e) && e.error_code
                == ErrorCode::ServerInitializing),
            self.symbols@.cbbo_sizes.dom().len() > 0 && !self.symbols@.cbbo_sizes.contains_key(pair@) ==> (r matches Err(e)
                && e.error_code == ErrorCode::InvalidCurrencyPair),
            self.symbols@.cbbo_sizes.dom().len() > 0 && self.symbols@.cbbo_sizes.contains_key(pair@) ==> ({
                let sizes = self.symbols@.cbbo_sizes[pair@];
                &&& r is Ok <==> exists|j: int|
                    0 <= j < sizes.len() && same_size(size_filter, &#[trigger] sizes[j])
                &&& r is Ok <==> size_filter.key is Some && exists|j: int|
                    0 <= j < sizes.len() && (#[trigger] sizes[j]).key == size_filter.key
                &&& r matches Err(e) ==> e.error_code == ErrorCode::InvalidSizeFilter
                    && e.error_text@ == invalid_size_filter_text(size_filter.text@, pair@, sizes)
            }),
            r matches Err(e) ==> e.error@ == e.error_code.spec_name(),
            r matches Err(e) ==> (e.error_code != ErrorCode::InvalidSizeFilter ==> e.error_text@
                == e.error_code.spec_default_error_text()),
    {
        self.symbols.is_size_filter_valid(pair, size_filter)
    }

    /// The currency pairs response, once pairs are known.
    pub fn get_currency_pairs_json(&self) -> (r: Result<String, String>)
        requires
            self.wf(),
        ensures
            self.symbols@.cbbo_sizes.dom().len() == 0 ==> r is Err,
            self.symbols@.cbbo_sizes.dom().len() > 0 ==> (r matches Ok(s) && s@
                == self.symbols@.currency_pairs_json_response),
    {
        self.symbols.get_currency_pairs_json()
    }

    /// Whether `token` is known to be invalid (see `Users::check_token_known_to_be_invalid`).
    pub fn check_token_known_to_be_invalid(&self, token: &str, duration_window: Option<i64>) -> (r: bool)
        requires
            self.wf(),
        ensures
            r ==> self.users@.invalid_tokens.contains_key(token@),
            duration_window is None ==> r == self.users@.invalid_tokens.contains_key(token@),
            exists|now: i64| r == #[trigger] recorded_in(self.users@.invalid_tokens, token@, duration_window, now),
    {
        self.users.check_token_known_to_be_invalid(token, duration_window)
    }

    /// Records now that `token` is invalid.
    pub fn invalidate_token(&mut self, token: &str)
        requires
            old(self).wf(),
        ensures
            final(self).wf(),
            final(self).users@.invalid_tokens.contains_key(token@),
            final(self).users@.invalid_tokens == old(self).users@.invalid_tokens.insert(
                token@,
                final(self).users@.invalid_tokens[token@],
            ),
            final(self).users@.users == old(self).users@.users,
            final(self).users@.attempted_auths == old(self).users@.attempted_auths,
            final(self).subs_view() == old(self).subs_view(),
            final(self).symbols == old(self).symbols,
    {
        self.users.invalidate_token(token)
    }

    /// Records now that authentication was attempted with `token`.
    pub fn add_attempted_auth(&mut self, token: &str)
        requires
            old(self).wf(),
        ensures
            final(self).wf(),
            final(self).users@.attempted_auths == old(self).users@.attempted_auths.insert(
                token@,
                final(self).users@.attempted_auths[token@],
            ),
            final(self).users@.users == old(self).users@.users,
            final(self).users@.invalid_tokens == old(self).users@.invalid_tokens,
            final(self).subs_view() == old(self).subs_view(),
            final(self).symbols == old(self).symbols,
    {
        self.users.add_attempted_auth(token)
    }

    /// Whether authentication was attempted with `token` (see `Users::check_if_attempted_auth`).
    pub fn check_if_attempted_auth(&self, token: &str, duration_window: Option<i64>) -> (r: bool)
        requires
            self.wf(),
        ensures
            r ==> self.users@.attempted_auths.contains_key(token@),
            duration_window is None ==> r == self.users@.attempted_auths.contains_key(token@),
            exists|now: i64| r == #[trigger] recorded_in(self.users@.attempted_auths, token@, duration_window, now),
    {
        self.users.check_if_attempted_auth(token, duration_window)
    }

    /// The client id of a user.
    pub fn get_client_id(&self, username: &str) -> (r: Result<String, String>)
        requires
            self.wf(),
        ensures
            self.users@.users.contains_key(username@) ==> (r matches Ok(id) && id@
                == self.users@.users[username@].client_id),
            !self.users@.users.contains_key(username@) ==> (r matches Err(e) && e@ == "User "@
                + username@ + " not found"@),
    {
        self.users.get_client_id(username)
    }

    /// Caches the response of an endpoint.
    pub fn add_or_update_cached_response(&mut self, endpoint: &str, response: String)
        requires
            old(self).wf(),
        ensures
            final(self).wf(),
            final(self).symbols@ == (SymbolsView {
                cached_responses: old(self).symbols@.cached_responses.insert(endpoint@, response@),
                ..old(self).symbols@
            }),
            final(self).subs_view() == old(self).subs_view(),
            final(self).users == old(self).users,
    {
        self.symbols.add_or_update_cached_response(endpoint, response)
    }

    /// The cached response of an endpoint.
    pub fn get_cached_response(&self, endpoint: &str) -> (r: Result<String, String>)
        requires
            self.wf(),
        ensures
            self.symbols@.cached_responses.contains_key(endpoint@) ==> (r matches Ok(s) && s@
                == self.symbols@.cached_responses[endpoint@]),
            !self.symbols@.cached_responses.contains_key(endpoint@) ==> (r matches Err(e) && e@
                == "not found"@),
    {
        self.symbols.get_cached_response(endpoint)
    }
}

/// Removes a client from every subscription of the table; returns the number of
/// subscriptions it listened to.
fn remove_listener_everywhere(
    t: &mut Table<Subscription, Table<ClientAddr, Listener>>,
    client_address: &ClientAddr,
) -> (removal_count: usize)
    requires
        old(t).wf(),
        forall|j: int| 0 <= j < old(t).spec_len() ==> (#[trigger] old(t).spec_value_at(j)).wf(),
    ensures
        final(t).wf(),
        forall|j: int| 0 <= j < final(t).spec_len() ==> (#[trigger] final(t).spec_value_at(j)).wf(),
        clients_of(final(t)@) == without_client(clients_of(old(t)@), *client_address),
        removal_count == listened(clients_of(old(t)@), *client_address).len(),
{
    let ghost old_state = *t;
    let ghost s0 = clients_of(old_state@);
    let ghost c = *client_address;
    let ghost p = |x: SubscriptionView| s0[x].contains(c);
    let n = t.len();
    let mut removal_count: usize = 0;
    let mut i: usize = 0;
    proof {
        old_state.lemma_positions();
    }
    while i < n
        invariant
            n == old_state.spec_len(),
            t.spec_len() == n,
            i <= n,
            t.wf(),
            forall|j: int| 0 <= j < t.spec_len() ==> (#[trigger] t.spec_value_at(j)).wf(),
            forall|j: int| 0 <= j < n ==> #[trigger] t.spec_key_at(j) == old_state.spec_key_at(j),
            t@.dom() == old_state@.dom(),
            forall|j: int|
                #![trigger old_state.spec_key_at(j)]
                0 <= j < i ==> t@[old_state.spec_key_at(j)].dom() == old_state@[old_state.spec_key_at(j)].dom().remove(c),
            forall|j: int|
                #![trigger old_state.spec_key_at(j)]
                i <= j < n ==> t@[old_state.spec_key_at(j)] == old_state@[old_state.spec_key_at(j)],
            removal_count == old_state.count_keys_before(p, i as int),
            removal_count <= i,
            s0 == clients_of(old_state@),
            p == (|x: SubscriptionView| s0[x].contains(c)),
            c == *client_address,
            old_state.wf(),
            forall|j: int|
                #![trigger old_state.spec_key_at(j)]
                0 <= j < n ==> old_state@.contains_key(old_state.spec_key_at(j)),
        decreases n - i,
    {
        proof {
            t.lemma_positions();
            old_state.lemma_positions();
        }
        let ghost k = old_state.spec_key_at(i as int);
        assert(old_state@.contains_key(k));
        assert(s0[k] == old_state@[k].dom());
        assert(t.spec_key_at(i as int) == k);
        assert(t@[k] == t.spec_value_at(i as int)@);
        assert(t@[k] == old_state@[k]);
        assert(s0[k].contains(c) == t.spec_value_at(i as int)@.dom().contains(c));
        assert(p(k) == s0[k].contains(c));
        assert(p(k) == t.spec_value_at(i as int)@.contains_key(c));
        if t.value_at(i).contains_key(client_address) {
            let mut clients = t.replace_value_at(i, Table::new());
            clients.remove(client_address);
            t.set_value_at(i, clients);
            removal_count = removal_count + 1;
            proof {
                assert(p(k));
                assert(t@.dom() =~= old_state@.dom());
                assert forall|j: int| i < j < n implies t@[#[trigger] old_state.spec_key_at(j)] == old_state@[old_state.spec_key_at(j)] by {
                    assert(old_state.spec_key_at(j) != old_state.spec_key_at(i as int));
                }
            }
        } else {
            proof {
                assert(!p(k));
                assert(old_state@[k].dom().remove(c) =~= old_state@[k].dom());
            }
        }
        i = i + 1;
    }
    proof {
        old_state.lemma_count_keys(p);
        assert(listened(s0, c) =~= old_state@.dom().filter(p));
        assert forall|k: SubscriptionView| #[trigger] clients_of(t@).contains_key(k) implies
            clients_of(t@)[k] == without_client(s0, c)[k] by {
            let j = choose|j: int| 0 <= j < old_state.spec_len() && old_state.spec_key_at(j) == k;
        }
        assert(clients_of(t@) =~= without_client(s0, c));
    }
    removal_count
}

/// Each listener loses one subscription: its count goes down by one, and an
/// entry that reaches zero is removed.
fn release_listener_counts(
    counts: &mut Table<ClientAddr, u32>,
    listeners: &Vec<ClientAddr>,
    Ghost(set): Ghost<Set<ClientAddr>>,
)
    requires
        old(counts).wf(),
        listeners@.to_set() == set,
        listeners@.no_duplicates(),
        forall|c: ClientAddr| #[trigger] set.contains(c) && old(counts)@.contains_key(c) ==> old(counts)@[c] > 0,
    ensures
        final(counts).wf(),
        final(counts)@ == release_counts(old(counts)@, set),
{
    let ghost c0 = counts@;
    let mut k: usize = 0;
    while k < listeners.len()
        invariant
            k <= listeners@.len(),
            counts.wf(),
            counts@ == release_counts(c0, listeners@.take(k as int).to_set()),
            listeners@.to_set() == set,
            listeners@.no_duplicates(),
            forall|c: ClientAddr| #[trigger] set.contains(c) && c0.contains_key(c) ==> c0[c] > 0,
        decreases listeners.len() - k,
    {
        let c = listeners[k];
        let ghost before = listeners@.take(k as int).to_set();
        assert(!before.contains(c)) by {
            if before.contains(c) {
                let j = choose|j: int| 0 <= j < k && listeners@.take(k as int)[j] == c;
                assert(listeners@[j] == listeners@[k as int]);
            }
        }
        assert(listeners@.take(k + 1).to_set() =~= before.insert(c)) by {
            let t1 = listeners@.take(k + 1);
            let t0 = listeners@.take(k as int);
            assert forall|x: ClientAddr| t1.contains(x) <==> (t0.contains(x) || x == c) by {
                if t1.contains(x) {
                    let j = choose|j: int| 0 <= j < t1.len() && t1[j] == x;
                    if j < k {
                        assert(t0[j] == x);
                    }
                }
                if t0.contains(x) {
                    let j = choose|j: int| 0 <= j < t0.len() && t0[j] == x;
                    assert(t1[j] == x);
                }
                if x == c {
                    assert(t1[k as int] == x);
                }
            }
        }
        assert(listeners@.contains(c)) by {
            assert(listeners@[k as int] == c);
        }
        assert(set.contains(c));
        match counts.get(&c) {
            Some(v) => {
                let v = *v;
                if v - 1 == 0 {
                    counts.remove(&c);
                } else {
                    counts.insert(c, v - 1);
                }
            },
            None => {},
        }
        assert(counts@ =~= release_counts(c0, before.insert(c)));
        k = k + 1;
    }
    assert(listeners@.take(listeners@.len() as int) =~= listeners@);
}

/// Each listener, in turn, lowers the count of its address by its remaining
/// subscription count; an entry that reaches zero is removed.
fn release_listener_addresses(
    ip_counts: &mut Table<ClientIp, u32>,
    counts: &Table<ClientAddr, u32>,
    listeners: &Vec<ClientAddr>,
)
    requires
        old(ip_counts).wf(),
        counts.wf(),
    ensures
        final(ip_counts).wf(),
        final(ip_counts)@ == release_ip_counts(old(ip_counts)@, counts@, listeners@),
{
    let ghost i0 = ip_counts@;
    let mut k: usize = 0;
    while k < listeners.len()
        invariant
            k <= listeners@.len(),
            counts.wf(),
            ip_counts.wf(),
            ip_counts@ == release_ip_counts(i0, counts@, listeners@.take(k as int)),
        decreases listeners.len() - k,
    {
        let c = listeners[k];
        assert(listeners@.take(k + 1).drop_last() =~= listeners@.take(k as int));
        match counts.get(&c) {
            Some(count) => {
                let count = *count;
                match ip_counts.get(&c.ip) {
                    Some(ip_count) => {
                        let ip_count = *ip_count;
                        let v = if ip_count > count { ip_count - count } else { 0 };
                        if v == 0 {
                            ip_counts.remove(&c.ip);
                        } else {
                            ip_counts.insert(c.ip, v);
                        }
                    },
                    None => {},
                }
            },
            None => {},
        }
        k = k + 1;
    }
    assert(listeners@.take(listeners@.len() as int) =~= listeners@);
}

/// An entry of a summary of the subscriptions: the upstream path of a held
/// subscription and the clients that listen to it, each once.
pub open spec fn summarises(subs: Map<SubscriptionView, Set<ClientAddr>>, entry: (String, Vec<ClientAddr>)) -> bool {
    exists|s: SubscriptionView|
        #![trigger subs[s]]
        subs.contains_key(s) && s.url() == entry.0@ && entry.1@.to_set() == subs[s]
            && entry.1@.no_duplicates()
}

/// The keys of a table of listeners, in position order, are its clients, each once.
proof fn lemma_listener_keys(t: Table<ClientAddr, Listener>, keys: Seq<ClientAddr>)
    requires
        t.wf(),
        keys.len() == t.spec_len(),
        forall|j: int| 0 <= j < keys.len() ==> #[trigger] keys[j] == t.spec_key_at(j),
    ensures
        keys.to_set() == t@.dom(),
        keys.no_duplicates(),
{
    t.lemma_positions();
    assert forall|c: ClientAddr| #[trigger] keys.contains(c) implies t@.dom().contains(c) by {
        let j = choose|j: int| 0 <= j < keys.len() && keys[j] == c;
        assert(keys[j] == t.spec_key_at(j));
    }
    assert forall|c: ClientAddr| #[trigger] t@.dom().contains(c) implies keys.contains(c) by {
        let j = choose|j: int| 0 <= j < t.spec_len() && t.spec_key_at(j) == c;
        assert(keys[j] == t.spec_key_at(j));
    }
    assert(keys.to_set() =~= t@.dom());
    assert forall|a: int, b: int| 0 <= a < keys.len() && 0 <= b < keys.len() && a != b implies keys[a]
        != keys[b] by {
        assert(t.spec_key_at(a) != t.spec_key_at(b));
    }
}

} // verus!
