//! Properties of the connection state that hold across its operations.
use vstd::prelude::*;
use crate::client::{ClientAddr, ClientIp};
use vstd::set::fold::{is_fun_commutative, lemma_fold_empty, lemma_fold_insert};
use crate::routes_config::{spec_route, spec_sub_type, spec_ws_limit_route, MarketDataType, SubscriptionType, WebSocketLimitRouteView};
use crate::state::{add_listener, incremented, is_listener, is_locked, listened, no_zero_counts, spec_add_client, spec_close_failed_subscription, spec_remove_client, spec_remove_client_from_state, release_ip_counts, unlock, limit_key_of, SubscriptionsView};
use crate::subscriptions::SubscriptionView;
use crate::functions::{spec_check_session, subscribe_grace_ms};
use crate::cached_routes::spec_cached_endpoints;
use crate::md_handlers::outcome::{added_as, added_at_some_time};
use crate::client::LimitKeyView;
use crate::error::ErrorCode;
use crate::symbols::{same_size, sizes_of, PairSizes, SizeValue, SymbolsView};
use crate::user::{recorded_in, spec_add_or_update_user, spec_exchange_cbag_market, within_window, ExchangeView, UserResponse, UsersView};
use crate::md_handlers::helper::{cbag_market_base};
use crate::text::{has_prefix, has_suffix, unicode_lowercase, unicode_uppercase};
use crate::auth::{fresh_holder, token_checked, token_validation_window_ms, TokenCheck};

verus! {

broadcast use vstd::set::group_set_axioms;

/// Every client's subscription count is the number of subscriptions it listens
/// to, and a client that listens to none has no count.
pub open spec fn counts_consistent(s: SubscriptionsView) -> bool {
    &&& s.subs.dom().finite()
    &&& forall|c: ClientAddr|
        #![trigger listened(s.subs, c)]
        (s.counts.contains_key(c) <==> listened(s.subs, c).len() > 0) && (s.counts.contains_key(c)
            ==> s.counts[c] == listened(s.subs, c).len())
}

/// Law (de-duplication): a client's subscription is made upstream exactly when
/// no client held it before. Adding a client to a held subscription never asks
/// for a new upstream subscription, and a successful addition leaves the client
/// listening to it.
pub proof fn lemma_add_deduplicates(
    s: SubscriptionsView,
    client: ClientAddr,
    sub: SubscriptionView,
    route: Option<WebSocketLimitRouteView>,
    username: Seq<char>,
    now: int,
)
    ensures
        ({
            let (s2, r) = spec_add_client(s, client, sub, route, username, now);
            &&& r matches Ok(new_upstream) ==> (new_upstream <==> !s.subs.contains_key(sub))
            &&& r is Ok ==> s2.subs.contains_key(sub) && s2.subs[sub].contains(client)
            &&& r is Ok ==> forall|other: SubscriptionView|
                other != sub ==> s2.subs.contains_key(other) == s.subs.contains_key(other)
        }),
{
}

/// Law: a client never listens twice to one subscription: adding a client that
/// already listens fails and leaves the listeners as they were.
pub proof fn lemma_no_double_listener(
    s: SubscriptionsView,
    client: ClientAddr,
    sub: SubscriptionView,
    route: Option<WebSocketLimitRouteView>,
    username: Seq<char>,
    now: int,
)
    requires
        is_listener(s, client, sub),
    ensures
        spec_add_client(s, client, sub, route, username, now).1 is Err,
        spec_add_client(s, client, sub, route, username, now).0.subs == s.subs,
        spec_add_client(s, client, sub, route, username, now).0.counts == s.counts,
{
}

proof fn lemma_listened_after_add(s: SubscriptionsView, client: ClientAddr, sub: SubscriptionView, x: ClientAddr)
    requires
        s.subs.dom().finite(),
        !is_listener(s, client, sub),
    ensures
        ({
            let s2 = add_listener(s, client, sub);
            &&& x == client ==> listened(s2.subs, x) == listened(s.subs, x).insert(sub)
                && !listened(s.subs, x).contains(sub)
            &&& x != client ==> listened(s2.subs, x) == listened(s.subs, x)
        }),
{
    let s2 = add_listener(s, client, sub);
    if x == client {
        assert(listened(s2.subs, x) =~= listened(s.subs, x).insert(sub));
    } else {
        assert(listened(s2.subs, x) =~= listened(s.subs, x));
    }
}

/// Law: adding a client keeps every client's subscription count equal to the
/// number of subscriptions it listens to.
pub proof fn lemma_add_keeps_counts_consistent(
    s: SubscriptionsView,
    client: ClientAddr,
    sub: SubscriptionView,
    route: Option<WebSocketLimitRouteView>,
    username: Seq<char>,
    now: int,
)
    requires
        counts_consistent(s),
        s.counts.contains_key(client) ==> s.counts[client] < u32::MAX,
    ensures
        counts_consistent(spec_add_client(s, client, sub, route, username, now).0),
{
    let (s2, r) = spec_add_client(s, client, sub, route, username, now);
    if r is Ok {
        let s1 = unlock(s, sub);
        assert(s1.subs == s.subs && s1.counts == s.counts);
        assert(!is_listener(s1, client, sub));
        assert(s2.subs == add_listener(s1, client, sub).subs);
        assert(s2.counts == incremented(s.counts, client));
        assert(s2.subs.dom() =~= s.subs.dom().insert(sub));
        assert forall|x: ClientAddr|
            #![trigger listened(s2.subs, x)]
            (s2.counts.contains_key(x) <==> listened(s2.subs, x).len() > 0) && (s2.counts.contains_key(x)
                ==> s2.counts[x] == listened(s2.subs, x).len()) by {
            lemma_listened_after_add(s1, client, sub, x);
            assert(listened(s.subs, x).finite()) by {
                assert(listened(s.subs, x) =~= s.subs.dom().filter(|y: SubscriptionView| s.subs[y].contains(x)));
            }
            assert(listened(s1.subs, x) == listened(s.subs, x));
        }
    } else {
        let s1 = unlock(s, sub);
        assert(s2.subs == s.subs && s2.counts == s.counts);
    }
}

/// Law: removing a client from a subscription keeps every client's
/// subscription count equal to the number of subscriptions it listens to.
pub proof fn lemma_remove_keeps_counts_consistent(s: SubscriptionsView, client: ClientAddr, sub: SubscriptionView)
    requires
        counts_consistent(s),
    ensures
        spec_remove_client(s, client, sub).1 is Ok ==> counts_consistent(spec_remove_client(s, client, sub).0),
{
    let (s2, r) = spec_remove_client(s, client, sub);
    if r is Ok {
        assert(s2.subs.dom() =~= s.subs.dom());
        assert forall|x: ClientAddr|
            #![trigger listened(s2.subs, x)]
            (s2.counts.contains_key(x) <==> listened(s2.subs, x).len() > 0) && (s2.counts.contains_key(x)
                ==> s2.counts[x] == listened(s2.subs, x).len()) by {
            assert(listened(s.subs, x).finite()) by {
                assert(listened(s.subs, x) =~= s.subs.dom().filter(|y: SubscriptionView| s.subs[y].contains(x)));
            }
            if x == client {
                assert(listened(s2.subs, x) =~= listened(s.subs, x).remove(sub));
                assert(listened(s.subs, x).contains(sub));
            } else {
                assert(listened(s2.subs, x) =~= listened(s.subs, x));
            }
        }
    }
}

/// Law: removing a disconnected client from the whole state keeps every
/// client's subscription count equal to the number of subscriptions it listens to.
pub proof fn lemma_remove_from_state_keeps_counts_consistent(
    s: SubscriptionsView,
    client: ClientAddr,
    route: Option<WebSocketLimitRouteView>,
    username: Seq<char>,
)
    requires
        counts_consistent(s),
    ensures
        counts_consistent(spec_remove_client_from_state(s, client, route, username)),
{
    let s2 = spec_remove_client_from_state(s, client, route, username);
    assert(s2.subs.dom() =~= s.subs.dom());
    assert forall|x: ClientAddr|
        #![trigger listened(s2.subs, x)]
        (s2.counts.contains_key(x) <==> listened(s2.subs, x).len() > 0) && (s2.counts.contains_key(x)
            ==> s2.counts[x] == listened(s2.subs, x).len()) by {
        if x == client {
            assert(listened(s2.subs, x) =~= Set::empty());
        } else {
            assert(listened(s2.subs, x) =~= listened(s.subs, x));
        }
    }
}

/// Law: closing a failed subscription keeps every client's subscription count
/// equal to the number of subscriptions it listens to.
pub proof fn lemma_close_failed_keeps_counts_consistent(
    s: SubscriptionsView,
    sub: SubscriptionView,
    now: i64,
    listeners: Option<Seq<ClientAddr>>,
)
    requires
        counts_consistent(s),
        listeners is Some <==> s.subs.contains_key(sub),
    ensures
        counts_consistent(spec_close_failed_subscription(s, sub, now, listeners)),
{
    let s2 = spec_close_failed_subscription(s, sub, now, listeners);
    if listeners is Some {
        assert(s2.subs.dom() =~= s.subs.dom().remove(sub));
        assert forall|x: ClientAddr|
            #![trigger listened(s2.subs, x)]
            (s2.counts.contains_key(x) <==> listened(s2.subs, x).len() > 0) && (s2.counts.contains_key(x)
                ==> s2.counts[x] == listened(s2.subs, x).len()) by {
            assert(listened(s.subs, x).finite()) by {
                assert(listened(s.subs, x) =~= s.subs.dom().filter(|y: SubscriptionView| s.subs[y].contains(x)));
            }
            if s.subs[sub].contains(x) {
                assert(listened(s2.subs, x) =~= listened(s.subs, x).remove(sub));
                assert(listened(s.subs, x).contains(sub));
            } else {
                assert(listened(s2.subs, x) =~= listened(s.subs, x));
            }
        }
    }
}

/// Law (what one call undoes): removing a client just added to a subscription,
/// on any route, succeeds and gives back the client and address counts as they
/// were; the subscription is left as it was, or, if the addition created it,
/// held with no listener (it is dropped when its upstream finds no listener).
/// The route's connection count is not given back: only leaving the state does
/// that.
pub proof fn lemma_remove_undoes_add(
    s: SubscriptionsView,
    client: ClientAddr,
    sub: SubscriptionView,
    route: Option<WebSocketLimitRouteView>,
    username: Seq<char>,
    now: int,
)
    requires
        s.counts.contains_key(client) ==> 0 < s.counts[client] < u32::MAX,
        s.ip_counts.contains_key(client.ip) ==> 0 < s.ip_counts[client.ip] < u32::MAX,
        spec_add_client(s, client, sub, route, username, now).1 is Ok,
    ensures
        ({
            let s1 = spec_add_client(s, client, sub, route, username, now).0;
            let (s2, r) = spec_remove_client(s1, client, sub);
            &&& r is Ok
            &&& s2.counts == s.counts
            &&& s2.ip_counts == s.ip_counts
            &&& s2.subs == if s.subs.contains_key(sub) {
                s.subs
            } else {
                s.subs.insert(sub, Set::empty())
            }
        }),
{
    let s0 = unlock(s, sub);
    let a = add_listener(s0, client, sub);
    let s1 = spec_add_client(s, client, sub, route, username, now).0;
    assert(s1.subs == a.subs && s1.counts == a.counts && s1.ip_counts == a.ip_counts);
    let (s2, r) = spec_remove_client(s1, client, sub);
    assert(s2.counts =~= s.counts);
    assert(s2.ip_counts =~= s.ip_counts);
    if s.subs.contains_key(sub) {
        assert(s.subs[sub].insert(client).remove(client) =~= s.subs[sub]);
        assert(s2.subs =~= s.subs);
    } else {
        assert(set![client].remove(client) =~= Set::<ClientAddr>::empty());
        assert(s2.subs =~= s.subs.insert(sub, Set::empty()));
    }
}

/// Law: the route tables agree: every route that serves market data has a
/// subscription type, and every limited route is an authenticated subscription.
pub proof fn lemma_routes_agree(path: Seq<char>)
    ensures
        spec_route(path) is Some <==> spec_sub_type(path) is Some,
        spec_ws_limit_route(path) is Some ==> spec_sub_type(path) == Some(SubscriptionType::Subscription),
{
}

/// Law: a disconnected client is gone from the state: once removed, it listens
/// to no subscription and has no subscription count, so it is no longer active.
pub proof fn lemma_removed_client_is_gone(
    s: SubscriptionsView,
    client: ClientAddr,
    route: Option<WebSocketLimitRouteView>,
    username: Seq<char>,
)
    ensures
        ({
            let s2 = spec_remove_client_from_state(s, client, route, username);
            &&& !s2.counts.contains_key(client)
            &&& forall|sub: SubscriptionView| #[trigger] s2.subs.contains_key(sub) ==> !s2.subs[sub].contains(client)
            &&& s2.subs.dom() == s.subs.dom()
        }),
{
    let s2 = spec_remove_client_from_state(s, client, route, username);
    assert(s2.subs.dom() =~= s.subs.dom());
}

/// Law: a locked subscription is refused to every client while its lock lasts,
/// and refusing it changes nothing.
pub proof fn lemma_locked_subscription_refused(
    s: SubscriptionsView,
    client: ClientAddr,
    sub: SubscriptionView,
    route: Option<WebSocketLimitRouteView>,
    username: Seq<char>,
    now: int,
)
    requires
        is_locked(s, sub, now),
    ensures
        spec_add_client(s, client, sub, route, username, now) == (s, Err::<bool, ErrorCode>(ErrorCode::LockedSubscription)),
{
}

/// Law: a limited route never holds more connections per key than its limit:
/// if a key's count is within the limit before a client is added, it is within
/// the limit after.
pub proof fn lemma_limit_respected(
    s: SubscriptionsView,
    client: ClientAddr,
    sub: SubscriptionView,
    rt: WebSocketLimitRouteView,
    username: Seq<char>,
    now: int,
    key: LimitKeyView,
)
    requires
        rt.limit_number > 0,
        s.limits.contains_key(rt) && s.limits[rt].contains_key(key) ==> s.limits[rt][key] <= rt.limit_number,
    ensures
        ({
            let s2 = spec_add_client(s, client, sub, Some(rt), username, now).0;
            s2.limits.contains_key(rt) && s2.limits[rt].contains_key(key) ==> s2.limits[rt][key] <= rt.limit_number
        }),
{
    let s1 = if is_locked(s, sub, now) { s } else { unlock(s, sub) };
    assert(s1.limits == s.limits);
    let k = limit_key_of(rt.limit_type, client, username);
    let limits = if s1.limits.contains_key(rt) { s1.limits } else { s1.limits.insert(rt, Map::empty()) };
    if !is_locked(s, sub, now) && !(limits[rt].contains_key(k) && limits[rt][k] >= rt.limit_number) {
        let s2 = SubscriptionsView { limits, ..s1 };
        if !is_listener(s2, client, sub) {
            let s3 = add_listener(s2, client, sub);
            assert(s3.limits == limits);
            let m = incremented(s3.limits[rt], k);
            if key == k {
                assert(m[key] <= rt.limit_number);
            } else {
                assert(m.contains_key(key) ==> m[key] == limits[rt][key]);
            }
        }
    }
}

/// Law: a token that the auth server validated is recognised afterwards, for
/// the validation window and no longer: the user is recorded with the token, the
/// token is no longer known to be invalid, and, when no other user holds the
/// token, a lookup within the window names the user while a lookup after it asks
/// for the token to be authenticated again.
pub proof fn lemma_validated_token_recognised(
    s: UsersView,
    token: Seq<char>,
    r: UserResponse,
    now: i64,
    later: i64,
    res: Result<TokenCheck, String>,
)
    ensures
        ({
            let s2 = spec_add_or_update_user(s, token, &r, now);
            &&& s2.users[r.username@].token == token
            &&& s2.users[r.username@].username == r.username@
            &&& !s2.invalid_tokens.contains_key(token)
            &&& (forall|k: Seq<char>| #![trigger s.users[k]] s.users.contains_key(k) && k != r.username@ ==> s.users[k].token != token)
                && token_checked(s2.users, Ok(token), later, res) ==> {
                &&& now <= later && later - now <= token_validation_window_ms() ==> (res matches Ok(
                    TokenCheck::Known(name),
                ) && name@ == r.username@)
                &&& later - now > token_validation_window_ms() ==> (res matches Ok(TokenCheck::Authenticate(x)) && x@ == token)
            }
        }),
{
    let s2 = spec_add_or_update_user(s, token, &r, now);
    let u = r.username@;
    assert(s2.users.contains_key(u));
    if (forall|k: Seq<char>| #![trigger s.users[k]] s.users.contains_key(k) && k != u ==> s.users[k].token != token)
        && token_checked(s2.users, Ok(token), later, res) {
        assert forall|k: Seq<char>| #![trigger s2.users[k]] s2.users.contains_key(k) && s2.users[k].token == token implies k == u by {
            if k != u {
                assert(s.users.contains_key(k));
            }
        }
        if now <= later && later - now <= token_validation_window_ms() {
            assert(fresh_holder(s2.users, u, token, later));
            match res {
                Ok(TokenCheck::Known(name)) => {
                    let k = choose|k: Seq<char>| #![trigger s2.users[k]] fresh_holder(s2.users, k, token, later) && s2.users[k].username == name@;
                    assert(k == u);
                },
                _ => {},
            }
        }
        if later - now > token_validation_window_ms() {
            assert(!fresh_holder(s2.users, u, token, later));
            match res {
                Ok(TokenCheck::Known(name)) => {
                    let k = choose|k: Seq<char>| #![trigger s2.users[k]] fresh_holder(s2.users, k, token, later) && s2.users[k].username == name@;
                    assert(k == u);
                },
                _ => {},
            }
        }
    }
}

/// Law (a read gives back what a write wrote): the cached response of an
/// endpoint is the last one written for it, and writing one endpoint's response
/// leaves the others as they were.
pub proof fn lemma_cached_response_read_back(s: SymbolsView, endpoint: Seq<char>, response: Seq<char>, other: Seq<char>)
    ensures
        ({
            let s2 = SymbolsView { cached_responses: s.cached_responses.insert(endpoint, response), ..s };
            &&& s2.cached_responses.contains_key(endpoint)
            &&& s2.cached_responses[endpoint] == response
            &&& other != endpoint ==> (s2.cached_responses.contains_key(other) == s.cached_responses.contains_key(other)
                && s2.cached_responses[other] == s.cached_responses[other])
            &&& s2.cbbo_sizes == s.cbbo_sizes
        }),
{
}

/// Law (de-duplication, as the handlers report it): a subscription handler asks
/// for a subscription upstream only when no client held it before, and a
/// handler that sends the client nothing beyond its warnings has made the client
/// a listener of the subscription.
pub proof fn lemma_handler_deduplicates(
    s0: SubscriptionsView,
    client: ClientAddr,
    sub: SubscriptionView,
    route: Option<WebSocketLimitRouteView>,
    username: Seq<char>,
    s1: SubscriptionsView,
    warnings: Seq<Seq<char>>,
    messages: Seq<Seq<char>>,
    upstream: Option<SubscriptionView>,
)
    requires
        added_at_some_time(s0, client, sub, route, username, s1, warnings, messages, upstream),
    ensures
        upstream is Some ==> upstream == Some(sub) && !s0.subs.contains_key(sub),
        messages == warnings ==> s1.subs.contains_key(sub) && s1.subs[sub].contains(client),
{
    let now = choose|now: int|
        #[trigger] added_as(s0, client, sub, route, username, now, s1, warnings, messages, upstream);
    lemma_add_deduplicates(s0, client, sub, route, username, now);
    let added = spec_add_client(s0, client, sub, route, username, now);
    if added.1 is Err {
        assert(messages.len() == warnings.len() + 1);
    }
}

/// Law: once the currency pairs are pulled, a pair is known exactly when the
/// pulled list names it (and every size of the list could be read).
pub proof fn lemma_pulled_pairs_are_known(pairs: Seq<PairSizes>, pair: Seq<char>)
    requires
        sizes_of(pairs) is Some,
    ensures
        sizes_of(pairs)->Some_0.contains_key(pair) <==> exists|i: int|
            0 <= i < pairs.len() && (#[trigger] pairs[i]).slug@ == pair,
    decreases pairs.len(),
{
    if pairs.len() > 0 {
        let pre = pairs.drop_last();
        lemma_pulled_pairs_are_known(pre, pair);
        if exists|i: int| 0 <= i < pre.len() && (#[trigger] pre[i]).slug@ == pair {
            let i = choose|i: int| 0 <= i < pre.len() && (#[trigger] pre[i]).slug@ == pair;
            assert(pairs[i] == pre[i]);
        }
        if exists|i: int| 0 <= i < pairs.len() && (#[trigger] pairs[i]).slug@ == pair {
            let i = choose|i: int| 0 <= i < pairs.len() && (#[trigger] pairs[i]).slug@ == pair;
            if i < pairs.len() - 1 {
                assert(pre[i] == pairs[i]);
            }
        }
    }
}

/// What a client adds to the count of an IP address: its subscription count
/// when it is at that address.
pub open spec fn ip_weight(counts: Map<ClientAddr, u32>, ip: ClientIp, c: ClientAddr) -> int {
    if c.ip == ip {
        counts[c] as int
    } else {
        0
    }
}

/// Adds a client's weight to a running total.
pub open spec fn ip_adder(counts: Map<ClientAddr, u32>, ip: ClientIp) -> spec_fn(int, ClientAddr) -> int {
    |acc: int, c: ClientAddr| acc + ip_weight(counts, ip, c)
}

/// The subscriptions counted for the clients of `clients` at an IP address.
pub open spec fn ip_sum(clients: Set<ClientAddr>, counts: Map<ClientAddr, u32>, ip: ClientIp) -> int {
    clients.fold(0int, ip_adder(counts, ip))
}

/// Every IP address's count is the sum of the subscription counts of its
/// clients, and an address with no subscription has no count.
pub open spec fn ip_counts_consistent(s: SubscriptionsView) -> bool {
    &&& s.counts.dom().finite()
    &&& forall|ip: ClientIp|
        #[trigger] ip_sum(s.counts.dom(), s.counts, ip) == if s.ip_counts.contains_key(ip) {
            s.ip_counts[ip] as int
        } else {
            0
        }
}

proof fn lemma_adder_commutative(counts: Map<ClientAddr, u32>, ip: ClientIp)
    ensures
        is_fun_commutative(ip_adder(counts, ip)),
{
    let f = ip_adder(counts, ip);
    assert forall|a1: ClientAddr, a2: ClientAddr, b: int| #[trigger] f(f(b, a2), a1) == f(f(b, a1), a2) by {}
}

/// A sum is the sum without one of its clients plus that client's weight.
proof fn lemma_ip_sum_split(clients: Set<ClientAddr>, counts: Map<ClientAddr, u32>, ip: ClientIp, c: ClientAddr)
    requires
        clients.finite(),
        clients.contains(c),
    ensures
        ip_sum(clients, counts, ip) == ip_sum(clients.remove(c), counts, ip) + ip_weight(counts, ip, c),
{
    lemma_adder_commutative(counts, ip);
    assert(clients.remove(c).insert(c) =~= clients);
    lemma_fold_insert(clients.remove(c), 0int, ip_adder(counts, ip), c);
}

/// Sums agree when the weights agree on the clients summed.
proof fn lemma_ip_sum_congruent(
    clients: Set<ClientAddr>,
    c1: Map<ClientAddr, u32>,
    c2: Map<ClientAddr, u32>,
    ip: ClientIp,
)
    requires
        clients.finite(),
        forall|x: ClientAddr| #[trigger] clients.contains(x) ==> ip_weight(c1, ip, x) == ip_weight(c2, ip, x),
    ensures
        ip_sum(clients, c1, ip) == ip_sum(clients, c2, ip),
    decreases clients.len(),
{
    if clients.len() == 0 {
        assert(clients =~= Set::empty());
        lemma_fold_empty(0int, ip_adder(c1, ip));
        lemma_fold_empty(0int, ip_adder(c2, ip));
    } else {
        let x = clients.choose();
        lemma_ip_sum_congruent(clients.remove(x), c1, c2, ip);
        lemma_ip_sum_split(clients, c1, ip, x);
        lemma_ip_sum_split(clients, c2, ip, x);
    }
}

/// A sum of weights is never negative.
proof fn lemma_ip_sum_nonnegative(clients: Set<ClientAddr>, counts: Map<ClientAddr, u32>, ip: ClientIp)
    requires
        clients.finite(),
    ensures
        ip_sum(clients, counts, ip) >= 0,
    decreases clients.len(),
{
    if clients.len() == 0 {
        assert(clients =~= Set::empty());
        lemma_fold_empty(0int, ip_adder(counts, ip));
    } else {
        let x = clients.choose();
        lemma_ip_sum_nonnegative(clients.remove(x), counts, ip);
        lemma_ip_sum_split(clients, counts, ip, x);
    }
}

/// Changing one client's count, or adding or removing it, changes each sum by
/// the change of that client's weight.
proof fn lemma_ip_sum_change(counts: Map<ClientAddr, u32>, after: Map<ClientAddr, u32>, c: ClientAddr, ip: ClientIp)
    requires
        counts.dom().finite(),
        forall|x: ClientAddr| x != c ==> (#[trigger] after.contains_key(x) == counts.contains_key(x)),
        forall|x: ClientAddr| x != c && #[trigger] counts.contains_key(x) ==> after[x] == counts[x],
    ensures
        after.dom().finite(),
        ip_sum(after.dom(), after, ip) == ip_sum(counts.dom(), counts, ip)
            - (if counts.contains_key(c) { ip_weight(counts, ip, c) } else { 0 })
            + (if after.contains_key(c) { ip_weight(after, ip, c) } else { 0 }),
{
    let rest = counts.dom().remove(c);
    assert(after.dom().remove(c) =~= rest);
    assert(after.dom() =~= if after.contains_key(c) { rest.insert(c) } else { rest });
    lemma_ip_sum_congruent(rest, counts, after, ip);
    if counts.contains_key(c) {
        lemma_ip_sum_split(counts.dom(), counts, ip, c);
    } else {
        assert(counts.dom() =~= rest);
    }
    if after.contains_key(c) {
        lemma_ip_sum_split(after.dom(), after, ip, c);
    }
}

/// Law: adding a client to a subscription keeps every IP address's count equal
/// to the sum of the subscription counts of its clients.
pub proof fn lemma_add_keeps_ip_counts_consistent(
    s: SubscriptionsView,
    client: ClientAddr,
    sub: SubscriptionView,
    route: Option<WebSocketLimitRouteView>,
    username: Seq<char>,
    now: int,
)
    requires
        ip_counts_consistent(s),
        s.counts.contains_key(client) ==> s.counts[client] < u32::MAX,
        s.ip_counts.contains_key(client.ip) ==> s.ip_counts[client.ip] < u32::MAX,
    ensures
        ip_counts_consistent(spec_add_client(s, client, sub, route, username, now).0),
{
    let (s2, r) = spec_add_client(s, client, sub, route, username, now);
    if s2.counts != s.counts {
        let after = incremented(s.counts, client);
        assert(s2.counts == after);
        assert(s2.ip_counts == incremented(s.ip_counts, client.ip));
        assert forall|ip: ClientIp| #[trigger] ip_sum(s2.counts.dom(), s2.counts, ip) == if s2.ip_counts.contains_key(ip) {
            s2.ip_counts[ip] as int
        } else {
            0
        } by {
            lemma_ip_sum_change(s.counts, after, client, ip);
            assert(ip_sum(s.counts.dom(), s.counts, ip) == if s.ip_counts.contains_key(ip) {
                s.ip_counts[ip] as int
            } else {
                0
            });
        }
        lemma_ip_sum_change(s.counts, after, client, client.ip);
    } else {
        assert(s2.ip_counts == s.ip_counts);
    }
}

/// Law: removing a client from a subscription keeps every IP address's count
/// equal to the sum of the subscription counts of its clients, when the
/// client's own count is not zero.
pub proof fn lemma_remove_keeps_ip_counts_consistent(s: SubscriptionsView, client: ClientAddr, sub: SubscriptionView)
    requires
        ip_counts_consistent(s),
        s.counts.contains_key(client) ==> s.counts[client] > 0,
    ensures
        ip_counts_consistent(spec_remove_client(s, client, sub).0),
{
    let (s2, r) = spec_remove_client(s, client, sub);
    let ip = client.ip;
    if s2.counts != s.counts {
        assert(s.counts.contains_key(client));
        assert(ip_sum(s.counts.dom(), s.counts, ip) == if s.ip_counts.contains_key(ip) {
            s.ip_counts[ip] as int
        } else {
            0
        });
        lemma_ip_sum_split(s.counts.dom(), s.counts, ip, client);
        lemma_ip_sum_nonnegative(s.counts.dom().remove(client), s.counts, ip);
        assert(s.ip_counts.contains_key(ip) && s.ip_counts[ip] >= s.counts[client]);
        assert forall|x: ClientIp| #[trigger] ip_sum(s2.counts.dom(), s2.counts, x) == if s2.ip_counts.contains_key(x) {
            s2.ip_counts[x] as int
        } else {
            0
        } by {
            lemma_ip_sum_change(s.counts, s2.counts, client, x);
            assert(ip_sum(s.counts.dom(), s.counts, x) == if s.ip_counts.contains_key(x) {
                s.ip_counts[x] as int
            } else {
                0
            });
        }
        lemma_ip_sum_change(s.counts, s2.counts, client, ip);
    } else {
        assert(s2.ip_counts == s.ip_counts);
    }
}

/// Law: removing a disconnected client from the state keeps every IP address's
/// count equal to the sum of the subscription counts of its clients.
pub proof fn lemma_remove_from_state_keeps_ip_counts_consistent(
    s: SubscriptionsView,
    client: ClientAddr,
    route: Option<WebSocketLimitRouteView>,
    username: Seq<char>,
)
    requires
        ip_counts_consistent(s),
    ensures
        ip_counts_consistent(spec_remove_client_from_state(s, client, route, username)),
{
    let s2 = spec_remove_client_from_state(s, client, route, username);
    let ip = client.ip;
    assert(ip_sum(s.counts.dom(), s.counts, ip) == if s.ip_counts.contains_key(ip) {
        s.ip_counts[ip] as int
    } else {
        0
    });
    if s.counts.contains_key(client) {
        lemma_ip_sum_split(s.counts.dom(), s.counts, ip, client);
        lemma_ip_sum_nonnegative(s.counts.dom().remove(client), s.counts, ip);
    }
    assert forall|x: ClientIp| #[trigger] ip_sum(s2.counts.dom(), s2.counts, x) == if s2.ip_counts.contains_key(x) {
        s2.ip_counts[x] as int
    } else {
        0
    } by {
        lemma_ip_sum_change(s.counts, s2.counts, client, x);
        assert(ip_sum(s.counts.dom(), s.counts, x) == if s.ip_counts.contains_key(x) {
            s.ip_counts[x] as int
        } else {
            0
        });
    }
    lemma_ip_sum_change(s.counts, s2.counts, client, ip);
}

/// Law: once a client is removed from the state, its next session check
/// (after the time given to subscribe) closes its connection.
pub proof fn lemma_removed_client_session_closes(
    s: SubscriptionsView,
    client: ClientAddr,
    route: Option<WebSocketLimitRouteView>,
    username: Seq<char>,
    t: SubscriptionType,
    connected_for_ms: int,
)
    requires
        connected_for_ms >= subscribe_grace_ms(),
    ensures
        ({
            let s2 = spec_remove_client_from_state(s, client, route, username);
            let active = s2.counts.contains_key(client) && s2.counts[client] > 0;
            spec_check_session(t, connected_for_ms, active) == Some("Subscription no longer active"@)
        }),
{
    lemma_removed_client_is_gone(s, client, route, username);
}

/// The bookkeeping of the subscriptions is consistent: every client's count is
/// the number of subscriptions it listens to, every IP address's count is the
/// sum of its clients' counts, and no client or address has a zero count.
pub open spec fn state_consistent(s: SubscriptionsView) -> bool {
    &&& counts_consistent(s)
    &&& ip_counts_consistent(s)
    &&& forall|c: ClientAddr| #[trigger] s.counts.contains_key(c) ==> s.counts[c] > 0
    &&& forall|ip: ClientIp| #[trigger] s.ip_counts.contains_key(ip) ==> s.ip_counts[ip] > 0
}

/// Law: adding a client to a subscription, whether it succeeds or is refused,
/// keeps the bookkeeping consistent, as long as the client's counts are below
/// the largest `u32` (the counts are `u32`).
pub proof fn lemma_add_keeps_state_consistent(
    s: SubscriptionsView,
    client: ClientAddr,
    sub: SubscriptionView,
    route: Option<WebSocketLimitRouteView>,
    username: Seq<char>,
    now: int,
)
    requires
        state_consistent(s),
        s.counts.contains_key(client) ==> s.counts[client] < u32::MAX,
        s.ip_counts.contains_key(client.ip) ==> s.ip_counts[client.ip] < u32::MAX,
    ensures
        state_consistent(spec_add_client(s, client, sub, route, username, now).0),
{
    lemma_add_keeps_counts_consistent(s, client, sub, route, username, now);
    lemma_add_keeps_ip_counts_consistent(s, client, sub, route, username, now);
    let (s2, r) = spec_add_client(s, client, sub, route, username, now);
    if r is Ok {
        let s1 = unlock(s, sub);
        assert(s2.counts == incremented(s1.counts, client));
        assert(s2.ip_counts == incremented(s1.ip_counts, client.ip));
    } else {
        let s1 = unlock(s, sub);
        assert(s2.counts == s.counts && s2.ip_counts == s.ip_counts);
    }
}

/// Law: removing a client from a subscription keeps the bookkeeping
/// consistent when it succeeds, and leaves the counts alone when it fails.
pub proof fn lemma_remove_keeps_state_consistent(s: SubscriptionsView, client: ClientAddr, sub: SubscriptionView)
    requires
        state_consistent(s),
    ensures
        spec_remove_client(s, client, sub).1 is Ok ==> state_consistent(spec_remove_client(s, client, sub).0),
        spec_remove_client(s, client, sub).1 is Err ==> spec_remove_client(s, client, sub).0.counts == s.counts
            && spec_remove_client(s, client, sub).0.ip_counts == s.ip_counts,
{
    lemma_remove_keeps_counts_consistent(s, client, sub);
    lemma_remove_keeps_ip_counts_consistent(s, client, sub);
    let (s2, r) = spec_remove_client(s, client, sub);
    let ip = client.ip;
    if s.subs.contains_key(sub) && s.subs[sub].contains(client) {
        assert(listened(s.subs, client).contains(sub));
        assert(s.counts.contains_key(client));
        assert(ip_sum(s.counts.dom(), s.counts, ip) == if s.ip_counts.contains_key(ip) {
            s.ip_counts[ip] as int
        } else {
            0
        });
        lemma_ip_sum_split(s.counts.dom(), s.counts, ip, client);
        lemma_ip_sum_nonnegative(s.counts.dom().remove(client), s.counts, ip);
        assert(s.ip_counts.contains_key(ip));
    }
}

/// How one address's count fares when the listeners of a closed subscription
/// are released in turn: it never grows, and it is untouched when no listener
/// has the address.
proof fn lemma_release_ip_count(ip_counts: Map<ClientIp, u32>, counts: Map<ClientAddr, u32>, l: Seq<ClientAddr>, ip: ClientIp)
    ensures
        release_ip_counts(ip_counts, counts, l).contains_key(ip) ==> ip_counts.contains_key(ip)
            && release_ip_counts(ip_counts, counts, l)[ip] <= ip_counts[ip],
        (forall|i: int| 0 <= i < l.len() ==> (#[trigger] l[i]).ip != ip) ==> (release_ip_counts(ip_counts, counts, l).contains_key(ip)
            == ip_counts.contains_key(ip) && (ip_counts.contains_key(ip) ==> release_ip_counts(ip_counts, counts, l)[ip]
            == ip_counts[ip])),
    decreases l.len(),
{
    if l.len() > 0 {
        let pre = l.drop_last();
        lemma_release_ip_count(ip_counts, counts, pre, ip);
        if forall|i: int| 0 <= i < l.len() ==> (#[trigger] l[i]).ip != ip {
            assert forall|i: int| 0 <= i < pre.len() implies (#[trigger] pre[i]).ip != ip by {
                assert(pre[i] == l[i]);
            }
            assert(l[l.len() - 1].ip != ip);
        }
    }
}

/// The address of exactly one listener of a closed subscription is lowered by
/// that listener's remaining subscription count, and removed when that count
/// reaches or passes it.
proof fn lemma_release_ip_count_single(
    ip_counts: Map<ClientIp, u32>,
    counts: Map<ClientAddr, u32>,
    l: Seq<ClientAddr>,
    j: int,
)
    requires
        0 <= j < l.len(),
        forall|i: int| 0 <= i < l.len() && i != j ==> (#[trigger] l[i]).ip != l[j].ip,
    ensures
        ({
            let ip = l[j].ip;
            let c = l[j];
            let r = release_ip_counts(ip_counts, counts, l);
            if counts.contains_key(c) && ip_counts.contains_key(ip) {
                if ip_counts[ip] > counts[c] {
                    r.contains_key(ip) && r[ip] == ip_counts[ip] - counts[c]
                } else {
                    !r.contains_key(ip)
                }
            } else {
                r.contains_key(ip) == ip_counts.contains_key(ip) && (ip_counts.contains_key(ip) ==> r[ip] == ip_counts[ip])
            }
        }),
    decreases l.len(),
{
    let ip = l[j].ip;
    let pre = l.drop_last();
    if j == l.len() - 1 {
        assert forall|i: int| 0 <= i < pre.len() implies (#[trigger] pre[i]).ip != ip by {
            assert(pre[i] == l[i]);
        }
        lemma_release_ip_count(ip_counts, counts, pre, ip);
    } else {
        assert forall|i: int| 0 <= i < pre.len() && i != j implies (#[trigger] pre[i]).ip != pre[j].ip by {
            assert(pre[i] == l[i]);
            assert(pre[j] == l[j]);
        }
        lemma_release_ip_count_single(ip_counts, counts, pre, j);
        assert(pre[j] == l[j]);
        assert(l[l.len() - 1].ip != ip);
    }
}

/// Law (address counts when a failed subscription is closed): no address count
/// grows; an address that none of the listeners has keeps its count; and an
/// address that exactly one listener has is lowered by that listener's remaining
/// subscription count (not by one), and removed when that count reaches or
/// passes it.
pub proof fn lemma_close_failed_ip_counts(
    s: SubscriptionsView,
    sub: SubscriptionView,
    now: i64,
    listeners: Seq<ClientAddr>,
    ip: ClientIp,
)
    ensures
        ({
            let s2 = spec_close_failed_subscription(s, sub, now, Some(listeners));
            &&& s2.ip_counts.contains_key(ip) ==> s.ip_counts.contains_key(ip) && s2.ip_counts[ip] <= s.ip_counts[ip]
            &&& (forall|i: int| 0 <= i < listeners.len() ==> (#[trigger] listeners[i]).ip != ip) ==> (
                s2.ip_counts.contains_key(ip) == s.ip_counts.contains_key(ip) && (s.ip_counts.contains_key(ip)
                ==> s2.ip_counts[ip] == s.ip_counts[ip]))
            &&& forall|j: int|
                0 <= j < listeners.len() && listeners[j].ip == ip && (forall|i: int|
                    0 <= i < listeners.len() && i != j ==> (#[trigger] listeners[i]).ip != ip)
                    && #[trigger] s2.counts.contains_key(listeners[j]) && s.ip_counts.contains_key(ip)
                    ==> if s.ip_counts[ip] > s2.counts[listeners[j]] {
                    s2.ip_counts.contains_key(ip) && s2.ip_counts[ip] == s.ip_counts[ip] - s2.counts[listeners[j]]
                } else {
                    !s2.ip_counts.contains_key(ip)
                }
        }),
{
    let s2 = spec_close_failed_subscription(s, sub, now, Some(listeners));
    let counts = s2.counts;
    lemma_release_ip_count(s.ip_counts, counts, listeners, ip);
    assert forall|j: int|
        0 <= j < listeners.len() && listeners[j].ip == ip && (forall|i: int|
            0 <= i < listeners.len() && i != j ==> (#[trigger] listeners[i]).ip != ip)
            && #[trigger] s2.counts.contains_key(listeners[j]) && s.ip_counts.contains_key(ip)
        implies if s.ip_counts[ip] > s2.counts[listeners[j]] {
            s2.ip_counts.contains_key(ip) && s2.ip_counts[ip] == s.ip_counts[ip] - s2.counts[listeners[j]]
        } else {
            !s2.ip_counts.contains_key(ip)
        } by {
        lemma_release_ip_count_single(s.ip_counts, counts, listeners, j);
    }
}

/// An operation on the subscription bookkeeping.
pub enum StateOp {
    /// A client is added to a subscription (`add_client_to_subscription`).
    Add {
        client: ClientAddr,
        sub: SubscriptionView,
        route: Option<WebSocketLimitRouteView>,
        username: Seq<char>,
        now: int,
    },
    /// A client leaves one subscription (`remove_client_from_subscription`).
    Remove { client: ClientAddr, sub: SubscriptionView },
    /// A client disconnects (`remove_client_from_state`).
    Leave { client: ClientAddr, route: Option<WebSocketLimitRouteView>, username: Seq<char> },
    /// A subscription that failed upstream is closed (`close_failed_subscription`).
    CloseFailed { sub: SubscriptionView, now: i64, listeners: Option<Seq<ClientAddr>> },
}

/// The bookkeeping after an operation.
pub open spec fn apply_op(s: SubscriptionsView, op: StateOp) -> SubscriptionsView {
    match op {
        StateOp::Add { client, sub, route, username, now } => spec_add_client(s, client, sub, route, username, now).0,
        StateOp::Remove { client, sub } => spec_remove_client(s, client, sub).0,
        StateOp::Leave { client, route, username } => spec_remove_client_from_state(s, client, route, username),
        StateOp::CloseFailed { sub, now, listeners } => spec_close_failed_subscription(s, sub, now, listeners),
    }
}

/// The bookkeeping after a run of operations, in order.
pub open spec fn run_ops(s: SubscriptionsView, ops: Seq<StateOp>) -> SubscriptionsView
    decreases ops.len(),
{
    if ops.len() == 0 {
        s
    } else {
        apply_op(run_ops(s, ops.drop_last()), ops.last())
    }
}

/// The operation acts on `c` itself.
pub open spec fn acts_on(op: StateOp, c: ClientAddr) -> bool {
    match op {
        StateOp::Add { client, .. } => client == c,
        StateOp::Remove { client, .. } => client == c,
        StateOp::Leave { client, .. } => client == c,
        StateOp::CloseFailed { .. } => false,
    }
}

/// The client listens to nothing and has no subscription count, so it is not
/// active (`is_client_still_active` is false).
pub open spec fn inactive(s: SubscriptionsView, c: ClientAddr) -> bool {
    &&& !s.counts.contains_key(c)
    &&& forall|sub: SubscriptionView| #[trigger] s.subs.contains_key(sub) ==> !s.subs[sub].contains(c)
}

proof fn lemma_op_keeps_inactive(s: SubscriptionsView, op: StateOp, c: ClientAddr)
    requires
        inactive(s, c),
        !acts_on(op, c),
    ensures
        inactive(apply_op(s, op), c),
{
    let s2 = apply_op(s, op);
    match op {
        StateOp::Add { client, sub, route, username, now } => {
            let (s3, r) = spec_add_client(s, client, sub, route, username, now);
            assert forall|x: SubscriptionView| #[trigger] s3.subs.contains_key(x) implies !s3.subs[x].contains(c) by {
                if x == sub && s3.subs != s.subs {
                    assert(s.subs.contains_key(sub) ==> !s.subs[sub].contains(c));
                }
            }
        },
        StateOp::Remove { client, sub } => {},
        StateOp::Leave { client, route, username } => {},
        StateOp::CloseFailed { sub, now, listeners } => {},
    }
}

/// Law: a client removed from the state stays inactive through any later
/// operations that do not act on it (additions, removals and disconnections of
/// other clients, and closings of failed subscriptions), until it is added again.
pub proof fn lemma_removed_client_stays_inactive(
    s: SubscriptionsView,
    client: ClientAddr,
    route: Option<WebSocketLimitRouteView>,
    username: Seq<char>,
    ops: Seq<StateOp>,
)
    requires
        forall|i: int| 0 <= i < ops.len() ==> !acts_on(#[trigger] ops[i], client),
    ensures
        inactive(run_ops(spec_remove_client_from_state(s, client, route, username), ops), client),
    decreases ops.len(),
{
    if ops.len() == 0 {
        lemma_removed_client_is_gone(s, client, route, username);
    } else {
        let pre = ops.drop_last();
        assert forall|i: int| 0 <= i < pre.len() implies !acts_on(#[trigger] pre[i], client) by {
            assert(pre[i] == ops[i]);
        }
        lemma_removed_client_stays_inactive(s, client, route, username, pre);
        assert(!acts_on(ops[ops.len() - 1], client));
        lemma_op_keeps_inactive(run_ops(spec_remove_client_from_state(s, client, route, username), pre), ops.last(), client);
    }
}

/// An operation on the users and tokens.
pub enum UsersOp {
    /// The auth server validated a token for a user (`add_or_update_user`).
    AddUser { token: Seq<char>, response: UserResponse, now: i64 },
    /// A token was found invalid (`invalidate_token`).
    Invalidate { token: Seq<char>, now: i64 },
    /// A token was tried (`add_attempted_auth`).
    Attempt { token: Seq<char>, now: i64 },
}

/// The users after an operation.
pub open spec fn apply_users_op(s: UsersView, op: UsersOp) -> UsersView {
    match op {
        UsersOp::AddUser { token, response, now } => spec_add_or_update_user(s, token, &response, now),
        UsersOp::Invalidate { token, now } => UsersView { invalid_tokens: s.invalid_tokens.insert(token, now), ..s },
        UsersOp::Attempt { token, now } => UsersView { attempted_auths: s.attempted_auths.insert(token, now), ..s },
    }
}

/// The users after a run of operations, in order.
pub open spec fn run_users_ops(s: UsersView, ops: Seq<UsersOp>) -> UsersView
    decreases ops.len(),
{
    if ops.len() == 0 {
        s
    } else {
        apply_users_op(run_users_ops(s, ops.drop_last()), ops.last())
    }
}

/// The operation validates or invalidates `token`.
pub open spec fn decides_token(op: UsersOp, t: Seq<char>) -> bool {
    match op {
        UsersOp::AddUser { token, .. } => token == t,
        UsersOp::Invalidate { token, .. } => token == t,
        UsersOp::Attempt { .. } => false,
    }
}

/// Law: a token's standing as invalid lasts until a later operation validates
/// or invalidates it again: after `invalidate_token` at time `t0`, the token is
/// known invalid at time `now` exactly when `now` is within the window after
/// `t0`; a token that was never invalidated, or was validated since, is not
/// known invalid.
pub proof fn lemma_token_standing_persists(s: UsersView, token: Seq<char>, ops: Seq<UsersOp>, window: Option<i64>, now: i64)
    requires
        forall|i: int| 0 <= i < ops.len() ==> !decides_token(#[trigger] ops[i], token),
    ensures
        s.invalid_tokens.contains_key(token) ==> run_users_ops(s, ops).invalid_tokens.contains_key(token)
            && run_users_ops(s, ops).invalid_tokens[token] == s.invalid_tokens[token]
            && (recorded_in(run_users_ops(s, ops).invalid_tokens, token, window, now) == within_window(
            s.invalid_tokens[token],
            window,
            now,
        )),
        !s.invalid_tokens.contains_key(token) ==> !recorded_in(run_users_ops(s, ops).invalid_tokens, token, window, now),
    decreases ops.len(),
{
    if ops.len() > 0 {
        let pre = ops.drop_last();
        assert forall|i: int| 0 <= i < pre.len() implies !decides_token(#[trigger] pre[i], token) by {
            assert(pre[i] == ops[i]);
        }
        lemma_token_standing_persists(s, token, pre, window, now);
        assert(!decides_token(ops[ops.len() - 1], token));
    }
}

/// Law: after `invalidate_token` at `t0`, and until the token is validated or
/// invalidated again, `check_token_known_to_be_invalid` at time `now` answers
/// whether `now` is within the window after `t0`; after `add_or_update_user` with
/// the token, and until it is invalidated again, it answers no.
pub proof fn lemma_invalidated_token_stays_invalid(
    s: UsersView,
    token: Seq<char>,
    t0: i64,
    response: UserResponse,
    t1: i64,
    ops: Seq<UsersOp>,
    window: Option<i64>,
    now: i64,
)
    requires
        forall|i: int| 0 <= i < ops.len() ==> !decides_token(#[trigger] ops[i], token),
    ensures
        recorded_in(
            run_users_ops(apply_users_op(s, UsersOp::Invalidate { token, now: t0 }), ops).invalid_tokens,
            token,
            window,
            now,
        ) == within_window(t0, window, now),
        !recorded_in(
            run_users_ops(apply_users_op(s, UsersOp::AddUser { token, response, now: t1 }), ops).invalid_tokens,
            token,
            window,
            now,
        ),
{
    lemma_token_standing_persists(apply_users_op(s, UsersOp::Invalidate { token, now: t0 }), token, ops, window, now);
    lemma_token_standing_persists(apply_users_op(s, UsersOp::AddUser { token, response, now: t1 }), token, ops, window, now);
}

/// Law: a size filter is valid for a pair exactly when it is one of the pair's
/// listed sizes. Two sizes are the same size only when both were parsed and
/// their keys are equal, so sameness is symmetric and transitive, and a filter
/// smaller or larger than every listed size matches none of them.
pub proof fn lemma_size_filter_is_a_listed_size(
    filter: SizeValue,
    a: SizeValue,
    b: SizeValue,
    sizes: Seq<SizeValue>,
)
    ensures
        same_size(&filter, &a) <==> (filter.key is Some && a.key is Some && filter.key->0 == a.key->0),
        same_size(&filter, &a) ==> same_size(&a, &filter),
        same_size(&filter, &a) && same_size(&a, &b) ==> same_size(&filter, &b),
        filter.key is Some && a.key is Some && filter.key->0 != a.key->0 ==> !same_size(&filter, &a),
        (exists|j: int| 0 <= j < sizes.len() && same_size(&filter, &#[trigger] sizes[j])) <==> (
        filter.key is Some && exists|j: int|
            0 <= j < sizes.len() && (#[trigger] sizes[j]).key == filter.key),
        (forall|j: int| 0 <= j < sizes.len() ==> (#[trigger] sizes[j]).key is Some && sizes[j].key->0
            != filter.key->0) ==> !exists|j: int| 0 <= j < sizes.len() && same_size(&filter, &#[trigger] sizes[j]),
{
}

/// Law: a customer-specific exchange's cbag market is named after the client
/// that asks for it. For a client with a market data id it begins with the
/// client id, `_`, the market data id and `-`; for one without, with the client
/// id and `-`; so the two markets differ. An exchange that is not
/// customer-specific has the same market whoever asks for it.
pub proof fn lemma_cbag_market_names_market_data_id(
    e: ExchangeView,
    client_id: Seq<char>,
    market_data_id: Seq<char>,
    other_client_id: Seq<char>,
)
    ensures
        e.customer_specific ==> has_prefix(
            spec_exchange_cbag_market(e, client_id, Some(market_data_id)),
            client_id + "_"@ + market_data_id + "-"@,
        ),
        e.customer_specific ==> has_prefix(
            spec_exchange_cbag_market(e, client_id, None),
            client_id + "-"@,
        ),
        e.customer_specific ==> spec_exchange_cbag_market(e, client_id, Some(market_data_id))
            != spec_exchange_cbag_market(e, client_id, None),
        !e.customer_specific ==> spec_exchange_cbag_market(e, client_id, Some(market_data_id))
            == spec_exchange_cbag_market(e, other_client_id, None),
{
    reveal_strlit("_");
    reveal_strlit("-");
    let base = cbag_market_base(unicode_lowercase(e.slug), unicode_uppercase(e.slug));
    let with_id = spec_exchange_cbag_market(e, client_id, Some(market_data_id));
    let without_id = spec_exchange_cbag_market(e, client_id, None);
    if e.customer_specific {
        let p1 = client_id + "_"@ + market_data_id + "-"@;
        let p2 = client_id + "-"@;
        assert(client_id + "_"@ + market_data_id + "-"@ + base =~= p1 + base);
        assert(with_id.subrange(0, p1.len() as int) =~= p1);
        assert(without_id.subrange(0, p2.len() as int) =~= p2);
        assert(with_id[client_id.len() as int] == '_');
        assert(without_id[client_id.len() as int] == '-');
    }
}

/// Law: each route serves the market data type that its path names: the routes
/// that end in `/cbbo` serve cbbo, those that end in `/market_depth` serve
/// market depth, and the one that ends in `/cost_calculator` serves the cost
/// calculator.
pub proof fn lemma_route_serves_named_type(path: Seq<char>)
    ensures
        spec_route(path) is Some ==> (spec_route(path) == Some(MarketDataType::CbboV1) <==> has_suffix(
            path,
            "/cbbo"@,
        )),
        spec_route(path) is Some ==> (spec_route(path) == Some(MarketDataType::MarketDepthV1)
            <==> has_suffix(path, "/market_depth"@)),
        spec_route(path) is Some ==> (spec_route(path) == Some(MarketDataType::RestCostCalculatorV1)
            <==> has_suffix(path, "/cost_calculator"@)),
{
    reveal_strlit("/api/streaming/cbbo");
    reveal_strlit("/api/streaming/market_depth");
    reveal_strlit("/api/cost_calculator");
    reveal_strlit("/api/public/streaming/cbbo");
    reveal_strlit("/api/public/streaming/market_depth");
    reveal_strlit("/cbbo");
    reveal_strlit("/market_depth");
    reveal_strlit("/cost_calculator");
    if spec_route(path) is Some {
        let n = path.len() as int;
        if has_suffix(path, "/cbbo"@) {
            assert(path.subrange(n - 5, n)[4] == path[n - 1]);
        }
        if has_suffix(path, "/market_depth"@) {
            assert(path.subrange(n - 13, n)[12] == path[n - 1]);
        }
        if has_suffix(path, "/cost_calculator"@) {
            assert(path.subrange(n - 16, n)[15] == path[n - 1]);
        }
        if path == "/api/streaming/cbbo"@ || path == "/api/public/streaming/cbbo"@ {
            assert(path.subrange(n - 5, n) =~= "/cbbo"@);
        }
        if path == "/api/streaming/market_depth"@ || path == "/api/public/streaming/market_depth"@ {
            assert(path.subrange(n - 13, n) =~= "/market_depth"@);
        }
        if path == "/api/cost_calculator"@ {
            assert(path.subrange(n - 16, n) =~= "/cost_calculator"@);
        }
    }
}

/// Law: a public streaming route serves what its authenticated counterpart
/// serves: for every name, `/api/public/streaming` followed by the name is a
/// route exactly when `/api/streaming` followed by it is one, and both serve the
/// same market data type, as a public and as an authenticated subscription.
pub proof fn lemma_public_route_matches_authenticated(name: Seq<char>)
    ensures
        spec_route("/api/public/streaming"@ + name) == spec_route("/api/streaming"@ + name),
        spec_route("/api/streaming"@ + name) is Some <==> (name == "/cbbo"@ || name == "/market_depth"@),
        spec_route("/api/streaming"@ + name) is Some ==> spec_sub_type("/api/public/streaming"@ + name)
            == Some(SubscriptionType::PublicSubscription) && spec_sub_type("/api/streaming"@ + name)
            == Some(SubscriptionType::Subscription),
{
    reveal_strlit("/api/streaming/cbbo");
    reveal_strlit("/api/streaming/market_depth");
    reveal_strlit("/api/cost_calculator");
    reveal_strlit("/api/public/streaming/cbbo");
    reveal_strlit("/api/public/streaming/market_depth");
    reveal_strlit("/cbbo");
    reveal_strlit("/market_depth");
    reveal_strlit("/api/streaming");
    reveal_strlit("/api/public/streaming");
    let a = "/api/streaming"@;
    let p = "/api/public/streaming"@;
    let cbbo = "/cbbo"@;
    let depth = "/market_depth"@;
    assert("/api/streaming/cbbo"@ =~= a + cbbo);
    assert("/api/streaming/market_depth"@ =~= a + depth);
    assert("/api/public/streaming/cbbo"@ =~= p + cbbo);
    assert("/api/public/streaming/market_depth"@ =~= p + depth);
    assert((a + name)[5] == 's');
    assert((p + name)[5] == 'p');
    assert((a + name).skip(a.len() as int) =~= name);
    assert((p + name).skip(p.len() as int) =~= name);
    assert((a + cbbo).skip(a.len() as int) =~= cbbo);
    assert((a + depth).skip(a.len() as int) =~= depth);
    assert((p + cbbo).skip(p.len() as int) =~= cbbo);
    assert((p + depth).skip(p.len() as int) =~= depth);
}

/// Law: the cached endpoints are the auth server's currency pairs, exchanges
/// and exchange fees routes, each under `/api/` and under `/api_internal/`, and
/// nothing else: six endpoints, each listed once, so a round of the background
/// task fetches every one of them exactly once.
pub proof fn lemma_cached_endpoints_are_auth_routes(name: Seq<char>)
    ensures
        spec_cached_endpoints().len() == 6,
        spec_cached_endpoints().no_duplicates(),
        name == "currency_pairs"@ || name == "exchanges"@ || name == "exchange_fees"@ ==> spec_cached_endpoints().contains(
            "/api/"@ + name,
        ) && spec_cached_endpoints().contains("/api_internal/"@ + name),
{
    reveal_strlit("/api/currency_pairs");
    reveal_strlit("/api/exchanges");
    reveal_strlit("/api/exchange_fees");
    reveal_strlit("/api_internal/currency_pairs");
    reveal_strlit("/api_internal/exchanges");
    reveal_strlit("/api_internal/exchange_fees");
    reveal_strlit("/api/");
    reveal_strlit("/api_internal/");
    reveal_strlit("currency_pairs");
    reveal_strlit("exchanges");
    reveal_strlit("exchange_fees");
    let s = spec_cached_endpoints();
    assert(s.no_duplicates()) by {
        assert forall|i: int, j: int| 0 <= i < s.len() && 0 <= j < s.len() && i != j implies s[i] != s[j] by {
            assert(s[i].len() != s[j].len());
        }
    }
    if name == "currency_pairs"@ {
        assert(s[0] =~= "/api/"@ + name);
        assert(s[3] =~= "/api_internal/"@ + name);
    } else if name == "exchanges"@ {
        assert(s[1] =~= "/api/"@ + name);
        assert(s[4] =~= "/api_internal/"@ + name);
    } else if name == "exchange_fees"@ {
        assert(s[2] =~= "/api/"@ + name);
        assert(s[5] =~= "/api_internal/"@ + name);
    }
}

} // verus!
