//! Subscriptions to the market depth (snapshot) of a currency pair.
use vstd::prelude::*;
use crate::client::ClientAddr;
use crate::json::{error_object, error_object_json};
use crate::md_handlers::helper::{
    cbag_market_base, cbag_market_core, cbag_market_to_exchange, exchange_alias,
    exchange_to_cbag_market,
};
use crate::md_handlers::outcome::{added_at_some_time, sub_view, subscribe_client, SubscriptionOutcome};
use crate::routes_config::MarketDataType;
use crate::state::{ConnectionStateStruct, SubscriptionsView};
use crate::subscriptions::{SnapshotStruct, SnapshotView, Subscription, SubscriptionView, views_of};
use crate::text::{unicode_lowercase, unicode_uppercase};

verus! {

/// The depth of a snapshot when the client names none.
pub open spec fn default_depth_limit() -> u32 {
    50
}

/// How often, in milliseconds, cbag sends a snapshot.
pub open spec fn snapshot_interval_ms() -> u32 {
    300
}

/// The text of the error for a depth limit out of range.
pub open spec fn depth_limit_error() -> Seq<char> {
    "depth_limit must be between 1-200"@
}

/// The text of the error for an empty list of exchanges.
pub open spec fn no_exchange_error() -> Seq<char> {
    "exchanges must contain at least 1 exchange"@
}

/// The checks of a market depth subscription message: the error text of a
/// refused one, or the depth limit to subscribe with.
pub open spec fn depth_checks(exchanges: Seq<Seq<char>>, depth_limit: Option<u32>) -> Result<
    u32,
    Seq<char>,
> {
    if depth_limit matches Some(d) && (d < 1 || d > 200) {
        Err(depth_limit_error())
    } else if exchanges.len() == 0 {
        Err(no_exchange_error())
    } else {
        match depth_limit {
            Some(d) => Ok(d),
            None => Ok(default_depth_limit()),
        }
    }
}

/// The cbag market of an exchange that a market depth subscription names.
pub open spec fn depth_market(exchange: Seq<char>) -> Seq<char> {
    cbag_market_base(unicode_lowercase(exchange), unicode_uppercase(exchange))
}

/// The snapshot subscription for a pair, exchanges and depth.
pub open spec fn depth_subscription(
    market_data_type: MarketDataType,
    pair: Seq<char>,
    exchanges: Seq<Seq<char>>,
    depth_limit: u32,
) -> SubscriptionView {
    SubscriptionView::Snapshot(
        SnapshotView {
            market_data_type,
            currency_pair: pair,
            cbag_markets: exchanges.map_values(|e: Seq<char>| depth_market(e)),
            depth_limit,
            interval_ms: snapshot_interval_ms(),
        },
    )
}

/// What handling a market depth subscription message did: a refused message is
/// answered with the JSON error object and leaves the subscriptions alone; an
/// accepted one adds the client to the snapshot subscription.
pub open spec fn depth_handled(
    s0: SubscriptionsView,
    client: ClientAddr,
    market_data_type: MarketDataType,
    pair: Seq<char>,
    exchanges: Seq<Seq<char>>,
    checks: Result<u32, Seq<char>>,
    s1: SubscriptionsView,
    messages: Seq<Seq<char>>,
    upstream: Option<SubscriptionView>,
) -> bool {
    match checks {
        Err(text) => messages == seq![error_object_json(text)] && upstream is None && s1 == s0,
        Ok(depth) => added_at_some_time(
            s0,
            client,
            depth_subscription(market_data_type, pair, exchanges, depth),
            None,
            Seq::empty(),
            s1,
            Seq::empty(),
            messages,
            upstream,
        ),
    }
}

/// The cbag markets for the exchanges of a market depth subscription.
pub fn depth_markets(exchanges: &Vec<String>) -> (r: Vec<String>)
    ensures
        views_of(r@) == views_of(exchanges@).map_values(|e: Seq<char>| depth_market(e)),
{
    let mut r: Vec<String> = Vec::new();
    let mut i: usize = 0;
    while i < exchanges.len()
        invariant
            i <= exchanges@.len(),
            views_of(r@) == views_of(exchanges@).take(i as int).map_values(
                |e: Seq<char>| depth_market(e),
            ),
        decreases exchanges.len() - i,
    {
        let ghost prev = views_of(r@);
        let m = exchange_to_cbag_market(exchanges[i].as_str(), "", false, false, false);
        r.push(m);
        assert(views_of(exchanges@)[i as int] == exchanges@[i as int]@);
        assert(views_of(r@) =~= prev.push(m@));
        assert(views_of(r@) =~= views_of(exchanges@).take(i + 1).map_values(
            |e: Seq<char>| depth_market(e),
        ));
        i = i + 1;
    }
    assert(views_of(exchanges@).take(exchanges@.len() as int) =~= views_of(exchanges@));
    r
}

/// Handles a market depth subscription message of a client, already parsed into
/// its currency pair, exchanges and optional depth limit. The depth limit must be
/// between 1 and 200 (50 when absent) and at least one exchange must be named;
/// the client is then added to the snapshot subscription of the pair on the cbag
/// markets of the exchanges, sent every 300 ms.
pub fn handle_subscription(
    client_address: &ClientAddr,
    connection_state: &mut ConnectionStateStruct,
    currency_pair: String,
    exchanges: Vec<String>,
    depth_limit: Option<u32>,
    market_data_type: MarketDataType,
) -> (r: SubscriptionOutcome)
    requires
        old(connection_state).wf(),
        old(connection_state).subs_view().counts.contains_key(*client_address) ==> old(connection_state).subs_view().counts[*client_address] < u32::MAX,
        old(connection_state).subs_view().ip_counts.contains_key(client_address.ip) ==> old(connection_state).subs_view().ip_counts[client_address.ip] < u32::MAX,
    ensures
        final(connection_state).wf(),
        final(connection_state).same_but_subscriptions(old(connection_state)),
        depth_handled(
            old(connection_state).subs_view(),
            *client_address,
            market_data_type,
            currency_pair@,
            views_of(exchanges@),
            depth_checks(views_of(exchanges@), depth_limit),
            final(connection_state).subs_view(),
            views_of(r.messages@),
            sub_view(r.upstream),
        ),
{
    let mut messages: Vec<String> = Vec::new();
    if let Some(d) = depth_limit {
        if d < 1 || d > 200 {
            messages.push(error_object("depth_limit must be between 1-200"));
            assert(views_of(messages@) =~= seq![error_object_json(depth_limit_error())]);
            return SubscriptionOutcome { messages, upstream: None };
        }
    }
    if exchanges.len() == 0 {
        messages.push(error_object("exchanges must contain at least 1 exchange"));
        assert(views_of(messages@) =~= seq![error_object_json(no_exchange_error())]);
        return SubscriptionOutcome { messages, upstream: None };
    }
    let markets = depth_markets(&exchanges);
    let depth: u32 = match depth_limit {
        Some(d) => d,
        None => 50,
    };
    let subscription = Subscription::Snapshot(
        SnapshotStruct::new(market_data_type, currency_pair, markets, depth, 300),
    );
    assert(views_of(messages@) =~= Seq::<Seq<char>>::empty());
    subscribe_client(client_address, connection_state, subscription, None, String::new(), messages)
}

/// The exchange names that clients know for the cbag markets that key the
/// quantities of a price level, each with its quantity.
pub fn transform_level_markets(entries: &Vec<(String, String)>) -> (r: Vec<(String, String)>)
    ensures
        r@.len() == entries@.len(),
        forall|i: int|
            0 <= i < entries@.len() ==> (#[trigger] r@[i]).0@ == exchange_alias(
                unicode_lowercase(cbag_market_core(entries@[i].0@)),
            ) && r@[i].1@ == entries@[i].1@,
{
    let mut r: Vec<(String, String)> = Vec::new();
    let mut i: usize = 0;
    while i < entries.len()
        invariant
            i <= entries@.len(),
            r@.len() == i,
            forall|j: int|
                0 <= j < i ==> (#[trigger] r@[j]).0@ == exchange_alias(
                    unicode_lowercase(cbag_market_core(entries@[j].0@)),
                ) && r@[j].1@ == entries@[j].1@,
        decreases entries.len() - i,
    {
        let exchange = cbag_market_to_exchange(entries[i].0.as_str());
        let quantity = entries[i].1.clone();
        r.push((exchange, quantity));
        i = i + 1;
    }
    r
}

} // verus!
