//! Subscriptions to the OTC cost calculator of a currency pair.
use vstd::prelude::*;
use crate::client::ClientAddr;
use crate::error::{ErrorCode, MerxErrorResponse};
use crate::md_handlers::helper::{cbag_market_base, cbag_market_from_cases};
use crate::md_handlers::outcome::{
    added_at_some_time, default_message, error_message, sub_view, subscribe_client,
    SubscriptionOutcome,
};
use crate::routes_config::{MarketDataType, WebSocketLimitRoute, WebSocketLimitRouteView};
use crate::state::{route_view, ConnectionStateStruct, SubscriptionsView};
use crate::subscriptions::{DirectStruct, DirectView, Subscription, SubscriptionView, views_of};
use crate::symbols::{join_strings, joined};
use crate::text::{
    has_prefix, opt_view, starts_with, suffix_from, to_lowercase, to_uppercase,
    unicode_lowercase, unicode_uppercase,
};
use crate::user::{first_missing, invalid_exchange_text, spec_exchange_cbag_market};

verus! {

/// The body of a REST request to the cost calculator.
pub struct RestCostCalculatorV1RequestBody {
    pub currency_pair: String,
    pub exchanges: Vec<String>,
    pub quantity: String,
    pub side: String,
    pub use_fees: Option<bool>,
    pub use_funding_currency: Option<bool>,
}

/// The text of the error for an empty list of exchanges.
pub open spec fn no_exchanges_text() -> Seq<char> {
    "No Exchanges Found. At least one exchange must be provided"@
}

/// The checks of a cost calculator subscription message against the state: the
/// message for a refused subscription, or the cbag markets of the exchanges.
pub open spec fn cost_checks(
    state: &ConnectionStateStruct,
    pair: Seq<char>,
    exchanges: Seq<Seq<char>>,
    username: Seq<char>,
    market_data_id: Option<Seq<char>>,
) -> Result<Seq<Seq<char>>, Seq<char>> {
    let sym = state.symbols@;
    let users = state.users@.users;
    if sym.cbbo_sizes.dom().len() == 0 {
        Err(default_message(ErrorCode::ServerInitializing))
    } else if !sym.cbbo_sizes.contains_key(pair) {
        Err(default_message(ErrorCode::InvalidCurrencyPair))
    } else if exchanges.len() == 0 {
        Err(error_message(ErrorCode::InvalidExchanges, no_exchanges_text()))
    } else if !users.contains_key(username) {
        Err(default_message(ErrorCode::ServerError))
    } else {
        let u = users[username];
        if exists|j: int| first_missing(u.exchanges, exchanges, j) {
            let j = choose|j: int| first_missing(u.exchanges, exchanges, j);
            Err(error_message(ErrorCode::InvalidExchanges, invalid_exchange_text(exchanges[j])))
        } else {
            Ok(
                exchanges.map_values(
                    |x: Seq<char>| spec_exchange_cbag_market(u.exchanges[x], u.client_id, market_data_id),
                ),
            )
        }
    }
}

/// A cbag market without the simulation prefix `SIM_`.
pub open spec fn without_sim(market: Seq<char>) -> Seq<char> {
    if has_prefix(market, "SIM_"@) {
        market.skip(4)
    } else {
        market
    }
}

/// The market name that the cost calculator takes for a cbag market.
pub open spec fn cost_market(market: Seq<char>) -> Seq<char> {
    cbag_market_base(unicode_lowercase(without_sim(market)), unicode_uppercase(without_sim(market)))
}

/// The upstream path of the cost calculator for a pair, the funding quantities
/// and the cbag markets.
pub open spec fn cost_endpoint(
    pair: Seq<char>,
    quantities: Seq<Seq<char>>,
    markets: Seq<Seq<char>>,
) -> Seq<char> {
    "/ws/cost-calculator/"@ + pair + "?side=both&funding_quantity="@ + joined(quantities, ","@)
        + "&interval_ms=1000&markets="@ + joined(
        markets.map_values(|m: Seq<char>| cost_market(m)),
        ","@,
    )
}

/// What handling a cost calculator subscription message did: a refused message
/// is answered with one error and leaves the subscriptions alone; an accepted one
/// adds the client, under its user name, to the direct subscription of the cost
/// calculator endpoint.
pub open spec fn cost_handled(
    s0: SubscriptionsView,
    client: ClientAddr,
    market_data_type: MarketDataType,
    pair: Seq<char>,
    quantities: Seq<Seq<char>>,
    route: Option<WebSocketLimitRouteView>,
    username: Seq<char>,
    checks: Result<Seq<Seq<char>>, Seq<char>>,
    s1: SubscriptionsView,
    messages: Seq<Seq<char>>,
    upstream: Option<SubscriptionView>,
) -> bool {
    match checks {
        Err(message) => messages == seq![message] && upstream is None && s1 == s0,
        Ok(markets) => added_at_some_time(
            s0,
            client,
            SubscriptionView::Direct(
                DirectView { market_data_type, endpoint: cost_endpoint(pair, quantities, markets) },
            ),
            route,
            username,
            s1,
            Seq::empty(),
            messages,
            upstream,
        ),
    }
}

/// The market name that the cost calculator takes for a cbag market: without
/// the prefix `SIM_`, `gdax` as `COINBASE`, `huobipro` as `HUOBI`, any other in
/// upper case.
pub fn cost_market_of(market: &str) -> (r: String)
    ensures
        r@ == cost_market(market@),
{
    let trimmed = if starts_with(market, "SIM_") {
        proof {
            reveal_strlit("SIM_");
        }
        suffix_from(market, 4)
    } else {
        market.to_string()
    };
    let lower = to_lowercase(trimmed.as_str());
    let upper = to_uppercase(trimmed.as_str());
    cbag_market_from_cases(lower.as_str(), upper.as_str())
}

/// The upstream path of the cost calculator (see `cost_endpoint`).
pub fn cost_endpoint_of(pair: &str, quantities: &Vec<String>, markets: &Vec<String>) -> (r: String)
    ensures
        r@ == cost_endpoint(pair@, views_of(quantities@), views_of(markets@)),
{
    let mut names: Vec<String> = Vec::new();
    let mut i: usize = 0;
    while i < markets.len()
        invariant
            i <= markets@.len(),
            views_of(names@) == views_of(markets@).take(i as int).map_values(
                |m: Seq<char>| cost_market(m),
            ),
        decreases markets.len() - i,
    {
        let ghost prev = views_of(names@);
        let n = cost_market_of(markets[i].as_str());
        names.push(n);
        assert(views_of(markets@)[i as int] == markets@[i as int]@);
        assert(views_of(names@) =~= prev.push(n@));
        assert(views_of(names@) =~= views_of(markets@).take(i + 1).map_values(
            |m: Seq<char>| cost_market(m),
        ));
        i = i + 1;
    }
    assert(views_of(markets@).take(markets@.len() as int) =~= views_of(markets@));
    let mut s = String::from_str("/ws/cost-calculator/");
    s.append(pair);
    s.append("?side=both&funding_quantity=");
    s.append(join_strings(quantities, ",").as_str());
    s.append("&interval_ms=1000&markets=");
    s.append(join_strings(&names, ",").as_str());
    s
}

/// Only one index of a list is the first one whose exchange is missing.
proof fn lemma_first_missing_unique(
    exchanges: Map<Seq<char>, crate::user::ExchangeView>,
    list: Seq<Seq<char>>,
    i: int,
    j: int,
)
    requires
        first_missing(exchanges, list, i),
        first_missing(exchanges, list, j),
    ensures
        i == j,
{
    if i < j {
        assert(exchanges.contains_key(list[i]));
    } else if j < i {
        assert(exchanges.contains_key(list[j]));
    }
}

/// Handles a cost calculator subscription message of an authenticated client,
/// already parsed into its currency pair, exchanges and funding quantities (each
/// as its decimal text). The state must be ready, the pair known, at least one
/// exchange named, and each exchange one the user has access to; the client is
/// then added to the direct subscription of the cost calculator on the markets of
/// the exchanges, under the user's name and the route's limit.
pub fn handle_subscription(
    client_address: &ClientAddr,
    connection_state: &mut ConnectionStateStruct,
    currency_pair: String,
    exchanges: Vec<String>,
    quantities: Vec<String>,
    market_data_type: MarketDataType,
    username: &str,
    market_data_id: Option<String>,
    websocketlimit_route: Option<&WebSocketLimitRoute>,
) -> (r: SubscriptionOutcome)
    requires
        old(connection_state).wf(),
        old(connection_state).subs_view().counts.contains_key(*client_address) ==> old(connection_state).subs_view().counts[*client_address] < u32::MAX,
        old(connection_state).subs_view().ip_counts.contains_key(client_address.ip) ==> old(connection_state).subs_view().ip_counts[client_address.ip] < u32::MAX,
    ensures
        final(connection_state).wf(),
        final(connection_state).same_but_subscriptions(old(connection_state)),
        cost_handled(
            old(connection_state).subs_view(),
            *client_address,
            market_data_type,
            currency_pair@,
            views_of(quantities@),
            route_view(websocketlimit_route),
            username@,
            cost_checks(
                old(connection_state),
                currency_pair@,
                views_of(exchanges@),
                username@,
                opt_view(market_data_id),
            ),
            final(connection_state).subs_view(),
            views_of(r.messages@),
            sub_view(r.upstream),
        ),
{
    let mut messages: Vec<String> = Vec::new();
    if !connection_state.is_ready() {
        messages.push(MerxErrorResponse::new(ErrorCode::ServerInitializing).to_json_str());
        assert(views_of(messages@) =~= seq![default_message(ErrorCode::ServerInitializing)]);
        return SubscriptionOutcome { messages, upstream: None };
    }
    match connection_state.is_pair_valid(currency_pair.as_str()) {
        Ok(_) => {},
        Err(e) => {
            messages.push(e.to_json_str());
            assert(views_of(messages@) =~= seq![default_message(ErrorCode::InvalidCurrencyPair)]);
            return SubscriptionOutcome { messages, upstream: None };
        },
    }
    if exchanges.len() == 0 {
        messages.push(
            MerxErrorResponse::new_and_override_error_text(
                ErrorCode::InvalidExchanges,
                "No Exchanges Found. At least one exchange must be provided",
            ).to_json_str(),
        );
        assert(views_of(messages@) =~= seq![error_message(ErrorCode::InvalidExchanges, no_exchanges_text())]);
        return SubscriptionOutcome { messages, upstream: None };
    }
    let cbag_markets = match connection_state.validate_exchanges_vector(
        username,
        &exchanges,
        market_data_id,
    ) {
        Ok(markets) => markets,
        Err(e) => {
            messages.push(e.to_json_str());
            proof {
                let users = old(connection_state).users@.users;
                if users.contains_key(username@) {
                    let u = users[username@];
                    let list = views_of(exchanges@);
                    let k = choose|j: int|
                        first_missing(u.exchanges, list, j) && e.error_text@ == invalid_exchange_text(
                            #[trigger] list[j],
                        );
                    let c = choose|j: int| first_missing(u.exchanges, list, j);
                    lemma_first_missing_unique(u.exchanges, list, k, c);
                }
            }
            assert(views_of(messages@) =~= seq![views_of(messages@)[0]]);
            return SubscriptionOutcome { messages, upstream: None };
        },
    };
    proof {
        let users = old(connection_state).users@.users;
        let u = users[username@];
        let list = views_of(exchanges@);
        if exists|j: int| first_missing(u.exchanges, list, j) {
            let c = choose|j: int| first_missing(u.exchanges, list, j);
            assert(u.exchanges.contains_key(list[c]));
        }
    }
    let endpoint = cost_endpoint_of(currency_pair.as_str(), &quantities, &cbag_markets);
    let subscription = Subscription::Direct(DirectStruct::new(market_data_type, endpoint));
    assert(views_of(messages@) =~= Seq::<Seq<char>>::empty());
    subscribe_client(
        client_address,
        connection_state,
        subscription,
        websocketlimit_route,
        username.to_string(),
        messages,
    )
}

} // verus!
