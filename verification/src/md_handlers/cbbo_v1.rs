//! Subscriptions to the consolidated best bid and offer (cbbo).
use vstd::prelude::*;
use crate::client::ClientAddr;
use crate::error::{ErrorCode, MerxErrorResponse};
use crate::md_handlers::helper::cbag_market_to_exchange;
use crate::md_handlers::outcome::{added_at_some_time, default_message, error_message, name_or_empty, sub_view, subscribe_client, SubscriptionOutcome};
use crate::routes_config::{MarketDataType, WebSocketLimitRoute, WebSocketLimitRouteView};
use crate::state::{route_view, ConnectionStateStruct, SubscriptionsView};
use crate::subscriptions::{LegacyCbboStruct, LegacyCbboView, Subscription, SubscriptionView, views_of};
use crate::symbols::{invalid_size_filter_text, same_size, SizeValue};
use crate::text::{opt_view, unicode_lowercase};
use crate::md_handlers::helper::{cbag_market_core, exchange_alias};
use crate::user::market_client_id;

verus! {

/// The checks of a cbbo subscription message against the state: the messages
/// for a refused subscription, or the warnings to send and the client id to
/// subscribe with.
pub open spec fn cbbo_checks(
    state: &ConnectionStateStruct,
    pair: Seq<char>,
    size_filter: Option<SizeValue>,
    size_filter_negative: bool,
    username: Option<Seq<char>>,
    market_data_id: Option<Seq<char>>,
    enforce_subscription_whitelist: bool,
) -> Result<(Seq<Seq<char>>, Seq<char>), Seq<Seq<char>>> {
    let sym = state.symbols@;
    if enforce_subscription_whitelist && !views_of(state.symbols_whitelist@).contains(pair) {
        Err(seq![default_message(ErrorCode::InvalidCurrencyPair)])
    } else if sym.cbbo_sizes.dom().len() == 0 {
        Err(seq![default_message(ErrorCode::ServerInitializing)])
    } else if !sym.cbbo_sizes.contains_key(pair) {
        Err(seq![default_message(ErrorCode::InvalidCurrencyPair)])
    } else {
        match size_filter {
            None => Err(
                seq![error_message(ErrorCode::InvalidSizeFilter, "Could not parse size filter into a decimal"@)],
            ),
            Some(f) => {
                let warnings = if size_filter_negative {
                    seq![error_message(ErrorCode::InvalidSizeFilter, "Size filter must be positive"@)]
                } else {
                    Seq::empty()
                };
                let sizes = sym.cbbo_sizes[pair];
                if !(exists|j: int| 0 <= j < sizes.len() && same_size(&f, &#[trigger] sizes[j])) {
                    Err(
                        warnings.push(
                            error_message(
                                ErrorCode::InvalidSizeFilter,
                                invalid_size_filter_text(f.text@, pair, sizes),
                            ),
                        ),
                    )
                } else {
                    match username {
                        Some(u) => if !state.users@.users.contains_key(u) {
                            Err(warnings.push(default_message(ErrorCode::ServerError)))
                        } else {
                            Ok((warnings, market_client_id(state.users@.users[u].client_id, market_data_id)))
                        },
                        None => Ok((warnings, Seq::empty())),
                    }
                }
            },
        }
    }
}

/// The cbbo subscription of a pair with a size filter for a client id.
pub open spec fn cbbo_subscription(
    market_data_type: MarketDataType,
    pair: Seq<char>,
    size_filter_text: Seq<char>,
    client_id: Seq<char>,
) -> SubscriptionView {
    SubscriptionView::LegacyCbbo(
        LegacyCbboView {
            market_data_type,
            currency_pair: pair,
            size_filter: size_filter_text,
            interval_ms: 500,
            client_id,
        },
    )
}

/// What handling a cbbo subscription message did, given the outcome of its
/// checks: a refused message is answered with the checks' messages and leaves
/// the subscriptions alone; an accepted one adds the client to the cbbo
/// subscription of its client id at some time `now`.
pub open spec fn cbbo_handled(
    s0: SubscriptionsView,
    client: ClientAddr,
    market_data_type: MarketDataType,
    pair: Seq<char>,
    size_filter_text: Seq<char>,
    route: Option<WebSocketLimitRouteView>,
    username: Seq<char>,
    checks: Result<(Seq<Seq<char>>, Seq<char>), Seq<Seq<char>>>,
    s1: SubscriptionsView,
    messages: Seq<Seq<char>>,
    upstream: Option<SubscriptionView>,
) -> bool {
    match checks {
        Err(refused) => messages == refused && upstream is None && s1 == s0,
        Ok((warnings, client_id)) => added_at_some_time(
            s0,
            client,
            cbbo_subscription(market_data_type, pair, size_filter_text, client_id),
            route,
            username,
            s1,
            warnings,
            messages,
            upstream,
        ),
    }
}

/// Handles a cbbo subscription message of a client, already parsed into its
/// currency pair and size filter (`size_filter` is the parsed size, `None` if it
/// could not be parsed; a negative size is reported but not refused). The pair
/// must be whitelisted (for public subscriptions), known, and have the size
/// filter; an authenticated client subscribes under its client id (with the
/// market data id), a public one under none.
pub fn handle_subscription(
    client_address: &ClientAddr,
    connection_state: &mut ConnectionStateStruct,
    currency_pair: String,
    size_filter_text: String,
    size_filter: Option<SizeValue>,
    size_filter_negative: bool,
    market_data_type: MarketDataType,
    username: Option<String>,
    market_data_id: Option<String>,
    enforce_subscription_whitelist: bool,
    websocketlimit_route: Option<&WebSocketLimitRoute>,
) -> (r: SubscriptionOutcome)
    requires
        old(connection_state).wf(),
        old(connection_state).subs_view().counts.contains_key(*client_address) ==> old(connection_state).subs_view().counts[*client_address] < u32::MAX,
        old(connection_state).subs_view().ip_counts.contains_key(client_address.ip) ==> old(connection_state).subs_view().ip_counts[client_address.ip] < u32::MAX,
    ensures
        final(connection_state).wf(),
        final(connection_state).same_but_subscriptions(old(connection_state)),
        cbbo_handled(
            old(connection_state).subs_view(),
            *client_address,
            market_data_type,
            currency_pair@,
            size_filter_text@,
            route_view(websocketlimit_route),
            name_or_empty(opt_view(username)),
            cbbo_checks(
                old(connection_state),
                currency_pair@,
                size_filter,
                size_filter_negative,
                opt_view(username),
                opt_view(market_data_id),
                enforce_subscription_whitelist,
            ),
            final(connection_state).subs_view(),
            views_of(r.messages@),
            sub_view(r.upstream),
        ),
{
    let mut messages: Vec<String> = Vec::new();
    if enforce_subscription_whitelist {
        match connection_state.is_pair_whitelisted(currency_pair.as_str()) {
            Ok(_) => {},
            Err(e) => {
                messages.push(e.to_json_str());
                assert(views_of(messages@) =~= seq![default_message(ErrorCode::InvalidCurrencyPair)]);
                return SubscriptionOutcome { messages, upstream: None };
            },
        }
    }
    match connection_state.is_pair_valid(currency_pair.as_str()) {
        Ok(_) => {},
        Err(e) => {
            messages.push(e.to_json_str());
            assert(views_of(messages@) =~= seq![default_message(e.error_code)]);
            return SubscriptionOutcome { messages, upstream: None };
        },
    }
    let size = match size_filter {
        Some(s) => s,
        None => {
            messages.push(
                MerxErrorResponse::new_and_override_error_text(
                    ErrorCode::InvalidSizeFilter,
                    "Could not parse size filter into a decimal",
                ).to_json_str(),
            );
            assert(views_of(messages@) =~= seq![error_message(ErrorCode::InvalidSizeFilter, "Could not parse size filter into a decimal"@)]);
            return SubscriptionOutcome { messages, upstream: None };
        },
    };
    if size_filter_negative {
        messages.push(
            MerxErrorResponse::new_and_override_error_text(
                ErrorCode::InvalidSizeFilter,
                "Size filter must be positive",
            ).to_json_str(),
        );
    }
    let ghost warnings = views_of(messages@);
    assert(warnings =~= if size_filter_negative {
        seq![error_message(ErrorCode::InvalidSizeFilter, "Size filter must be positive"@)]
    } else {
        Seq::empty()
    });
    match connection_state.is_size_filter_valid(currency_pair.as_str(), &size) {
        Ok(_) => {},
        Err(e) => {
            messages.push(e.to_json_str());
            assert(views_of(messages@) =~= warnings.push(views_of(messages@).last()));
            return SubscriptionOutcome { messages, upstream: None };
        },
    }
    let client_id: String = match &username {
        Some(u) => match connection_state.get_client_id(u.as_str()) {
            Ok(id) => {
                let mut id = id;
                match &market_data_id {
                    Some(m) => {
                        id.append("_");
                        id.append(m.as_str());
                    },
                    None => {},
                }
                id
            },
            Err(_) => {
                messages.push(MerxErrorResponse::new(ErrorCode::ServerError).to_json_str());
                assert(views_of(messages@) =~= warnings.push(default_message(ErrorCode::ServerError)));
                return SubscriptionOutcome { messages, upstream: None };
            },
        },
        None => String::new(),
    };
    let ghost cid = client_id@;
    assert(cbbo_checks(
        old(connection_state),
        currency_pair@,
        size_filter,
        size_filter_negative,
        opt_view(username),
        opt_view(market_data_id),
        enforce_subscription_whitelist,
    ) == Ok::<(Seq<Seq<char>>, Seq<char>), Seq<Seq<char>>>((warnings, cid)));
    assert(connection_state.subs_view() == old(connection_state).subs_view());
    let subscription = Subscription::LegacyCbbo(
        LegacyCbboStruct::new(market_data_type, currency_pair, size_filter_text, 500, client_id),
    );
    let name = match username {
        Some(u) => u,
        None => String::new(),
    };
    subscribe_client(client_address, connection_state, subscription, websocketlimit_route, name, messages)
}

/// The exchange names that clients know for the markets of a cbag update.
pub fn transform_markets(markets: &Vec<String>) -> (r: Vec<String>)
    ensures
        views_of(r@) == views_of(markets@).map_values(
            |m: Seq<char>| exchange_alias(unicode_lowercase(cbag_market_core(m))),
        ),
{
    let mut r: Vec<String> = Vec::new();
    let mut i: usize = 0;
    while i < markets.len()
        invariant
            i <= markets@.len(),
            views_of(r@) == views_of(markets@).take(i as int).map_values(
                |m: Seq<char>| exchange_alias(unicode_lowercase(cbag_market_core(m))),
            ),
        decreases markets.len() - i,
    {
        let ghost prev = views_of(r@);
        let e = cbag_market_to_exchange(markets[i].as_str());
        r.push(e);
        assert(views_of(markets@)[i as int] == markets@[i as int]@);
        assert(views_of(r@) =~= prev.push(e@));
        assert(views_of(r@) =~= views_of(markets@).take(i + 1).map_values(
            |m: Seq<char>| exchange_alias(unicode_lowercase(cbag_market_core(m))),
        ));
        i = i + 1;
    }
    assert(views_of(markets@).take(markets@.len() as int) =~= views_of(markets@));
    r
}

} // verus!
