//! What handling a client's subscription message comes to.
use vstd::prelude::*;
use crate::client::ClientAddr;
use crate::error::{error_json, ErrorCode};
use crate::routes_config::{WebSocketLimitRoute, WebSocketLimitRouteView};
use crate::state::{code_of, route_view, spec_add_client, ConnectionStateStruct, SubscriptionsView};
use crate::subscriptions::{Subscription, SubscriptionView, views_of};

verus! {

/// The messages to send to the client, in order, and the subscription to make
/// upstream, if it is new.
pub struct SubscriptionOutcome {
    pub messages: Vec<String>,
    pub upstream: Option<Subscription>,
}

/// The JSON error message for a code with a text.
pub open spec fn error_message(code: ErrorCode, text: Seq<char>) -> Seq<char> {
    error_json(code.spec_code(), code.spec_name(), text)
}

/// The JSON error message for a code with its default text.
pub open spec fn default_message(code: ErrorCode) -> Seq<char> {
    error_message(code, code.spec_default_error_text())
}

/// The messages and upstream subscription after a subscription was added (or refused).
pub open spec fn added_outcome(
    warnings: Seq<Seq<char>>,
    sub: SubscriptionView,
    added: Result<bool, ErrorCode>,
    messages: Seq<Seq<char>>,
    upstream: Option<SubscriptionView>,
) -> bool {
    match added {
        Ok(new_upstream) => messages == warnings && (upstream == if new_upstream {
            Some(sub)
        } else {
            None
        }),
        Err(code) => messages == warnings.push(default_message(code)) && upstream is None,
    }
}

/// A name, or the empty name.
pub open spec fn name_or_empty(o: Option<Seq<char>>) -> Seq<char> {
    match o {
        Some(u) => u,
        None => Seq::empty(),
    }
}

/// Adding the client to `sub` at time `now` took the state from `s0` to `s1`,
/// and the client is sent the warnings and then the error, if any.
pub open spec fn added_as(
    s0: SubscriptionsView,
    client: ClientAddr,
    sub: SubscriptionView,
    route: Option<WebSocketLimitRouteView>,
    username: Seq<char>,
    now: int,
    s1: SubscriptionsView,
    warnings: Seq<Seq<char>>,
    messages: Seq<Seq<char>>,
    upstream: Option<SubscriptionView>,
) -> bool {
    let added = spec_add_client(s0, client, sub, route, username, now);
    s1 == added.0 && added_outcome(warnings, sub, added.1, messages, upstream)
}

/// `added_as` at some time: the time of an addition is read from the clock.
pub open spec fn added_at_some_time(
    s0: SubscriptionsView,
    client: ClientAddr,
    sub: SubscriptionView,
    route: Option<WebSocketLimitRouteView>,
    username: Seq<char>,
    s1: SubscriptionsView,
    warnings: Seq<Seq<char>>,
    messages: Seq<Seq<char>>,
    upstream: Option<SubscriptionView>,
) -> bool {
    exists|now: int|
        #[trigger] added_as(s0, client, sub, route, username, now, s1, warnings, messages, upstream)
}

/// The plain value of an optional subscription.
pub open spec fn sub_view(o: Option<Subscription>) -> Option<SubscriptionView> {
    match o {
        Some(s) => Some(s@),
        None => None,
    }
}

/// Adds the client to `subscription` and reports it: the client is sent the
/// `warnings` already gathered and then the error of a refused addition, if any;
/// a subscription that is new is to be made upstream.
pub fn subscribe_client(
    client_address: &ClientAddr,
    connection_state: &mut ConnectionStateStruct,
    subscription: Subscription,
    websocketlimit_route: Option<&WebSocketLimitRoute>,
    username: String,
    warnings: Vec<String>,
) -> (r: SubscriptionOutcome)
    requires
        old(connection_state).wf(),
        old(connection_state).subs_view().counts.contains_key(*client_address) ==> old(connection_state).subs_view().counts[*client_address] < u32::MAX,
        old(connection_state).subs_view().ip_counts.contains_key(client_address.ip) ==> old(connection_state).subs_view().ip_counts[client_address.ip] < u32::MAX,
    ensures
        final(connection_state).wf(),
        final(connection_state).same_but_subscriptions(old(connection_state)),
        added_at_some_time(
            old(connection_state).subs_view(),
            *client_address,
            subscription@,
            route_view(websocketlimit_route),
            username@,
            final(connection_state).subs_view(),
            views_of(warnings@),
            views_of(r.messages@),
            sub_view(r.upstream),
        ),
{
    let mut messages = warnings;
    let upstream = subscription.duplicate();
    let ghost s0 = connection_state.subs_view();
    let ghost sub = subscription@;
    let ghost uname = username@;
    let added = connection_state.add_client_to_subscription(client_address, subscription, websocketlimit_route, username);
    let ghost now = choose|now: int|
        (connection_state.subs_view(), code_of(added)) == #[trigger] spec_add_client(
            s0,
            *client_address,
            sub,
            route_view(websocketlimit_route),
            uname,
            now,
        );
    let out = match added {
        Ok(new_upstream) => {
            if new_upstream {
                SubscriptionOutcome { messages, upstream: Some(upstream) }
            } else {
                SubscriptionOutcome { messages, upstream: None }
            }
        },
        Err(e) => {
            messages.push(e.to_json_str());
            assert(views_of(messages@) =~= views_of(warnings@).push(default_message(e.error_code)));
            SubscriptionOutcome { messages, upstream: None }
        },
    };
    assert(added_as(
        s0,
        *client_address,
        sub,
        route_view(websocketlimit_route),
        uname,
        now,
        connection_state.subs_view(),
        views_of(warnings@),
        views_of(out.messages@),
        sub_view(out.upstream),
    ));
    out
}

} // verus!
