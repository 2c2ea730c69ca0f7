//! The life of a subscription made to cbag: connecting, reconnecting after
//! failures, giving up, and closing once no client listens.
//!
//! The caller connects, reads and sleeps; these functions decide what comes next.
use vstd::prelude::*;
use crate::state::ConnectionStateStruct;
use crate::subscriptions::Subscription;
use crate::text::str_from_utf8;

verus! {

/// Consecutive failed connections after which a subscription is given up.
pub open spec fn max_consecutive_errors() -> u32 {
    5
}

/// How long to wait after a failed connection before trying again, in milliseconds.
pub open spec fn reconnect_pause_ms() -> u64 {
    500
}

/// How often the listeners of a subscription are looked up again, in milliseconds.
pub open spec fn listeners_refresh_ms() -> u64 {
    2000
}

/// What happened to the connection of a subscription.
pub enum UpstreamEvent {
    /// The task starts, or a pause is over.
    Begin,
    /// A connection attempt took too long.
    ConnectTimedOut,
    /// A connection attempt failed, with the HTTP status of cbag's answer if it
    /// answered.
    ConnectFailed { http_status: Option<u16> },
    /// The connection is open.
    Connected,
    /// The stream ended or stayed silent too long.
    StreamEnded,
}

/// What to do next.
pub enum UpstreamAction {
    /// Try to connect.
    Connect,
    /// Wait this many milliseconds, then report `Begin`.
    Pause(u64),
    /// Read messages until the stream ends.
    Read,
    /// Give the subscription up: close it in the state and tell its listeners.
    CloseFailed,
}

/// The state of a subscription's task: failed connections in a row, and
/// whether cbag refused the subscription as a bad request.
pub struct UpstreamTask {
    pub consecutive_errors: u32,
    pub bad_request: bool,
}

/// The plain value of the task's state.
pub struct UpstreamTaskView {
    pub consecutive_errors: int,
    pub bad_request: bool,
}

impl View for UpstreamTask {
    type V = UpstreamTaskView;

    open spec fn view(&self) -> UpstreamTaskView {
        UpstreamTaskView { consecutive_errors: self.consecutive_errors as int, bad_request: self.bad_request }
    }
}

/// Before each connection: give up after a bad request or too many failures,
/// else connect.
pub open spec fn top_action(s: UpstreamTaskView) -> UpstreamAction {
    if s.bad_request || s.consecutive_errors >= max_consecutive_errors() {
        UpstreamAction::CloseFailed
    } else {
        UpstreamAction::Connect
    }
}

/// One step of a subscription's task: the next state and action for an event.
pub open spec fn spec_upstream_step(s: UpstreamTaskView, e: UpstreamEvent) -> (UpstreamTaskView, UpstreamAction) {
    match e {
        UpstreamEvent::Begin => (s, top_action(s)),
        UpstreamEvent::StreamEnded => (s, top_action(s)),
        UpstreamEvent::ConnectTimedOut => {
            let s2 = UpstreamTaskView { consecutive_errors: s.consecutive_errors + 1, ..s };
            (s2, top_action(s2))
        },
        UpstreamEvent::ConnectFailed { http_status } => if http_status == Some(400u16) {
            let s2 = UpstreamTaskView { bad_request: true, ..s };
            (s2, top_action(s2))
        } else {
            (
                UpstreamTaskView { consecutive_errors: s.consecutive_errors + 1, ..s },
                UpstreamAction::Pause(reconnect_pause_ms()),
            )
        },
        UpstreamEvent::Connected => (
            UpstreamTaskView { consecutive_errors: 0, ..s },
            UpstreamAction::Read,
        ),
    }
}

impl UpstreamTask {
    /// A task that has not failed yet.
    pub fn new() -> (r: Self)
        ensures
            r@ == (UpstreamTaskView { consecutive_errors: 0, bad_request: false }),
    {
        UpstreamTask { consecutive_errors: 0, bad_request: false }
    }

    /// Takes an event and says what to do next: a timed out connection counts as
    /// a failure; a failed one too, and is retried after a pause, unless cbag
    /// answered 400, which gives the subscription up; an open connection clears the
    /// count; a subscription is given up after five failures in a row.
    pub fn step(&mut self, event: UpstreamEvent) -> (r: UpstreamAction)
        requires
            old(self).consecutive_errors < u32::MAX,
        ensures
            (final(self)@, r) == spec_upstream_step(old(self)@, event),
    {
        match event {
            UpstreamEvent::Begin => {},
            UpstreamEvent::StreamEnded => {},
            UpstreamEvent::ConnectTimedOut => {
                self.consecutive_errors = self.consecutive_errors + 1;
            },
            UpstreamEvent::ConnectFailed { http_status } => {
                let bad = match http_status {
                    Some(status) => status == 400,
                    None => false,
                };
                if bad {
                    self.bad_request = true;
                } else {
                    self.consecutive_errors = self.consecutive_errors + 1;
                    return UpstreamAction::Pause(500);
                }
            },
            UpstreamEvent::Connected => {
                self.consecutive_errors = 0;
                return UpstreamAction::Read;
            },
        }
        if self.bad_request || self.consecutive_errors >= 5 {
            UpstreamAction::CloseFailed
        } else {
            UpstreamAction::Connect
        }
    }
}

/// Whether the listeners of a subscription are due to be looked up again.
pub fn listeners_refresh_due(since_last_check_ms: u64) -> (r: bool)
    ensures
        r == (since_last_check_ms > listeners_refresh_ms()),
{
    since_last_check_ms > 2000
}

/// After a message was sent to the listeners last looked up: when there were
/// none, the subscription is removed unless a client has joined it meanwhile.
/// Returns whether the subscription's task is to end.
pub fn after_message(
    connection_state: &mut ConnectionStateStruct,
    subscription: &Subscription,
    number_of_active_listeners: usize,
) -> (r: bool)
    requires
        old(connection_state).wf(),
    ensures
        final(connection_state).wf(),
        final(connection_state).same_but_subscriptions(old(connection_state)),
        number_of_active_listeners > 0 ==> !r && *final(connection_state) == *old(connection_state),
        number_of_active_listeners == 0 ==> ({
            let s0 = old(connection_state).subs_view();
            let gone = !s0.subs.contains_key(subscription@) || s0.subs[subscription@].is_empty();
            &&& r == gone
            &&& gone ==> final(connection_state).subs_view() == (crate::state::SubscriptionsView {
                subs: s0.subs.remove(subscription@),
                ..s0
            })
            &&& !gone ==> final(connection_state).subs_view() == s0
        }),
{
    if number_of_active_listeners > 0 {
        return false;
    }
    connection_state.remove_subscription_if_unused(subscription)
}

/// The body of cbag's answer to a refused connection, as text: an error when
/// there is no body or it is not UTF-8.
pub fn parse_tung_response_body_to_str(body: &Option<Vec<u8>>) -> (r: Result<String, String>)
    ensures
        match body {
            Some(b) => if vstd::utf8::valid_utf8(b@) {
                r matches Ok(s) && s@ == vstd::utf8::decode_utf8(b@)
            } else {
                r matches Err(e) && e@ == "Unable to parse body"@
            },
            None => r matches Err(e) && e@ == "Empty body"@,
        },
{
    match body {
        Some(b) => match str_from_utf8(b.as_slice()) {
            Some(s) => Ok(s),
            None => Err(String::from_str("Unable to parse body")),
        },
        None => Err(String::from_str("Empty body")),
    }
}

/// The task's state after a run of events, from `s`.
pub open spec fn run_upstream(s: UpstreamTaskView, events: Seq<UpstreamEvent>) -> UpstreamTaskView
    decreases events.len(),
{
    if events.len() == 0 {
        s
    } else {
        spec_upstream_step(run_upstream(s, events.drop_last()), events.last()).0
    }
}

/// A connection attempt that failed without cbag refusing the subscription.
pub open spec fn is_plain_failure(e: UpstreamEvent) -> bool {
    e is ConnectTimedOut || (e matches UpstreamEvent::ConnectFailed { http_status } && http_status
        != Some(400u16)) || e is Begin
}

/// Law: failed connections are counted, one by one, until a connection opens:
/// after a run of failures (pauses between them included) the count has grown by
/// the number of failures and the subscription is still not refused.
pub proof fn lemma_failures_are_counted(s: UpstreamTaskView, events: Seq<UpstreamEvent>)
    requires
        forall|i: int| 0 <= i < events.len() ==> is_plain_failure(#[trigger] events[i]),
    ensures
        run_upstream(s, events).consecutive_errors == s.consecutive_errors + events.filter(
            |e: UpstreamEvent| !(e is Begin),
        ).len(),
        run_upstream(s, events).bad_request == s.bad_request,
    decreases events.len(),
{
    if events.len() > 0 {
        let pre = events.drop_last();
        assert forall|i: int| 0 <= i < pre.len() implies is_plain_failure(#[trigger] pre[i]) by {
            assert(pre[i] == events[i]);
        }
        lemma_failures_are_counted(s, pre);
        assert(events =~= pre.push(events.last()));
        pre.lemma_filter_push(events.last(), |e: UpstreamEvent| !(e is Begin));
        assert(is_plain_failure(events[events.len() - 1]));
    }
}

/// Law: a subscription is given up as soon as five connections in a row have
/// failed or cbag refused it, and never while neither holds: the action before a
/// connection is `CloseFailed` exactly then.
pub proof fn lemma_gives_up_exactly_when(s: UpstreamTaskView)
    ensures
        (spec_upstream_step(s, UpstreamEvent::Begin).1 is CloseFailed) == (s.bad_request
            || s.consecutive_errors >= 5),
        spec_upstream_step(s, UpstreamEvent::Begin).0 == s,
{
}

/// Law: an open connection clears the count of failures, so a subscription that
/// connects again is never given up for its earlier failures.
pub proof fn lemma_connection_clears_failures(s: UpstreamTaskView)
    requires
        !s.bad_request,
    ensures
        spec_upstream_step(s, UpstreamEvent::Connected).0.consecutive_errors == 0,
        spec_upstream_step(s, UpstreamEvent::Connected).1 is Read,
        spec_upstream_step(spec_upstream_step(s, UpstreamEvent::Connected).0, UpstreamEvent::StreamEnded).1 is Connect,
{
}

} // verus!
