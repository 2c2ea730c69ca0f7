//! The addresses of the requests that merx makes for its clients.
use vstd::prelude::*;
use crate::clock::{now_millis, timestamp_format, utc_timestamp, utc_timestamp_text};
use crate::subscriptions::{SubTraits, Subscription};
use crate::symbols::{join_strings, joined};
use crate::subscriptions::views_of;
use crate::text::{trim_start_all, trim_start_matches};

verus! {

/// What the `url` crate makes of `base` with the query pairs appended, as text
/// (`None` when `base` does not parse as a URL).
pub uninterp spec fn url_with_query_text(base: Seq<char>, pairs: Seq<(Seq<char>, Seq<char>)>) -> Option<Seq<char>>;

/// Calls `url::Url::parse` on `base`, appends the pairs to its query with
/// `query_pairs_mut().extend_pairs` (form-urlencoded) and writes the URL out.
/// The result is named by `url_with_query_text`; nothing more is stated of it.
#[verifier::external_body]
fn url_with_query(base: &str, pairs: &Vec<(String, String)>) -> (r: Option<String>)
    ensures
        r.deep_view() == url_with_query_text(base@, pairs.deep_view()),
{
    match url::Url::parse(base) {
        Ok(mut url) => {
            url.query_pairs_mut().extend_pairs(pairs.iter());
            Some(url.to_string())
        },
        Err(_) => None,
    }
}

/// The address of the trades server's volume endpoint with the request's query.
pub fn volume_url(trades_uri: &str, params: &Vec<(String, String)>) -> (r: Option<String>)
    ensures
        r.deep_view() == url_with_query_text(
            "http://"@ + trades_uri@ + "/volume?"@,
            params.deep_view(),
        ),
{
    let mut base = String::from_str("http://");
    base.append(trades_uri);
    base.append("/volume?");
    url_with_query(base.as_str(), params)
}

/// The address of the chart server's ohlc endpoint with the request's query.
pub fn chart_url(chart_uri: &str, params: &Vec<(String, String)>) -> (r: Option<String>)
    ensures
        r.deep_view() == url_with_query_text(
            "http://"@ + chart_uri@ + "/ohlc"@,
            params.deep_view(),
        ),
{
    let mut base = String::from_str("http://");
    base.append(chart_uri);
    base.append("/ohlc");
    url_with_query(base.as_str(), params)
}

/// The address of cbag's cost calculator for a request to
/// `/api/cost_calculator/...`, with the request's query.
pub fn cost_calculator_url(cbag_uri: &str, path: &str, params: &Vec<(String, String)>) -> (r: Option<String>)
    ensures
        r.deep_view() == url_with_query_text(
            "http://"@ + cbag_uri@ + "/cost-calculator/"@ + trim_start_all(
                path@,
                "/api/cost_calculator/"@,
            ),
            params.deep_view(),
        ),
{
    let mut base = String::from_str("http://");
    base.append(cbag_uri);
    base.append("/cost-calculator/");
    base.append(trim_start_matches(path, "/api/cost_calculator/").as_str());
    url_with_query(base.as_str(), params)
}

/// The address on cbag of a request forwarded as it came.
pub fn forward_url(cbag_uri: &str, request_uri: &str) -> (r: String)
    ensures
        r@ == "http://"@ + cbag_uri@ + request_uri@,
{
    let mut s = String::from_str("http://");
    s.append(cbag_uri);
    s.append(request_uri);
    s
}

/// The websocket address on cbag of a subscription.
pub fn upstream_url(cbag_uri: &str, subscription: &Subscription) -> (r: String)
    ensures
        r@ == "ws://"@ + cbag_uri@ + subscription@.url(),
{
    let mut s = String::from_str("ws://");
    s.append(cbag_uri);
    s.append(subscription.get_url().as_str());
    s
}

/// The address of the chart server's ohlc of a product over a period, by the
/// minute, on the given exchanges.
pub open spec fn spec_chart_fetch_url(
    chart_uri: Seq<char>,
    product: Seq<char>,
    exchanges: Seq<Seq<char>>,
    start_time: Seq<char>,
    end_time: Seq<char>,
) -> Seq<char> {
    "http://"@ + chart_uri + "/ohlc/?interval=m&product="@ + product + "&start_time="@
        + start_time + "&end_time="@ + end_time + "&size=0&exchanges="@ + joined(
        exchanges,
        ","@,
    )
}

/// The address of the chart server's ohlc (see `spec_chart_fetch_url`).
pub fn chart_fetch_url(
    chart_uri: &str,
    product: &str,
    exchanges: &Vec<String>,
    start_time: &str,
    end_time: &str,
) -> (r: String)
    ensures
        r@ == spec_chart_fetch_url(chart_uri@, product@, views_of(exchanges@), start_time@, end_time@),
{
    let mut s = String::from_str("http://");
    s.append(chart_uri);
    s.append("/ohlc/?interval=m&product=");
    s.append(product);
    s.append("&start_time=");
    s.append(start_time);
    s.append("&end_time=");
    s.append(end_time);
    s.append("&size=0&exchanges=");
    s.append(join_strings(exchanges, ",").as_str());
    s
}

/// A day, in milliseconds.
pub open spec fn day_ms() -> int {
    86_400_000
}

/// The address of the chart server's ohlc of a product over the day before time
/// `now`: `None` when a time cannot be written.
pub fn chart_fetch_url_at(chart_uri: &str, product: &str, exchanges: &Vec<String>, now: i64) -> (r: Option<String>)
    ensures
        now - day_ms() < i64::MIN ==> r is None,
        now - day_ms() >= i64::MIN ==> match (utc_timestamp_text((now - day_ms()) as i64, timestamp_format()), utc_timestamp_text(now, timestamp_format())) {
            (Some(start), Some(end)) => r matches Some(u) && u@ == spec_chart_fetch_url(
                chart_uri@,
                product@,
                views_of(exchanges@),
                start,
                end,
            ),
            _ => r is None,
        },
{
    let start_ms = match now.checked_sub(86_400_000) {
        Some(t) => t,
        None => {
            return None;
        },
    };
    let start = match utc_timestamp(start_ms, "%Y-%m-%dT%H:%M:%S%.3fZ") {
        Some(t) => t,
        None => {
            return None;
        },
    };
    let end = match utc_timestamp(now, "%Y-%m-%dT%H:%M:%S%.3fZ") {
        Some(t) => t,
        None => {
            return None;
        },
    };
    Some(chart_fetch_url(chart_uri, product, exchanges, start.as_str(), end.as_str()))
}

/// The address of the chart server's ohlc of a product over the last day.
pub fn fetch_chart_url(chart_uri: &str, product: &str, exchanges: &Vec<String>) -> (r: Option<String>)
    ensures
        r matches Some(u) ==> exists|now: i64|
            #![trigger utc_timestamp_text(now, timestamp_format())]
            now - day_ms() >= i64::MIN && utc_timestamp_text(now, timestamp_format()) is Some && utc_timestamp_text((now - day_ms()) as i64, timestamp_format()) is Some && u@ == spec_chart_fetch_url(
                chart_uri@,
                product@,
                views_of(exchanges@),
                utc_timestamp_text((now - day_ms()) as i64, timestamp_format())->Some_0,
                utc_timestamp_text(now, timestamp_format())->Some_0,
            ),
{
    let now = now_millis();
    let r = chart_fetch_url_at(chart_uri, product, exchanges, now);
    assert(r matches Some(u) ==> utc_timestamp_text(now, timestamp_format()) is Some);
    r
}

} // verus!
