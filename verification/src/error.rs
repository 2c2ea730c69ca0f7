//! Error codes and the error response sent to clients.
use vstd::prelude::*;
use crate::json::{json_string_literal, needs_no_escape, quoted, to_json_string_literal};
use crate::text::{decimal, u32_to_decimal};

verus! {

/// The error codes that merx reports to its clients.
#[derive(Debug, Clone, Copy, PartialEq, Eq, Hash, Structural)]
pub enum ErrorCode {
    // subscription errors
    InvalidCurrencyPair,
    InvalidSubscriptionMessage,
    InvalidSizeFilter,
    InvalidDepthLimit,
    InvalidExchanges,
    InvalidRequest,
    InvalidSample,
    // system errors
    ResponseError,
    InvalidToken,
    AuthServiceUnavailable,
    AuthInternalError,
    ServerInitializing,
    AlreadySubscribed,
    ServerError,
    LockedSubscription,
    ReachedWebSocketLimitNumber,
}

impl ErrorCode {
    /// The numeric code of an error.
    pub open spec fn spec_code(self) -> u32 {
        match self {
            ErrorCode::InvalidCurrencyPair => 100001,
            ErrorCode::InvalidSubscriptionMessage => 100002,
            ErrorCode::InvalidSizeFilter => 100003,
            ErrorCode::InvalidDepthLimit => 100004,
            ErrorCode::InvalidExchanges => 100005,
            ErrorCode::InvalidRequest => 100006,
            ErrorCode::InvalidSample => 100007,
            ErrorCode::ResponseError => 101001,
            ErrorCode::InvalidToken => 101002,
            ErrorCode::AuthServiceUnavailable => 101003,
            ErrorCode::AuthInternalError => 101004,
            ErrorCode::ServerInitializing => 101005,
            ErrorCode::AlreadySubscribed => 101006,
            ErrorCode::ServerError => 101007,
            ErrorCode::LockedSubscription => 101008,
            ErrorCode::ReachedWebSocketLimitNumber => 101009,
        }
    }

    /// The upper-case name of an error.
    pub open spec fn spec_name(self) -> Seq<char> {
        match self {
            ErrorCode::InvalidCurrencyPair => "INVALID_CURRENCY_PAIR"@,
            ErrorCode::InvalidSubscriptionMessage => "INVALID_SUBSCRIPTION_MESSAGE"@,
            ErrorCode::InvalidSizeFilter => "INVALID_SIZE_FILTER"@,
            ErrorCode::InvalidDepthLimit => "INVALID_DEPTH_LIMIT"@,
            ErrorCode::InvalidExchanges => "INVALID_EXCHANGES"@,
            ErrorCode::InvalidRequest => "INVALID_REQUEST"@,
            ErrorCode::InvalidSample => "INVALID_SAMPLE"@,
            ErrorCode::ResponseError => "RESPONSE_ERROR"@,
            ErrorCode::InvalidToken => "INVALID_TOKEN"@,
            ErrorCode::AuthServiceUnavailable => "AUTH_SERVICE_UNAVAILABLE"@,
            ErrorCode::AuthInternalError => "AUTH_INTERNAL_ERROR"@,
            ErrorCode::ServerInitializing => "AWAITING_SYMBOL_DATA"@,
            ErrorCode::AlreadySubscribed => "ALREADY_SUBSCRIBED"@,
            ErrorCode::ServerError => "SERVER_ERROR"@,
            ErrorCode::LockedSubscription => "LOCKED_SUBSCRIPTION"@,
            ErrorCode::ReachedWebSocketLimitNumber => "REACHED_WEBSOCKET_LIMIT_NUMBER"@,
        }
    }

    /// The text sent with an error unless the sender overrides it.
    pub open spec fn spec_default_error_text(self) -> Seq<char> {
        match self {
            ErrorCode::InvalidCurrencyPair => "Please check currency pair"@,
            ErrorCode::InvalidSubscriptionMessage =>
                "Unable to parse subscription message. Please check all parameter types are correct"@,
            ErrorCode::InvalidSizeFilter => "Please check size filter is valid"@,
            ErrorCode::InvalidDepthLimit => "Please check depth limit is valid"@,
            ErrorCode::InvalidExchanges => "Please check exchanges are valid"@,
            ErrorCode::InvalidRequest => "Unable to get data. Please check request parameters"@,
            ErrorCode::InvalidSample => "Please check sample parameter is valid"@,
            ErrorCode::ResponseError => "Unable to generate error response"@,
            ErrorCode::InvalidToken => "Invalid Token. Please try again with a valid token"@,
            ErrorCode::AuthServiceUnavailable =>
                "Authentication service unavailable. Please try again later"@,
            ErrorCode::AuthInternalError =>
                "Authentication service internal error. Please try again later"@,
            ErrorCode::ServerInitializing =>
                "Server is initializing and awaiting metadata. Please try again later"@,
            ErrorCode::AlreadySubscribed => "Already subscribed to this subscription"@,
            ErrorCode::ServerError => "Unexpected Server Error"@,
            ErrorCode::LockedSubscription =>
                "Subscription is temporarily locked after repeated upstream failures. Please try again later"@,
            ErrorCode::ReachedWebSocketLimitNumber =>
                "Maximum number of websocket connections reached"@,
        }
    }

    /// The numeric code of an error.
    pub fn code(&self) -> (r: u32)
        ensures
            r == self.spec_code(),
    {
        match self {
            ErrorCode::InvalidCurrencyPair => 100001,
            ErrorCode::InvalidSubscriptionMessage => 100002,
            ErrorCode::InvalidSizeFilter => 100003,
            ErrorCode::InvalidDepthLimit => 100004,
            ErrorCode::InvalidExchanges => 100005,
            ErrorCode::InvalidRequest => 100006,
            ErrorCode::InvalidSample => 100007,
            ErrorCode::ResponseError => 101001,
            ErrorCode::InvalidToken => 101002,
            ErrorCode::AuthServiceUnavailable => 101003,
            ErrorCode::AuthInternalError => 101004,
            ErrorCode::ServerInitializing => 101005,
            ErrorCode::AlreadySubscribed => 101006,
            ErrorCode::ServerError => 101007,
            ErrorCode::LockedSubscription => 101008,
            ErrorCode::ReachedWebSocketLimitNumber => 101009,
        }
    }

    /// The upper-case name of an error, as it is displayed.
    pub fn to_string(&self) -> (r: String)
        ensures
            r@ == self.spec_name(),
    {
        let s: &str = match self {
            ErrorCode::InvalidCurrencyPair => "INVALID_CURRENCY_PAIR",
            ErrorCode::InvalidSubscriptionMessage => "INVALID_SUBSCRIPTION_MESSAGE",
            ErrorCode::InvalidSizeFilter => "INVALID_SIZE_FILTER",
            ErrorCode::InvalidDepthLimit => "INVALID_DEPTH_LIMIT",
            ErrorCode::InvalidExchanges => "INVALID_EXCHANGES",
            ErrorCode::InvalidRequest => "INVALID_REQUEST",
            ErrorCode::InvalidSample => "INVALID_SAMPLE",
            ErrorCode::ResponseError => "RESPONSE_ERROR",
            ErrorCode::InvalidToken => "INVALID_TOKEN",
            ErrorCode::AuthServiceUnavailable => "AUTH_SERVICE_UNAVAILABLE",
            ErrorCode::AuthInternalError => "AUTH_INTERNAL_ERROR",
            ErrorCode::ServerInitializing => "AWAITING_SYMBOL_DATA",
            ErrorCode::AlreadySubscribed => "ALREADY_SUBSCRIBED",
            ErrorCode::ServerError => "SERVER_ERROR",
            ErrorCode::LockedSubscription => "LOCKED_SUBSCRIPTION",
            ErrorCode::ReachedWebSocketLimitNumber => "REACHED_WEBSOCKET_LIMIT_NUMBER",
        };
        s.to_string()
    }

    /// The text sent with an error unless the sender overrides it.
    pub fn default_error_text(&self) -> (r: &'static str)
        ensures
            r@ == self.spec_default_error_text(),
    {
        match self {
            ErrorCode::InvalidCurrencyPair => "Please check currency pair",
            ErrorCode::InvalidSubscriptionMessage => {
                "Unable to parse subscription message. Please check all parameter types are correct"
            },
            ErrorCode::InvalidSizeFilter => "Please check size filter is valid",
            ErrorCode::InvalidDepthLimit => "Please check depth limit is valid",
            ErrorCode::InvalidExchanges => "Please check exchanges are valid",
            ErrorCode::InvalidRequest => "Unable to get data. Please check request parameters",
            ErrorCode::InvalidSample => "Please check sample parameter is valid",
            ErrorCode::ResponseError => "Unable to generate error response",
            ErrorCode::InvalidToken => "Invalid Token. Please try again with a valid token",
            ErrorCode::AuthServiceUnavailable => {
                "Authentication service unavailable. Please try again later"
            },
            ErrorCode::AuthInternalError => {
                "Authentication service internal error. Please try again later"
            },
            ErrorCode::ServerInitializing => {
                "Server is initializing and awaiting metadata. Please try again later"
            },
            ErrorCode::AlreadySubscribed => "Already subscribed to this subscription",
            ErrorCode::ServerError => "Unexpected Server Error",
            ErrorCode::LockedSubscription => {
                "Subscription is temporarily locked after repeated upstream failures. Please try again later"
            },
            ErrorCode::ReachedWebSocketLimitNumber => {
                "Maximum number of websocket connections reached"
            },
        }
    }
}

/// An error message sent to a client: its type is always "error".
#[derive(Debug, Clone)]
pub struct MerxErrorResponse {
    pub error_code: ErrorCode,
    pub error: String,
    pub error_text: String,
}

/// The JSON sent when an error response cannot be serialised.
pub open spec fn fallback_error_json() -> Seq<char> {
    "{\"error\":\"RESPONSE_ERROR\",\"error_code\":101001,\"error_text\":\"Unable to generate error response\",\"type\":\"error\"}"@
}

/// The JSON object of an error response with the given code, name and text.
pub open spec fn error_json(code: u32, error: Seq<char>, text: Seq<char>) -> Seq<char> {
    match (json_string_literal(error), json_string_literal(text)) {
        (Some(e), Some(t)) => "{\"type\":\"error\",\"error_code\":"@ + decimal(code as nat)
            + ",\"error\":"@ + e + ",\"error_text\":"@ + t + "}"@,
        _ => fallback_error_json(),
    }
}

impl MerxErrorResponse {
    /// An error response for `error_code` with its default text.
    pub fn new(error_code: ErrorCode) -> (r: Self)
        ensures
            r.error_code == error_code,
            r.error@ == error_code.spec_name(),
            r.error_text@ == error_code.spec_default_error_text(),
    {
        MerxErrorResponse {
            error_code,
            error: error_code.to_string(),
            error_text: error_code.default_error_text().to_string(),
        }
    }

    /// An error response for `error_code` with the text `error_text`.
    pub fn new_and_override_error_text(error_code: ErrorCode, error_text: &str) -> (r: Self)
        ensures
            r.error_code == error_code,
            r.error@ == error_code.spec_name(),
            r.error_text@ == error_text@,
    {
        MerxErrorResponse {
            error_code,
            error: error_code.to_string(),
            error_text: error_text.to_string(),
        }
    }

    /// The JSON object sent to the client: its fields are, in order, `type`,
    /// `error_code`, `error` and `error_text`.
    pub fn to_json_str(&self) -> (r: String)
        ensures
            r@ == error_json(self.error_code.spec_code(), self.error@, self.error_text@),
            json_string_literal(self.error@) is Some,
            json_string_literal(self.error_text@) is Some,
            r@ != fallback_error_json(),
            needs_no_escape(self.error@) && needs_no_escape(self.error_text@) ==> r@
                == "{\"type\":\"error\",\"error_code\":"@ + decimal(self.error_code.spec_code() as nat)
                + ",\"error\":"@ + quoted(self.error@) + ",\"error_text\":"@ + quoted(self.error_text@)
                + "}"@,
    {
        let e = to_json_string_literal(self.error.as_str());
        let t = to_json_string_literal(self.error_text.as_str());
        match (e, t) {
            (Some(e), Some(t)) => {
                let mut s = String::from_str("{\"type\":\"error\",\"error_code\":");
                s.append(u32_to_decimal(self.error_code.code()).as_str());
                s.append(",\"error\":");
                s.append(e.as_str());
                s.append(",\"error_text\":");
                s.append(t.as_str());
                s.append("}");
                proof {
                    reveal_strlit("{\"type\":\"error\",\"error_code\":");
                    reveal_strlit("{\"error\":\"RESPONSE_ERROR\",\"error_code\":101001,\"error_text\":\"Unable to generate error response\",\"type\":\"error\"}");
                    assert(s@[2] == 't');
                    assert(fallback_error_json()[2] == 'e');
                }
                s
            },
            _ => String::from_str(
                "{\"error\":\"RESPONSE_ERROR\",\"error_code\":101001,\"error_text\":\"Unable to generate error response\",\"type\":\"error\"}",
            ),
        }
    }
}

} // verus!
