use merx::error::{ErrorCode, MerxErrorResponse};
use merx::json::error_object;

#[test]
fn error_response_json_has_code_name_and_default_text() {
    let e = MerxErrorResponse::new(ErrorCode::InvalidCurrencyPair);
    assert_eq!(
        e.to_json_str(),
        "{\"type\":\"error\",\"error_code\":100001,\"error\":\"INVALID_CURRENCY_PAIR\",\"error_text\":\"Please check currency pair\"}"
    );
}

#[test]
fn error_response_with_overridden_text() {
    let e = MerxErrorResponse::new_and_override_error_text(ErrorCode::InvalidSizeFilter, "Size filter must be positive");
    assert_eq!(e.error, "INVALID_SIZE_FILTER");
    assert_eq!(e.error_text, "Size filter must be positive");
    assert_eq!(
        e.to_json_str(),
        "{\"type\":\"error\",\"error_code\":100003,\"error\":\"INVALID_SIZE_FILTER\",\"error_text\":\"Size filter must be positive\"}"
    );
}

#[test]
fn error_text_is_escaped_in_json() {
    let e = MerxErrorResponse::new_and_override_error_text(ErrorCode::ServerError, "a \"quoted\" word");
    assert_eq!(
        e.to_json_str(),
        "{\"type\":\"error\",\"error_code\":101007,\"error\":\"SERVER_ERROR\",\"error_text\":\"a \\\"quoted\\\" word\"}"
    );
}

#[test]
fn error_codes_numbers_and_names() {
    assert_eq!(ErrorCode::InvalidCurrencyPair.code(), 100001);
    assert_eq!(ErrorCode::InvalidSample.code(), 100007);
    assert_eq!(ErrorCode::ResponseError.code(), 101001);
    assert_eq!(ErrorCode::ServerError.code(), 101007);
    assert_eq!(ErrorCode::LockedSubscription.code(), 101008);
    assert_eq!(ErrorCode::ReachedWebSocketLimitNumber.code(), 101009);
    assert_eq!(ErrorCode::ServerInitializing.to_string(), "AWAITING_SYMBOL_DATA");
    assert_eq!(ErrorCode::AlreadySubscribed.to_string(), "ALREADY_SUBSCRIBED");
    assert_eq!(ErrorCode::InvalidExchanges.default_error_text(), "Please check exchanges are valid");
    assert_eq!(ErrorCode::ServerError.default_error_text(), "Unexpected Server Error");
}

#[test]
fn error_object_json() {
    assert_eq!(error_object("depth_limit must be between 1-200"), "{\"error\":\"depth_limit must be between 1-200\"}");
    assert_eq!(error_object("a\\b"), "{\"error\":\"a\\\\b\"}");
}
