//! Authentication of client tokens against the auth server, and the symbols
//! pulled from it.
//!
//! The requests themselves are made by the caller; these functions decide what
//! to ask and what a reply means for the connection state.
use vstd::prelude::*;
use crate::state::ConnectionStateStruct;
use crate::symbols::{parse_currency_pairs_response, sizes_of, PairSizes};
use crate::text::{has_prefix, opt_view, starts_with, trim_start_all, trim_start_matches};
use crate::user::{spec_add_or_update_user, within_window, UserResponse, UserView, UsersView};
use crate::clock::now_millis;

verus! {

/// The token of a request: from its `Authorization` header (`Some(None)` for a
/// header that is not visible ASCII), else from its `token` query parameter; a
/// leading `Token ` (repeated or not) is dropped.
pub open spec fn spec_token_of_request(
    authorization: Option<Option<Seq<char>>>,
    query_token: Option<Seq<char>>,
) -> Result<Seq<char>, Seq<char>> {
    let raw = match authorization {
        Some(Some(t)) => Ok(t),
        Some(None) => Err("Unable to parse token"@),
        None => match query_token {
            Some(t) => Ok(t),
            None => Err("No token provided"@),
        },
    };
    match raw {
        Ok(t) => Ok(if has_prefix(t, "Token "@) { trim_start_all(t, "Token "@) } else { t }),
        Err(e) => Err(e),
    }
}

/// The token of a request (see `spec_token_of_request`).
pub fn token_of_request(authorization: Option<Option<String>>, query_token: Option<String>) -> (r: Result<
    String,
    String,
>)
    ensures
        match (r, spec_token_of_request(
            match authorization {
                Some(Some(t)) => Some(Some(t@)),
                Some(None) => Some(None),
                None => None,
            },
            match query_token {
                Some(t) => Some(t@),
                None => None,
            },
        )) {
            (Ok(a), Ok(b)) => a@ == b,
            (Err(a), Err(b)) => a@ == b,
            _ => false,
        },
{
    let raw = match authorization {
        Some(Some(t)) => t,
        Some(None) => {
            return Err(String::from_str("Unable to parse token"));
        },
        None => match query_token {
            Some(t) => t,
            None => {
                return Err(String::from_str("No token provided"));
            },
        },
    };
    if starts_with(raw.as_str(), "Token ") {
        Ok(trim_start_matches(raw.as_str(), "Token "))
    } else {
        Ok(raw)
    }
}

/// What to do with a token: it is known, as the user's name, or it must be
/// checked with the auth server.
pub enum TokenCheck {
    Known(String),
    Authenticate(String),
}

/// How long a validation of a token by the auth server is trusted, in
/// milliseconds: thirty minutes.
pub open spec fn token_validation_window_ms() -> i64 {
    1_800_000
}

/// A user holds the token and was validated within the window before `now`.
pub open spec fn fresh_holder(users: Map<Seq<char>, UserView>, k: Seq<char>, token: Seq<char>, now: i64) -> bool {
    users.contains_key(k) && users[k].token == token && within_window(
        users[k].time_validated,
        Some(token_validation_window_ms()),
        now,
    )
}

/// What looking up a request's token at time `now` may give: the request's
/// error; the name of a user freshly validated with the token; or the token to
/// authenticate, which is what a token gives when no holder of it is fresh, and
/// never when some user holds it and every holder is fresh.
pub open spec fn token_checked(
    users: Map<Seq<char>, UserView>,
    t: Result<Seq<char>, Seq<char>>,
    now: i64,
    r: Result<TokenCheck, String>,
) -> bool {
    match t {
        Err(e) => r matches Err(x) && x@ == e,
        Ok(token) => {
            &&& match r {
                Ok(TokenCheck::Known(name)) => exists|k: Seq<char>|
                    #![trigger users[k]]
                    fresh_holder(users, k, token, now) && users[k].username == name@,
                Ok(TokenCheck::Authenticate(x)) => x@ == token && !((exists|k: Seq<char>|
                    #![trigger users[k]]
                    users.contains_key(k) && users[k].token == token) && (forall|k: Seq<char>|
                    #![trigger users[k]]
                    users.contains_key(k) && users[k].token == token ==> fresh_holder(users, k, token, now))),
                Err(_) => false,
            }
            &&& (forall|k: Seq<char>|
                #![trigger users[k]]
                users.contains_key(k) && users[k].token == token ==> !fresh_holder(users, k, token, now))
                ==> r is Ok && r->Ok_0 is Authenticate
        },
    }
}

/// The plain value of a request's `Authorization` header.
pub open spec fn header_view(authorization: Option<Option<String>>) -> Option<Option<Seq<char>>> {
    match authorization {
        Some(Some(t)) => Some(Some(t@)),
        Some(None) => Some(None),
        None => None,
    }
}

/// Looks a request's token up at time `now`: an error when the request carries
/// none, the username when a user was validated with the token within the
/// validation window, else the token to authenticate.
pub fn check_token_at(
    connection_state: &ConnectionStateStruct,
    authorization: Option<Option<String>>,
    query_token: Option<String>,
    now: i64,
) -> (r: Result<TokenCheck, String>)
    requires
        connection_state.wf(),
    ensures
        token_checked(
            connection_state.users@.users,
            spec_token_of_request(header_view(authorization), opt_view(query_token)),
            now,
            r,
        ),
{
    let ghost t = spec_token_of_request(header_view(authorization), opt_view(query_token));
    let token = match token_of_request(authorization, query_token) {
        Ok(t) => t,
        Err(e) => {
            return Err(e);
        },
    };
    match connection_state.check_user_in_state_at(token.as_str(), Some(1_800_000), now) {
        Some(name) => Ok(TokenCheck::Known(name)),
        None => Ok(TokenCheck::Authenticate(token)),
    }
}

/// Looks a request's token up now (see `check_token_at`): a validation is
/// trusted for the validation window only.
pub fn check_token(
    connection_state: &ConnectionStateStruct,
    authorization: Option<Option<String>>,
    query_token: Option<String>,
) -> (r: Result<TokenCheck, String>)
    requires
        connection_state.wf(),
    ensures
        exists|now: i64|
            #[trigger] token_checked(
                connection_state.users@.users,
                spec_token_of_request(header_view(authorization), opt_view(query_token)),
                now,
                r,
            ),
{
    let now = now_millis();
    check_token_at(connection_state, authorization, query_token, now)
}

/// The address of the auth server's user endpoint.
pub fn auth_address(auth_uri: &str) -> (r: String)
    ensures
        r@ == "https://"@ + auth_uri@ + "/api/user/"@,
{
    let mut s = String::from_str("https://");
    s.append(auth_uri);
    s.append("/api/user/");
    s
}

/// The address of the auth server's currency pairs endpoint.
pub fn currency_pairs_address(auth_uri: &str) -> (r: String)
    ensures
        r@ == "https://"@ + auth_uri@ + "/api/currency_pairs/"@,
{
    let mut s = String::from_str("https://");
    s.append(auth_uri);
    s.append("/api/currency_pairs/");
    s
}

/// The address on the auth server of an endpoint whose responses are cached.
pub fn auth_endpoint_address(auth_uri: &str, endpoint: &str) -> (r: String)
    ensures
        r@ == "https://"@ + auth_uri@ + endpoint@,
{
    let mut s = String::from_str("https://");
    s.append(auth_uri);
    s.append(endpoint);
    s
}

/// The value of the `Authorization` header sent with a token.
pub fn authorization_value(token: &str) -> (r: String)
    ensures
        r@ == "Token "@ + token@,
{
    let mut s = String::from_str("Token ");
    s.append(token);
    s
}

/// The reply of the auth server to a token check: none (the request failed),
/// or a status with the user that its body describes (`None` for a body that is
/// not a user).
pub enum AuthReply {
    RequestFailed,
    Response { status: u16, user: Option<UserResponse> },
}

/// What the auth server's reply to a token check means: the user's name, once
/// the user is recorded for the token, or why the token is not accepted.
pub open spec fn spec_authenticate_token(reply: AuthReply) -> Result<Seq<char>, Seq<char>> {
    match reply {
        AuthReply::RequestFailed => Err("error: {:?}"@),
        AuthReply::Response { status, user } => if status == 200 {
            match user {
                Some(u) => Ok(u.username@),
                None => Err("Unable to parse user response"@),
            }
        } else {
            Err("auth failed"@)
        },
    }
}

/// Takes the auth server's reply to a check of `token`: a user in a successful
/// reply is recorded for the token, which is no longer known to be invalid.
pub fn authenticate_token(
    connection_state: &mut ConnectionStateStruct,
    token: &str,
    reply: AuthReply,
) -> (r: Result<String, String>)
    requires
        old(connection_state).wf(),
    ensures
        final(connection_state).wf(),
        final(connection_state).subs_view() == old(connection_state).subs_view(),
        final(connection_state).symbols == old(connection_state).symbols,
        final(connection_state).charts() == old(connection_state).charts(),
        match (r, spec_authenticate_token(reply)) {
            (Ok(a), Ok(b)) => a@ == b,
            (Err(a), Err(b)) => a@ == b,
            _ => false,
        },
        match reply {
            AuthReply::Response { status, user: Some(u) } => if status == 200 {
                final(connection_state).users@ == spec_add_or_update_user(
                    old(connection_state).users@,
                    token@,
                    &u,
                    final(connection_state).users@.users[u.username@].time_validated,
                )
            } else {
                final(connection_state).users == old(connection_state).users
            },
            _ => final(connection_state).users == old(connection_state).users,
        },
{
    match reply {
        AuthReply::RequestFailed => Err(String::from_str("error: {:?}")),
        AuthReply::Response { status, user } => {
            if status == 200 {
                match user {
                    Some(u) => match connection_state.add_or_update_user(token, &u) {
                        Ok(name) => Ok(name),
                        Err(_) => Err(String::from_str("Unable to add user to connection state")),
                    },
                    None => Err(String::from_str("Unable to parse user response")),
                }
            } else {
                Err(String::from_str("auth failed"))
            }
        },
    }
}

/// What taking the auth server's reply to a check of `token` did: the reply's
/// user, recorded for the token, or one error for every cause of refusal; the
/// users change only by recording a user of a successful reply.
pub open spec fn reply_taken(
    users0: UsersView,
    users1: UsersView,
    token: Seq<char>,
    reply: AuthReply,
    r: Result<String, String>,
) -> bool {
    &&& match (r, spec_authenticate_token(reply)) {
        (Ok(a), Ok(b)) => a@ == b,
        (Err(a), Err(_)) => a@ == "Unable to authenticate token"@,
        _ => false,
    }
    &&& match reply {
        AuthReply::Response { status, user: Some(u) } => if status == 200 {
            users1 == spec_add_or_update_user(users0, token, &u, users1.users[u.username@].time_validated)
        } else {
            users1 == users0
        },
        _ => users1 == users0,
    }
}

/// What authenticating a request at time `now` did, from the users before
/// (`users0`) and after (`users1`): a request without a token is refused with its
/// error; a token that a user was validated with within the window names that
/// user, without asking the auth server and without changing the users; a token
/// that no holder was validated with within the window is decided by the auth
/// server's reply (`reply_taken`).
pub open spec fn request_authenticated(
    users0: UsersView,
    users1: UsersView,
    t: Result<Seq<char>, Seq<char>>,
    now: i64,
    reply: AuthReply,
    r: Result<String, String>,
) -> bool {
    let users = users0.users;
    match t {
        Err(e) => r matches Err(x) && x@ == e && users1 == users0,
        Ok(token) => {
            let cached = r matches Ok(name) && users1 == users0 && exists|k: Seq<char>|
                #![trigger users[k]]
                fresh_holder(users, k, token, now) && users[k].username == name@;
            &&& cached || reply_taken(users0, users1, token, reply, r)
            &&& ((exists|k: Seq<char>| #![trigger users[k]] users.contains_key(k) && users[k].token == token)
                && (forall|k: Seq<char>|
                #![trigger users[k]]
                users.contains_key(k) && users[k].token == token ==> fresh_holder(users, k, token, now)))
                ==> cached
            &&& (forall|k: Seq<char>|
                #![trigger users[k]]
                users.contains_key(k) && users[k].token == token ==> !fresh_holder(users, k, token, now))
                ==> reply_taken(users0, users1, token, reply, r)
        },
    }
}

/// Authenticates a request at time `now`: its token is taken from the
/// `Authorization` header, else from the `token` query parameter (see
/// `token_of_request`); a user validated with it within the window is trusted;
/// otherwise the auth server's `reply` decides, and a user it accepts is
/// recorded. Only the users change.
pub fn check_token_and_authenticate_at(
    connection_state: &mut ConnectionStateStruct,
    authorization: Option<Option<String>>,
    query_token: Option<String>,
    now: i64,
    reply: AuthReply,
) -> (r: Result<String, String>)
    requires
        old(connection_state).wf(),
    ensures
        final(connection_state).wf(),
        final(connection_state).subs_view() == old(connection_state).subs_view(),
        final(connection_state).symbols == old(connection_state).symbols,
        final(connection_state).charts() == old(connection_state).charts(),
        request_authenticated(
            old(connection_state).users@,
            final(connection_state).users@,
            spec_token_of_request(header_view(authorization), opt_view(query_token)),
            now,
            reply,
            r,
        ),
{
    let checked = check_token_at(connection_state, authorization, query_token, now);
    match checked {
        Err(e) => Err(e),
        Ok(TokenCheck::Known(name)) => Ok(name),
        Ok(TokenCheck::Authenticate(token)) => {
            match authenticate_token(connection_state, token.as_str(), reply) {
                Ok(name) => Ok(name),
                Err(_) => Err(String::from_str("Unable to authenticate token")),
            }
        },
    }
}

/// Authenticates a request now (see `check_token_and_authenticate_at`).
pub fn check_token_and_authenticate(
    connection_state: &mut ConnectionStateStruct,
    authorization: Option<Option<String>>,
    query_token: Option<String>,
    reply: AuthReply,
) -> (r: Result<String, String>)
    requires
        old(connection_state).wf(),
    ensures
        final(connection_state).wf(),
        final(connection_state).subs_view() == old(connection_state).subs_view(),
        final(connection_state).symbols == old(connection_state).symbols,
        final(connection_state).charts() == old(connection_state).charts(),
        exists|now: i64|
            #[trigger] request_authenticated(
                old(connection_state).users@,
                final(connection_state).users@,
                spec_token_of_request(header_view(authorization), opt_view(query_token)),
                now,
                reply,
                r,
            ),
{
    let now = now_millis();
    check_token_and_authenticate_at(connection_state, authorization, query_token, now, reply)
}

/// The reply of the auth server to a request for currency pairs: none (the
/// request failed), or a status with its text, the body (`None` when it could
/// not be read) and the pairs it lists (`None` when it is not a list of pairs).
pub enum SymbolsReply {
    RequestFailed,
    Response {
        status: u16,
        status_text: String,
        body: Option<String>,
        pairs: Option<Vec<PairSizes>>,
    },
}

/// Takes the auth server's reply to a request for currency pairs: the pairs of
/// a successful reply replace the known symbols, with the body as the currency
/// pairs response. A failed request leaves the symbols as they were and is not
/// an error.
pub fn get_symbols(connection_state: &mut ConnectionStateStruct, reply: SymbolsReply) -> (r: Result<
    (),
    String,
>)
    requires
        old(connection_state).wf(),
    ensures
        final(connection_state).wf(),
        final(connection_state).subs_view() == old(connection_state).subs_view(),
        final(connection_state).users == old(connection_state).users,
        final(connection_state).symbols@.cached_responses == old(connection_state).symbols@.cached_responses,
        match reply {
            SymbolsReply::RequestFailed => r is Ok && final(connection_state).symbols == old(connection_state).symbols,
            SymbolsReply::Response { status, status_text, body, pairs } => if status != 200 {
                r matches Err(e) && e@ == "Unable to get currency pairs: "@ + status_text@
                    && final(connection_state).symbols == old(connection_state).symbols
            } else if body is None {
                r matches Err(e) && e@ == "Unable to get currency pairs"@ && final(connection_state).symbols == old(connection_state).symbols
            } else if pairs is None || sizes_of(pairs.unwrap()@) is None {
                r matches Err(e) && e@ == "Unable to parse currency pairs response"@ && final(connection_state).symbols == old(connection_state).symbols
            } else {
                &&& r is Ok
                &&& final(connection_state).symbols@.cbbo_sizes == sizes_of(pairs.unwrap()@)->Some_0
                &&& final(connection_state).symbols@.currency_pairs_json_response == body.unwrap()@
            },
        },
{
    match reply {
        SymbolsReply::RequestFailed => Ok(()),
        SymbolsReply::Response { status, status_text, body, pairs } => {
            if status != 200 {
                let mut e = String::from_str("Unable to get currency pairs: ");
                e.append(status_text.as_str());
                return Err(e);
            }
            let json_string = match body {
                Some(b) => b,
                None => {
                    return Err(String::from_str("Unable to get currency pairs"));
                },
            };
            let pairs = match pairs {
                Some(p) => p,
                None => {
                    return Err(String::from_str("Unable to parse currency pairs response"));
                },
            };
            let symbols_update = match parse_currency_pairs_response(&pairs) {
                Ok(s) => s,
                Err(_) => {
                    return Err(String::from_str("Unable to parse currency pairs response"));
                },
            };
            match connection_state.add_or_update_symbols(symbols_update, json_string) {
                Ok(_) => Ok(()),
                Err(_) => Err(String::from_str("Unable to add symbols to connection state")),
            }
        },
    }
}

} // verus!
