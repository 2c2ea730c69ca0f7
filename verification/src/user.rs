//! Users authenticated against the auth server, and the tokens seen.
use vstd::prelude::*;
use crate::clock::now_millis;
use crate::error::{ErrorCode, MerxErrorResponse};
use crate::md_handlers::helper::{cbag_market_base, cbag_market_decorated, exchange_to_cbag_market};
use crate::subscriptions::views_of;
use crate::table::Table;
use crate::text::{has_prefix, opt_view, str_eq, unicode_lowercase, unicode_uppercase};
use crate::laws::lemma_cbag_market_names_market_data_id;

verus! {

/// An exchange as the auth server describes it for a user.
#[derive(Debug, Clone)]
pub struct ExchangeResponse {
    pub slug: String,
    pub name: String,
    pub is_real_time: bool,
    pub has_fok: bool,
    pub has_post: bool,
    pub non_aggregated_prices: bool,
    pub public: bool,
    pub customer_specific: bool,
}

/// A user as the auth server describes it.
#[derive(Debug, Clone)]
pub struct UserResponse {
    pub username: String,
    pub is_staff: Option<bool>,
    pub organization: String,
    pub client_id: String,
    pub exchanges: Vec<ExchangeResponse>,
}

/// An exchange that a user has access to.
pub struct Exchange {
    slug: String,
    name: String,
    is_real_time: bool,
    has_fok: bool,
    has_post: bool,
    non_aggregated_prices: bool,
    public: bool,
    customer_specific: bool,
}

/// The plain value of an exchange.
pub struct ExchangeView {
    pub slug: Seq<char>,
    pub name: Seq<char>,
    pub is_real_time: bool,
    pub has_fok: bool,
    pub has_post: bool,
    pub non_aggregated_prices: bool,
    pub public: bool,
    pub customer_specific: bool,
}

impl View for ExchangeResponse {
    type V = ExchangeView;

    open spec fn view(&self) -> ExchangeView {
        ExchangeView {
            slug: self.slug@,
            name: self.name@,
            is_real_time: self.is_real_time,
            has_fok: self.has_fok,
            has_post: self.has_post,
            non_aggregated_prices: self.non_aggregated_prices,
            public: self.public,
            customer_specific: self.customer_specific,
        }
    }
}

impl View for Exchange {
    type V = ExchangeView;

    closed spec fn view(&self) -> ExchangeView {
        ExchangeView {
            slug: self.slug@,
            name: self.name@,
            is_real_time: self.is_real_time,
            has_fok: self.has_fok,
            has_post: self.has_post,
            non_aggregated_prices: self.non_aggregated_prices,
            public: self.public,
            customer_specific: self.customer_specific,
        }
    }
}

/// The client id a cbag market is named with: the client id, followed by `_` and
/// the market data id when there is one.
pub open spec fn market_client_id(client_id: Seq<char>, market_data_id: Option<Seq<char>>) -> Seq<
    char,
> {
    match market_data_id {
        Some(id) => client_id + "_"@ + id,
        None => client_id,
    }
}

/// The cbag market of an exchange for a client.
pub open spec fn spec_exchange_cbag_market(
    e: ExchangeView,
    client_id: Seq<char>,
    market_data_id: Option<Seq<char>>,
) -> Seq<char> {
    cbag_market_decorated(
        cbag_market_base(unicode_lowercase(e.slug), unicode_uppercase(e.slug)),
        market_client_id(client_id, market_data_id),
        e.non_aggregated_prices,
        e.customer_specific,
    )
}

/// The client id a cbag market is named with.
pub fn market_client_id_of(client_id: &str, market_data_id: &Option<String>) -> (r: String)
    ensures
        r@ == market_client_id(client_id@, opt_view(*market_data_id)),
{
    let mut s = client_id.to_string();
    match market_data_id {
        Some(id) => {
            s.append("_");
            s.append(id.as_str());
        },
        None => {},
    }
    s
}

impl Exchange {
    /// The cbag market of this exchange for a client with a market data id.
    pub fn to_cbag_market(&self, client_id: &str, market_data_id: Option<String>) -> (r: String)
        ensures
            r@ == spec_exchange_cbag_market(
                self@,
                client_id@,
                opt_view(market_data_id),
            ),
            self@.customer_specific ==> (market_data_id matches Some(id) ==> has_prefix(
                r@,
                client_id@ + "_"@ + id@ + "-"@,
            )),
            self@.customer_specific && market_data_id is None ==> has_prefix(r@, client_id@ + "-"@),
    {
        proof {
            let ids = opt_view(market_data_id);
            let id: Seq<char> = if ids is Some { ids->0 } else { Seq::empty() };
            lemma_cbag_market_names_market_data_id(self@, client_id@, id, client_id@);
        }
        let id = market_client_id_of(client_id, &market_data_id);
        exchange_to_cbag_market(
            self.slug.as_str(),
            id.as_str(),
            self.non_aggregated_prices,
            self.customer_specific,
            self.public,
        )
    }
}

/// A user known to merx.
pub struct User {
    username: String,
    token: String,
    organization: String,
    client_id: String,
    exchanges: Table<String, Exchange>,
    time_validated: i64,
}

/// The plain value of a user.
pub struct UserView {
    pub username: Seq<char>,
    pub token: Seq<char>,
    pub organization: Seq<char>,
    pub client_id: Seq<char>,
    pub exchanges: Map<Seq<char>, ExchangeView>,
    pub time_validated: i64,
}

impl View for User {
    type V = UserView;

    closed spec fn view(&self) -> UserView {
        UserView {
            username: self.username@,
            token: self.token@,
            organization: self.organization@,
            client_id: self.client_id@,
            exchanges: self.exchanges@,
            time_validated: self.time_validated,
        }
    }
}

impl User {
    /// The exchange table is well formed.
    pub closed spec fn wf(&self) -> bool {
        self.exchanges.wf()
    }
}

/// The exchanges a user response grants, by slug (a later slug replaces an earlier one).
pub open spec fn exchanges_of(list: Seq<ExchangeView>) -> Map<Seq<char>, ExchangeView>
    decreases list.len(),
{
    if list.len() == 0 {
        Map::empty()
    } else {
        exchanges_of(list.drop_last()).insert(list.last().slug, list.last())
    }
}

/// The plain value of a user response.
pub open spec fn user_of(r: &UserResponse, token: Seq<char>, now: i64) -> UserView {
    UserView {
        username: r.username@,
        token,
        organization: r.organization@,
        client_id: r.client_id@,
        exchanges: exchanges_of(r.exchanges@.map_values(|e: ExchangeResponse| e@)),
        time_validated: now,
    }
}

/// Users are authenticated within the window (no window: whenever).
pub open spec fn within_window(t: i64, window: Option<i64>, now: i64) -> bool {
    match window {
        Some(w) => now - t <= w,
        None => true,
    }
}

/// The token is recorded in `m` within the window before `now`.
pub open spec fn recorded_in(m: Map<Seq<char>, i64>, token: Seq<char>, window: Option<i64>, now: i64) -> bool {
    m.contains_key(token) && within_window(m[token], window, now)
}

/// The known users, by username, and the tokens known to be invalid or tried.
pub struct Users {
    users: Table<String, User>,
    invalid_tokens: Table<String, i64>,
    attempted_auths: Table<String, i64>,
}

/// The plain value of the known users.
pub struct UsersView {
    pub users: Map<Seq<char>, UserView>,
    pub invalid_tokens: Map<Seq<char>, i64>,
    pub attempted_auths: Map<Seq<char>, i64>,
}

impl View for Users {
    type V = UsersView;

    closed spec fn view(&self) -> UsersView {
        UsersView {
            users: self.users@,
            invalid_tokens: self.invalid_tokens@,
            attempted_auths: self.attempted_auths@,
        }
    }
}

/// The users after a user response was accepted for a token at time `now`.
pub open spec fn spec_add_or_update_user(
    s: UsersView,
    token: Seq<char>,
    r: &UserResponse,
    now: i64,
) -> UsersView {
    UsersView {
        users: s.users.insert(r.username@, user_of(r, token, now)),
        invalid_tokens: s.invalid_tokens.remove(token),
        attempted_auths: s.attempted_auths,
    }
}

/// The text of an exchange that a user has no access to.
pub open spec fn invalid_exchange_text(exchange: Seq<char>) -> Seq<char> {
    "Exchange `"@ + exchange + "` invalid or user does not have access"@
}

/// The position of the first exchange that a user has no access to.
pub open spec fn first_missing(exchanges: Map<Seq<char>, ExchangeView>, list: Seq<Seq<char>>, i: int) -> bool {
    0 <= i < list.len() && !exchanges.contains_key(list[i]) && forall|j: int|
        0 <= j < i ==> exchanges.contains_key(list[j])
}

impl Users {
    /// The tables are well formed, the exchange tables of the users too.
    pub closed spec fn wf(&self) -> bool {
        &&& self.users.wf()
        &&& self.invalid_tokens.wf()
        &&& self.attempted_auths.wf()
        &&& forall|i: int|
            0 <= i < self.users.spec_len() ==> (#[trigger] self.users.spec_value_at(i)).wf()
    }

    /// No users and no tokens.
    pub fn new() -> (r: Self)
        ensures
            r.wf(),
            r@.users == Map::<Seq<char>, UserView>::empty(),
            r@.invalid_tokens == Map::<Seq<char>, i64>::empty(),
            r@.attempted_auths == Map::<Seq<char>, i64>::empty(),
    {
        Users { users: Table::new(), invalid_tokens: Table::new(), attempted_auths: Table::new() }
    }

    /// Records the user that the auth server described for `token`, validated at
    /// time `now`; the token is no longer known to be invalid.
    pub fn add_or_update_user_at(&mut self, token: &str, user_response: &UserResponse, now: i64) -> (r: Result<String, String>)
        requires
            old(self).wf(),
        ensures
            final(self).wf(),
            final(self)@ == spec_add_or_update_user(old(self)@, token@, user_response, now),
            r matches Ok(name) && name@ == user_response.username@,
    {
        let mut exchanges: Table<String, Exchange> = Table::new();
        let mut i: usize = 0;
        while i < user_response.exchanges.len()
            invariant
                i <= user_response.exchanges.len(),
                exchanges.wf(),
                exchanges@ == exchanges_of(
                    user_response.exchanges@.take(i as int).map_values(|e: ExchangeResponse| e@),
                ),
            decreases user_response.exchanges.len() - i,
        {
            let er = &user_response.exchanges[i];
            let exchange = Exchange {
                slug: er.slug.clone(),
                name: er.name.clone(),
                is_real_time: er.is_real_time,
                has_fok: er.has_fok,
                has_post: er.has_post,
                non_aggregated_prices: er.non_aggregated_prices,
                public: er.public,
                customer_specific: er.customer_specific,
            };
            exchanges.insert(exchange.slug.clone(), exchange);
            proof {
                let prev = user_response.exchanges@.take(i as int).map_values(|e: ExchangeResponse| e@);
                let next = user_response.exchanges@.take(i + 1).map_values(|e: ExchangeResponse| e@);
                assert(next.drop_last() =~= prev);
                assert(next.last() == user_response.exchanges@[i as int]@);
            }
            i = i + 1;
        }
        assert(user_response.exchanges@.take(user_response.exchanges.len() as int)
            =~= user_response.exchanges@);
        let user = User {
            username: user_response.username.clone(),
            token: token.to_string(),
            organization: user_response.organization.clone(),
            client_id: user_response.client_id.clone(),
            exchanges,
            time_validated: now,
        };
        let username = user.username.clone();
        let ghost before = self.users;
        self.users.insert(user.username.clone(), user);
        proof {
            assert forall|j: int|
                0 <= j < self.users.spec_len() implies (#[trigger] self.users.spec_value_at(j)).wf() by {
                if Some(self.users.spec_value_at(j)) != Some(user) {
                    let k = choose|k: int|
                        0 <= k < before.spec_len() && self.users.spec_value_at(j)
                            == before.spec_value_at(k);
                    assert(before.spec_value_at(k).wf());
                }
            }
        }
        self.invalid_tokens.remove(&token.to_string());
        Ok(username)
    }

    /// Records the user that the auth server described for `token`, validated now.
    pub fn add_or_update_user(&mut self, token: &str, user_response: &UserResponse) -> (r: Result<String, String>)
        requires
            old(self).wf(),
        ensures
            final(self).wf(),
            final(self)@ == spec_add_or_update_user(
                old(self)@,
                token@,
                user_response,
                final(self)@.users[user_response.username@].time_validated,
            ),
            r matches Ok(name) && name@ == user_response.username@,
    {
        let now = now_millis();
        self.add_or_update_user_at(token, user_response, now)
    }
    /// The username of a user validated with `token` within the window before `now`.
    /// Users are looked at in turn and the first with the token decides.
    pub fn check_user_in_state_at(&self, token: &str, validated_since: Option<i64>, now: i64) -> (r: Option<String>)
        requires
            self.wf(),
        ensures
            r matches Some(name) ==> exists|k: Seq<char>|
                #![trigger self@.users[k]]
                self@.users.contains_key(k) && self@.users[k].token == token@
                    && self@.users[k].username == name@ && within_window(
                    self@.users[k].time_validated,
                    validated_since,
                    now,
                ),
            (forall|k: Seq<char>|
                #![trigger self@.users[k]]
                self@.users.contains_key(k) && self@.users[k].token == token@ ==> !within_window(
                    self@.users[k].time_validated,
                    validated_since,
                    now,
                )) ==> r is None,
            (exists|k: Seq<char>|
                #![trigger self@.users[k]]
                self@.users.contains_key(k) && self@.users[k].token == token@) && (forall|
                k: Seq<char>,
            |
                #![trigger self@.users[k]]
                self@.users.contains_key(k) && self@.users[k].token == token@ ==> within_window(
                    self@.users[k].time_validated,
                    validated_since,
                    now,
                )) ==> r is Some,
    {
        proof {
            self.users.lemma_positions();
        }
        let mut i: usize = 0;
        while i < self.users.len()
            invariant
                self.wf(),
                i <= self.users.spec_len(),
                forall|j: int|
                    0 <= j < i ==> (#[trigger] self.users.spec_value_at(j))@.token != token@,
            decreases self.users.spec_len() - i,
        {
            let user = self.users.value_at(i);
            if user.token.as_str().len() == token.len() && crate::text::str_eq(user.token.as_str(), token) {
                proof {
                    self.users.lemma_positions();
                    assert(self@.users[self.users.spec_key_at(i as int)] == user@);
                }
                let fresh = match validated_since {
                    Some(w) => (now as i128) - (user.time_validated as i128) <= (w as i128),
                    None => true,
                };
                if fresh {
                    return Some(user.username.clone());
                } else {
                    return None;
                }
            }
            i = i + 1;
        }
        proof {
            assert forall|k: Seq<char>|
                #![trigger self@.users[k]]
                self@.users.contains_key(k) implies self@.users[k].token != token@ by {
                let j = choose|j: int| 0 <= j < self.users.spec_len() && self.users.spec_key_at(j) == k;
                assert(self.users.spec_value_at(j)@.token != token@);
            }
        }
        None
    }

    /// The username of a user validated with `token` within the window before now.
    pub fn check_user_in_state(&self, token: &str, validated_since: Option<i64>) -> (r: Option<String>)
        requires
            self.wf(),
        ensures
            r matches Some(name) ==> exists|k: Seq<char>|
                #![trigger self@.users[k]]
                self@.users.contains_key(k) && self@.users[k].token == token@
                    && self@.users[k].username == name@,
            (forall|k: Seq<char>|
                #![trigger self@.users[k]]
                self@.users.contains_key(k) ==> self@.users[k].token != token@) ==> r is None,
            validated_since is None && (exists|k: Seq<char>|
                #![trigger self@.users[k]]
                self@.users.contains_key(k) && self@.users[k].token == token@) ==> r is Some,
    {
        let now = now_millis();
        self.check_user_in_state_at(token, validated_since, now)
    }

    /// Records at time `now` that `token` is invalid.
    pub fn invalidate_token_at(&mut self, token: &str, now: i64)
        requires
            old(self).wf(),
        ensures
            final(self).wf(),
            final(self)@ == (UsersView {
                invalid_tokens: old(self)@.invalid_tokens.insert(token@, now),
                ..old(self)@
            }),
    {
        self.invalid_tokens.insert(token.to_string(), now);
    }

    /// Records now that `token` is invalid.
    pub fn invalidate_token(&mut self, token: &str)
        requires
            old(self).wf(),
        ensures
            final(self).wf(),
            final(self)@ == (UsersView {
                invalid_tokens: old(self)@.invalid_tokens.insert(
                    token@,
                    final(self)@.invalid_tokens[token@],
                ),
                ..old(self)@
            }),
    {
        let now = now_millis();
        self.invalidate_token_at(token, now);
    }

    /// Records at time `now` that authentication was attempted with `token`.
    pub fn add_attempted_auth_at(&mut self, token: &str, now: i64)
        requires
            old(self).wf(),
        ensures
            final(self).wf(),
            final(self)@ == (UsersView {
                attempted_auths: old(self)@.attempted_auths.insert(token@, now),
                ..old(self)@
            }),
    {
        self.attempted_auths.insert(token.to_string(), now);
    }

    /// Records now that authentication was attempted with `token`.
    pub fn add_attempted_auth(&mut self, token: &str)
        requires
            old(self).wf(),
        ensures
            final(self).wf(),
            final(self)@ == (UsersView {
                attempted_auths: old(self)@.attempted_auths.insert(
                    token@,
                    final(self)@.attempted_auths[token@],
                ),
                ..old(self)@
            }),
    {
        let now = now_millis();
        self.add_attempted_auth_at(token, now);
    }

    /// Whether authentication was attempted with `token` within the window before `now`.
    pub fn check_if_attempted_auth_at(&self, token: &str, duration_window: Option<i64>, now: i64) -> (r: bool)
        requires
            self.wf(),
        ensures
            r == (self@.attempted_auths.contains_key(token@) && within_window(
                self@.attempted_auths[token@],
                duration_window,
                now,
            )),
    {
        recorded_within(&self.attempted_auths, token, duration_window, now)
    }

    /// Whether authentication was attempted with `token` within the window before now.
    pub fn check_if_attempted_auth(&self, token: &str, duration_window: Option<i64>) -> (r: bool)
        requires
            self.wf(),
        ensures
            r ==> self@.attempted_auths.contains_key(token@),
            duration_window is None ==> r == self@.attempted_auths.contains_key(token@),
            exists|now: i64| r == #[trigger] recorded_in(self@.attempted_auths, token@, duration_window, now),
    {
        let now = now_millis();
        let r = self.check_if_attempted_auth_at(token, duration_window, now);
        assert(r == recorded_in(self@.attempted_auths, token@, duration_window, now));
        r
    }

    /// Whether `token` was recorded as invalid within the window before `now`.
    pub fn check_token_known_to_be_invalid_at(&self, token: &str, duration_window: Option<i64>, now: i64) -> (r: bool)
        requires
            self.wf(),
        ensures
            r == (self@.invalid_tokens.contains_key(token@) && within_window(
                self@.invalid_tokens[token@],
                duration_window,
                now,
            )),
    {
        recorded_within(&self.invalid_tokens, token, duration_window, now)
    }

    /// Whether `token` was recorded as invalid within the window before now.
    pub fn check_token_known_to_be_invalid(&self, token: &str, duration_window: Option<i64>) -> (r: bool)
        requires
            self.wf(),
        ensures
            r ==> self@.invalid_tokens.contains_key(token@),
            duration_window is None ==> r == self@.invalid_tokens.contains_key(token@),
            exists|now: i64| r == #[trigger] recorded_in(self@.invalid_tokens, token@, duration_window, now),
    {
        let now = now_millis();
        let r = self.check_token_known_to_be_invalid_at(token, duration_window, now);
        assert(r == recorded_in(self@.invalid_tokens, token@, duration_window, now));
        r
    }

    /// The cbag markets of `exchanges_vec` for user `username`, in order; an error
    /// for an unknown user or for the first exchange the user has no access to.
    pub fn validate_exchanges_vector(
        &self,
        username: &str,
        exchanges_vec: &Vec<String>,
        market_data_id: Option<String>,
    ) -> (r: Result<Vec<String>, MerxErrorResponse>)
        requires
            self.wf(),
        ensures
            !self@.users.contains_key(username@) ==> (r matches Err(e) && e.error_code
                == ErrorCode::ServerError && e.error_text@
                == ErrorCode::ServerError.spec_default_error_text()),
            self@.users.contains_key(username@) ==> ({
                let u = self@.users[username@];
                let list = views_of(exchanges_vec@);
                &&& r is Ok <==> (forall|j: int|
                    0 <= j < list.len() ==> u.exchanges.contains_key(#[trigger] list[j]))
                &&& r matches Ok(v) ==> views_of(v@) == list.map_values(
                    |x: Seq<char>|
                        spec_exchange_cbag_market(u.exchanges[x], u.client_id, opt_view(market_data_id)),
                )
                &&& r matches Err(e) ==> e.error_code == ErrorCode::InvalidExchanges && exists|j: int|
                    first_missing(u.exchanges, list, j) && e.error_text@ == invalid_exchange_text(
                        #[trigger] list[j],
                    )
            }),
            r matches Err(e) ==> e.error@ == e.error_code.spec_name(),
    {
        let idx = match self.users.index_of(&username.to_string()) {
            Some(i) => i,
            None => {
                return Err(MerxErrorResponse::new(ErrorCode::ServerError));
            },
        };
        let user = self.users.value_at(idx);
        proof {
            self.users.lemma_positions();
            assert(user.wf());
            assert(self@.users[username@] == user@);
        }
        let ghost u = user@;
        let ghost list = views_of(exchanges_vec@);
        let mut cbag_markets: Vec<String> = Vec::new();
        let mut i: usize = 0;
        while i < exchanges_vec.len()
            invariant
                user.wf(),
                u == user@,
                self@.users.contains_key(username@),
                u == self@.users[username@],
                list == views_of(exchanges_vec@),
                i <= exchanges_vec.len(),
                forall|j: int| 0 <= j < i ==> u.exchanges.contains_key(#[trigger] list[j]),
                views_of(cbag_markets@) == list.take(i as int).map_values(
                    |x: Seq<char>|
                        spec_exchange_cbag_market(u.exchanges[x], u.client_id, opt_view(market_data_id)),
                ),
            decreases exchanges_vec.len() - i,
        {
            match user.exchanges.get(&exchanges_vec[i]) {
                Some(exchange) => {
                    let m = exchange.to_cbag_market(user.client_id.as_str(), market_data_id.clone());
                    let ghost prev = views_of(cbag_markets@);
                    cbag_markets.push(m);
                    assert(list[i as int] == exchanges_vec@[i as int]@);
                    assert(views_of(cbag_markets@) =~= prev.push(m@));
                    assert(list.take(i + 1) =~= list.take(i as int).push(list[i as int]));
                    assert(views_of(cbag_markets@) =~= list.take(i + 1).map_values(
                        |x: Seq<char>|
                            spec_exchange_cbag_market(u.exchanges[x], u.client_id, opt_view(market_data_id)),
                    ));
                },
                None => {
                    let mut text = String::from_str("Exchange `");
                    text.append(exchanges_vec[i].as_str());
                    text.append("` invalid or user does not have access");
                    assert(first_missing(u.exchanges, list, i as int));
                    return Err(MerxErrorResponse::new_and_override_error_text(
                        ErrorCode::InvalidExchanges,
                        text.as_str(),
                    ));
                },
            }
            i = i + 1;
        }
        assert(list.take(exchanges_vec.len() as int) =~= list);
        Ok(cbag_markets)
    }

    /// The client id of user `username`.
    pub fn get_client_id(&self, username: &str) -> (r: Result<String, String>)
        requires
            self.wf(),
        ensures
            self@.users.contains_key(username@) ==> (r matches Ok(id) && id@
                == self@.users[username@].client_id),
            !self@.users.contains_key(username@) ==> (r matches Err(e) && e@ == "User "@
                + username@ + " not found"@),
    {
        match self.users.get(&username.to_string()) {
            Some(user) => Ok(user.client_id.clone()),
            None => {
                let mut e = String::from_str("User ");
                e.append(username);
                e.append(" not found");
                Err(e)
            },
        }
    }
}

/// Whether `token` was recorded in `t` within the window before `now`.
fn recorded_within(t: &Table<String, i64>, token: &str, window: Option<i64>, now: i64) -> (r: bool)
    requires
        t.wf(),
    ensures
        r == (t@.contains_key(token@) && within_window(t@[token@], window, now)),
{
    match t.get(&token.to_string()) {
        Some(at) => match window {
            Some(w) => (now as i128) - (*at as i128) <= (w as i128),
            None => true,
        },
        None => false,
    }
}

} // verus!
