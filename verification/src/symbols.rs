//! The currency pairs and their size filters, pulled from the auth server, and
//! responses of the auth server cached for clients.
use vstd::prelude::*;
use crate::clock::now_millis;
use crate::error::{ErrorCode, MerxErrorResponse};
use crate::table::Table;
use crate::subscriptions::views_of;

verus! {

/// A size filter parsed as a decimal number: `key` identifies the number (two
/// sizes are equal exactly when both have a key and the keys are equal; a value
/// that equals nothing has none), `text` is how the number is displayed.
#[derive(Debug)]
pub struct SizeValue {
    pub key: Option<u64>,
    pub text: String,
}

impl SizeValue {
    /// A copy of this size.
    pub fn duplicate(&self) -> (r: Self)
        ensures
            r == *self,
    {
        SizeValue { key: self.key, text: self.text.clone() }
    }
}

/// The sizes are the same number.
pub open spec fn same_size(a: &SizeValue, b: &SizeValue) -> bool {
    a.key is Some && a.key == b.key
}

/// The currency pair `slug` with its size filters, each parsed (`None` where
/// the size could not be parsed).
pub struct PairSizes {
    pub slug: String,
    pub cbbo_sizes: Vec<Option<SizeValue>>,
}

/// Strings joined with a separator.
pub open spec fn joined(s: Seq<Seq<char>>, sep: Seq<char>) -> Seq<char>
    decreases s.len(),
{
    if s.len() == 0 {
        Seq::empty()
    } else if s.len() == 1 {
        s[0]
    } else {
        joined(s.drop_last(), sep) + sep + s.last()
    }
}

/// The display texts of sizes.
pub open spec fn size_texts(s: Seq<SizeValue>) -> Seq<Seq<char>> {
    s.map_values(|v: SizeValue| v.text@)
}

/// The text of an invalid size filter for a pair.
pub open spec fn invalid_size_filter_text(filter: Seq<char>, pair: Seq<char>, sizes: Seq<SizeValue>) -> Seq<
    char,
> {
    filter + " is an invalid size filter for "@ + pair + ". Available size filters are ["@
        + joined(size_texts(sizes), ", "@) + "]"@
}

/// The currency pairs with their size filters, the currency pairs response, when
/// the pairs were last updated, and the cached responses by endpoint.
pub struct Symbols {
    pub cbbo_sizes: Table<String, Vec<SizeValue>>,
    currency_pairs_json_response: String,
    time_validated: i64,
    cached_responses: Table<String, String>,
}

/// The plain value of the symbols.
pub struct SymbolsView {
    pub cbbo_sizes: Map<Seq<char>, Seq<SizeValue>>,
    pub currency_pairs_json_response: Seq<char>,
    pub time_validated: i64,
    pub cached_responses: Map<Seq<char>, Seq<char>>,
}

impl View for Symbols {
    type V = SymbolsView;

    closed spec fn view(&self) -> SymbolsView {
        SymbolsView {
            cbbo_sizes: self.cbbo_sizes@,
            currency_pairs_json_response: self.currency_pairs_json_response@,
            time_validated: self.time_validated,
            cached_responses: self.cached_responses@,
        }
    }
}

/// The size filters of the pairs of a currency pairs response, a later pair
/// replacing an earlier one with the same slug; `None` when a size could not be parsed.
pub open spec fn sizes_of(pairs: Seq<PairSizes>) -> Option<Map<Seq<char>, Seq<SizeValue>>>
    decreases pairs.len(),
{
    if pairs.len() == 0 {
        Some(Map::empty())
    } else {
        match sizes_of(pairs.drop_last()) {
            Some(m) => {
                let p = pairs.last();
                if forall|j: int| 0 <= j < p.cbbo_sizes@.len() ==> (#[trigger] p.cbbo_sizes@[j]) is Some {
                    Some(m.insert(p.slug@, p.cbbo_sizes@.map_values(|o: Option<SizeValue>| o->0)))
                } else {
                    None
                }
            },
            None => None,
        }
    }
}

impl Symbols {
    /// The tables are well formed.
    pub closed spec fn wf(&self) -> bool {
        self.cbbo_sizes.wf() && self.cached_responses.wf()
    }

    /// No pairs, no response and no cached responses.
    pub fn new() -> (r: Self)
        ensures
            r.wf(),
            r@.cbbo_sizes == Map::<Seq<char>, Seq<SizeValue>>::empty(),
            r@.currency_pairs_json_response == Seq::<char>::empty(),
            r@.time_validated == 0,
            r@.cached_responses == Map::<Seq<char>, Seq<char>>::empty(),
    {
        Symbols {
            cbbo_sizes: Table::new(),
            currency_pairs_json_response: String::new(),
            time_validated: 0,
            cached_responses: Table::new(),
        }
    }

    /// Replaces the pairs with those of `symbols` and the currency pairs response
    /// with `currency_pairs_json`, updated at time `now`.
    pub fn add_or_update_symbols_at(&mut self, symbols: Symbols, currency_pairs_json: String, now: i64) -> (r: Result<(), String>)
        requires
            old(self).wf(),
            symbols.wf(),
        ensures
            final(self).wf(),
            final(self)@ == (SymbolsView {
                cbbo_sizes: symbols@.cbbo_sizes,
                currency_pairs_json_response: currency_pairs_json@,
                time_validated: now,
                cached_responses: old(self)@.cached_responses,
            }),
            r is Ok,
    {
        self.cbbo_sizes = symbols.cbbo_sizes;
        self.currency_pairs_json_response = currency_pairs_json;
        self.time_validated = now;
        Ok(())
    }

    /// Replaces the pairs and the currency pairs response, updated now.
    pub fn add_or_update_symbols(&mut self, symbols: Symbols, currency_pairs_json: String) -> (r: Result<(), String>)
        requires
            old(self).wf(),
            symbols.wf(),
        ensures
            final(self).wf(),
            final(self)@ == (SymbolsView {
                cbbo_sizes: symbols@.cbbo_sizes,
                currency_pairs_json_response: currency_pairs_json@,
                time_validated: final(self)@.time_validated,
                cached_responses: old(self)@.cached_responses,
            }),
            r is Ok,
    {
        let now = now_millis();
        self.add_or_update_symbols_at(symbols, currency_pairs_json, now)
    }

    /// Whether any pair is known.
    pub fn has_symbols(&self) -> (r: bool)
        requires
            self.wf(),
        ensures
            r == (self@.cbbo_sizes.dom().len() > 0),
    {
        proof {
            self.cbbo_sizes.lemma_positions();
        }
        self.cbbo_sizes.len() > 0
    }

    /// Whether `pair` is a known currency pair: an error before any pair is known.
    pub fn is_pair_valid(&self, pair: &str) -> (r: Result<(), MerxErrorResponse>)
        requires
            self.wf(),
        ensures
            self@.cbbo_sizes.dom().len() == 0 ==> (r matches Err(e) && e.error_code
                == ErrorCode::ServerInitializing),
            self@.cbbo_sizes.dom().len() > 0 && self@.cbbo_sizes.contains_key(pair@) ==> r is Ok,
            self@.cbbo_sizes.dom().len() > 0 && !self@.cbbo_sizes.contains_key(pair@) ==> (r matches Err(e)
                && e.error_code == ErrorCode::InvalidCurrencyPair),
            r matches Err(e) ==> e.error@ == e.error_code.spec_name() && e.error_text@
                == e.error_code.spec_default_error_text(),
    {
        if self.has_symbols() {
            if self.cbbo_sizes.contains_key(&pair.to_string()) {
                return Ok(());
            }
            return Err(MerxErrorResponse::new(ErrorCode::InvalidCurrencyPair));
        }
        Err(MerxErrorResponse::new(ErrorCode::ServerInitializing))
    }

    /// Whether `size_filter` is one of the size filters of `pair`: an error before
    /// any pair is known, for an unknown pair, and, listing the available size
    /// filters, for a size filter the pair does not have.
    pub fn is_size_filter_valid(&self, pair: &str, size_filter: &SizeValue) -> (r: Result<(), MerxErrorResponse>)
        requires
            self.wf(),
        ensures
            self@.cbbo_sizes.dom().len() == 0 ==> (r matches Err(e) && e.error_code
                == ErrorCode::ServerInitializing && e.error_text@
                == ErrorCode::ServerInitializing.spec_default_error_text()),
            self@.cbbo_sizes.dom().len() > 0 && !self@.cbbo_sizes.contains_key(pair@) ==> (r matches Err(e)
                && e.error_code == ErrorCode::InvalidCurrencyPair && e.error_text@
                == ErrorCode::InvalidCurrencyPair.spec_default_error_text()),
            self@.cbbo_sizes.dom().len() > 0 && self@.cbbo_sizes.contains_key(pair@) ==> ({
                let sizes = self@.cbbo_sizes[pair@];
                &&& r is Ok <==> exists|j: int|
                    0 <= j < sizes.len() && same_size(size_filter, &#[trigger] sizes[j])
                &&& r is Ok <==> size_filter.key is Some && exists|j: int|
                    0 <= j < sizes.len() && (#[trigger] sizes[j]).key == size_filter.key
                &&& r matches Err(e) ==> e.error_code == ErrorCode::InvalidSizeFilter
                    && e.error_text@ == invalid_size_filter_text(size_filter.text@, pair@, sizes)
            }),
            r matches Err(e) ==> e.error@ == e.error_code.spec_name(),
    {
        if !self.has_symbols() {
            return Err(MerxErrorResponse::new(ErrorCode::ServerInitializing));
        }
        let sizes = match self.cbbo_sizes.get(&pair.to_string()) {
            Some(sizes) => sizes,
            None => {
                return Err(MerxErrorResponse::new(ErrorCode::InvalidCurrencyPair));
            },
        };
        let mut i: usize = 0;
        while i < sizes.len()
            invariant
                i <= sizes@.len(),
                self@.cbbo_sizes.dom().len() > 0,
                self@.cbbo_sizes.contains_key(pair@),
                sizes@ == self@.cbbo_sizes[pair@],
                forall|j: int| 0 <= j < i ==> !same_size(size_filter, &#[trigger] sizes@[j]),
                forall|j: int| 0 <= j < i ==> !(size_filter.key is Some && (#[trigger] sizes@[j]).key
                    == size_filter.key),
            decreases sizes.len() - i,
        {
            let matches = match (size_filter.key, sizes[i].key) {
                (Some(a), Some(b)) => a == b,
                _ => false,
            };
            if matches {
                assert(same_size(size_filter, &sizes@[i as int]));
                return Ok(());
            }
            i = i + 1;
        }
        let mut text = size_filter.text.clone();
        text.append(" is an invalid size filter for ");
        text.append(pair);
        text.append(". Available size filters are [");
        let listed = join_size_texts(sizes);
        text.append(listed.as_str());
        text.append("]");
        Err(MerxErrorResponse::new_and_override_error_text(ErrorCode::InvalidSizeFilter, text.as_str()))
    }

    /// The currency pairs response, once pairs are known.
    pub fn get_currency_pairs_json(&self) -> (r: Result<String, String>)
        requires
            self.wf(),
        ensures
            self@.cbbo_sizes.dom().len() == 0 ==> (r matches Err(e) && e@ == "Awaiting symbol data"@),
            self@.cbbo_sizes.dom().len() > 0 ==> (r matches Ok(s) && s@
                == self@.currency_pairs_json_response),
    {
        if !self.has_symbols() {
            return Err(String::from_str("Awaiting symbol data"));
        }
        Ok(self.currency_pairs_json_response.clone())
    }

    /// Caches `response` as the response of `endpoint`.
    pub fn add_or_update_cached_response(&mut self, endpoint: &str, response: String)
        requires
            old(self).wf(),
        ensures
            final(self).wf(),
            final(self)@ == (SymbolsView {
                cached_responses: old(self)@.cached_responses.insert(endpoint@, response@),
                ..old(self)@
            }),
    {
        self.cached_responses.insert(endpoint.to_string(), response);
    }

    /// The cached response of `endpoint`.
    pub fn get_cached_response(&self, endpoint: &str) -> (r: Result<String, String>)
        requires
            self.wf(),
        ensures
            self@.cached_responses.contains_key(endpoint@) ==> (r matches Ok(s) && s@
                == self@.cached_responses[endpoint@]),
            !self@.cached_responses.contains_key(endpoint@) ==> (r matches Err(e) && e@
                == "not found"@),
    {
        match self.cached_responses.get(&endpoint.to_string()) {
            Some(response) => Ok(response.clone()),
            None => Err(String::from_str("not found")),
        }
    }
}

/// Strings joined with a separator.
pub fn join_strings(v: &Vec<String>, sep: &str) -> (r: String)
    ensures
        r@ == joined(views_of(v@), sep@),
{
    let mut s = String::new();
    let mut i: usize = 0;
    while i < v.len()
        invariant
            i <= v@.len(),
            s@ == joined(views_of(v@.take(i as int)), sep@),
        decreases v.len() - i,
    {
        if i > 0 {
            s.append(sep);
        }
        s.append(v[i].as_str());
        assert(views_of(v@.take(i + 1)).drop_last() =~= views_of(v@.take(i as int)));
        i = i + 1;
    }
    assert(v@.take(v.len() as int) =~= v@);
    s
}

/// The display texts of sizes joined with `, `.
fn join_size_texts(sizes: &Vec<SizeValue>) -> (r: String)
    ensures
        r@ == joined(size_texts(sizes@), ", "@),
{
    let mut s = String::new();
    let mut i: usize = 0;
    while i < sizes.len()
        invariant
            i <= sizes@.len(),
            s@ == joined(size_texts(sizes@.take(i as int)), ", "@),
        decreases sizes.len() - i,
    {
        if i > 0 {
            s.append(", ");
        }
        s.append(sizes[i].text.as_str());
        assert(size_texts(sizes@.take(i + 1)).drop_last() =~= size_texts(sizes@.take(i as int)));
        i = i + 1;
    }
    assert(sizes@.take(sizes.len() as int) =~= sizes@);
    s
}

/// The symbols of a currency pairs response: its pairs with their size
/// filters; an error when a size could not be parsed.
pub fn parse_currency_pairs_response(currency_pairs: &Vec<PairSizes>) -> (r: Result<Symbols, String>)
    ensures
        sizes_of(currency_pairs@) is None ==> (r matches Err(e) && e@ == "Unable to parse cbbo_size"@),
        sizes_of(currency_pairs@) matches Some(m) ==> (r matches Ok(s) && s.wf() && s@
            == (SymbolsView {
            cbbo_sizes: m,
            currency_pairs_json_response: Seq::empty(),
            time_validated: 0,
            cached_responses: Map::empty(),
        })),
{
    let mut symbols = Symbols::new();
    let mut i: usize = 0;
    while i < currency_pairs.len()
        invariant
            i <= currency_pairs@.len(),
            symbols.wf(),
            sizes_of(currency_pairs@.take(i as int)) == Some(symbols@.cbbo_sizes),
            symbols@.currency_pairs_json_response == Seq::<char>::empty(),
            symbols@.time_validated == 0,
            symbols@.cached_responses == Map::<Seq<char>, Seq<char>>::empty(),
        decreases currency_pairs.len() - i,
    {
        let pair = &currency_pairs[i];
        let mut sizes: Vec<SizeValue> = Vec::new();
        let mut j: usize = 0;
        while j < pair.cbbo_sizes.len()
            invariant
                i < currency_pairs@.len(),
                *pair == currency_pairs@[i as int],
                j <= pair.cbbo_sizes@.len(),
                forall|k: int| 0 <= k < j ==> (#[trigger] pair.cbbo_sizes@[k]) is Some,
                sizes@.len() == j,
                forall|k: int| 0 <= k < j ==> #[trigger] sizes@[k] == pair.cbbo_sizes@[k]->0,
            decreases pair.cbbo_sizes.len() - j,
        {
            match &pair.cbbo_sizes[j] {
                Some(v) => {
                    sizes.push(v.duplicate());
                },
                None => {
                    proof {
                        lemma_sizes_of_none(currency_pairs@, i as int, j as int);
                    }
                    return Err(String::from_str("Unable to parse cbbo_size"));
                },
            }
            j = j + 1;
        }
        proof {
            let pre = currency_pairs@.take(i as int);
            let next = currency_pairs@.take(i + 1);
            assert(next.drop_last() =~= pre);
            assert(next.last() == *pair);
            assert(sizes@ =~= pair.cbbo_sizes@.map_values(|o: Option<SizeValue>| o->0));
        }
        symbols.cbbo_sizes.insert(pair.slug.clone(), sizes);
        i = i + 1;
    }
    assert(currency_pairs@.take(currency_pairs.len() as int) =~= currency_pairs@);
    Ok(symbols)
}

proof fn lemma_sizes_of_none(pairs: Seq<PairSizes>, i: int, j: int)
    requires
        0 <= i < pairs.len(),
        0 <= j < pairs[i].cbbo_sizes@.len(),
        pairs[i].cbbo_sizes@[j] is None,
    ensures
        sizes_of(pairs) is None,
    decreases pairs.len(),
{
    if i < pairs.len() - 1 {
        assert(pairs.drop_last()[i] == pairs[i]);
        lemma_sizes_of_none(pairs.drop_last(), i, j);
    } else {
        let p = pairs.last();
        assert(!(p.cbbo_sizes@[j] is Some));
    }
}

} // verus!
