//! Routes whose data comes from the auth server and is cached in merx, to be
//! served again from the same endpoints.
use vstd::prelude::*;
use crate::text::str_eq;
use crate::laws::lemma_cached_endpoints_are_auth_routes;

verus! {

/// The cached endpoints.
pub open spec fn spec_cached_endpoints() -> Seq<Seq<char>> {
    seq![
        "/api/currency_pairs"@,
        "/api/exchanges"@,
        "/api/exchange_fees"@,
        "/api_internal/currency_pairs"@,
        "/api_internal/exchanges"@,
        "/api_internal/exchange_fees"@,
    ]
}

/// The endpoints whose responses are cached.
pub fn cached_endpoints() -> (r: Vec<&'static str>)
    ensures
        r@.map_values(|s: &'static str| s@) == spec_cached_endpoints(),
        r@.map_values(|s: &'static str| s@).no_duplicates(),
{
    proof {
        lemma_cached_endpoints_are_auth_routes(Seq::empty());
    }
    let v: Vec<&'static str> = vec![
        "/api/currency_pairs",
        "/api/exchanges",
        "/api/exchange_fees",
        "/api_internal/currency_pairs",
        "/api_internal/exchanges",
        "/api_internal/exchange_fees",
    ];
    assert(v@.map_values(|s: &'static str| s@) =~= spec_cached_endpoints());
    v
}

/// Whether responses of an endpoint are cached.
pub fn is_cached_endpoint(path: &str) -> (r: bool)
    ensures
        r == spec_cached_endpoints().contains(path@),
{
    let endpoints = cached_endpoints();
    let mut i: usize = 0;
    while i < endpoints.len()
        invariant
            i <= endpoints.len(),
            endpoints@.map_values(|s: &'static str| s@) == spec_cached_endpoints(),
            forall|j: int| 0 <= j < i ==> spec_cached_endpoints()[j] != path@,
        decreases endpoints.len() - i,
    {
        if str_eq(endpoints[i], path) {
            assert(spec_cached_endpoints()[i as int] == path@);
            return true;
        }
        i = i + 1;
    }
    false
}

} // verus!
