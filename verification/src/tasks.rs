//! The background task that pulls the currency pairs and the cached responses
//! from the auth server.
//!
//! It first tries the main merx host a few times, then refreshes from the
//! configured auth server forever: the pairs, then each cached endpoint, then a
//! rest. The caller makes the requests and sleeps; `pull_step` decides.
use vstd::prelude::*;
use crate::cached_routes::spec_cached_endpoints;

verus! {

/// The host tried first for the currency pairs.
pub fn bootstrap_host() -> (r: &'static str)
    ensures
        r@ == "merx.coinroutes.com"@,
{
    "merx.coinroutes.com"
}

/// How many times the first host is tried.
pub open spec fn bootstrap_attempts() -> u32 {
    5
}

/// Where the task stands: trying the first host (with the attempts made so
/// far), fetching the pairs from the auth server, or fetching the cached
/// endpoint at an index.
pub enum PullPhase {
    Bootstrap(u32),
    Pairs,
    Endpoint(usize),
}

/// The request to make next.
pub enum PullRequest {
    /// The currency pairs, from the first host or from the auth server.
    Pairs { from_bootstrap_host: bool },
    /// The cached endpoint at this index.
    Endpoint(usize),
}

/// What the task does after a request: the new phase, how long to sleep, and
/// the next request.
pub open spec fn spec_pull_step(phase: PullPhase, ok: bool) -> (PullPhase, u64, PullRequest) {
    let n = spec_cached_endpoints().len();
    match phase {
        PullPhase::Bootstrap(done) => if ok {
            (PullPhase::Pairs, 0, PullRequest::Pairs { from_bootstrap_host: false })
        } else if done + 1 < bootstrap_attempts() {
            (
                PullPhase::Bootstrap((done + 1) as u32),
                250,
                PullRequest::Pairs { from_bootstrap_host: true },
            )
        } else {
            (PullPhase::Pairs, 250, PullRequest::Pairs { from_bootstrap_host: false })
        },
        PullPhase::Pairs => if ok {
            (PullPhase::Endpoint(0), 5000, PullRequest::Endpoint(0))
        } else {
            (PullPhase::Pairs, 5000, PullRequest::Pairs { from_bootstrap_host: false })
        },
        PullPhase::Endpoint(i) => if i + 1 < n {
            (PullPhase::Endpoint((i + 1) as usize), 5000, PullRequest::Endpoint((i + 1) as usize))
        } else {
            (PullPhase::Pairs, 40_000, PullRequest::Pairs { from_bootstrap_host: false })
        },
    }
}

/// The first phase and request of the task.
pub fn pull_start() -> (r: (PullPhase, PullRequest))
    ensures
        r == (PullPhase::Bootstrap(0), PullRequest::Pairs { from_bootstrap_host: true }),
{
    (PullPhase::Bootstrap(0), PullRequest::Pairs { from_bootstrap_host: true })
}

/// Takes the outcome of the last request (`ok`: it succeeded) and says what
/// comes next: the first host is tried until it answers, at most five times, a
/// quarter second apart; the pairs are asked again every five seconds until they
/// come; then each cached endpoint is fetched five seconds apart, whatever its
/// outcome, and the pairs are refreshed after forty seconds.
pub fn pull_step(phase: PullPhase, ok: bool) -> (r: (PullPhase, u64, PullRequest))
    requires
        phase matches PullPhase::Bootstrap(done) ==> done < bootstrap_attempts(),
        phase matches PullPhase::Endpoint(i) ==> i < spec_cached_endpoints().len(),
    ensures
        r == spec_pull_step(phase, ok),
        r.0 matches PullPhase::Bootstrap(done) ==> done < bootstrap_attempts(),
        r.0 matches PullPhase::Endpoint(i) ==> i < spec_cached_endpoints().len(),
{
    match phase {
        PullPhase::Bootstrap(done) => {
            if ok {
                (PullPhase::Pairs, 0, PullRequest::Pairs { from_bootstrap_host: false })
            } else if done + 1 < 5 {
                (PullPhase::Bootstrap(done + 1), 250, PullRequest::Pairs { from_bootstrap_host: true })
            } else {
                (PullPhase::Pairs, 250, PullRequest::Pairs { from_bootstrap_host: false })
            }
        },
        PullPhase::Pairs => {
            if ok {
                (PullPhase::Endpoint(0), 5000, PullRequest::Endpoint(0))
            } else {
                (PullPhase::Pairs, 5000, PullRequest::Pairs { from_bootstrap_host: false })
            }
        },
        PullPhase::Endpoint(i) => {
            if i + 1 < 6 {
                (PullPhase::Endpoint(i + 1), 5000, PullRequest::Endpoint(i + 1))
            } else {
                (PullPhase::Pairs, 40_000, PullRequest::Pairs { from_bootstrap_host: false })
            }
        },
    }
}

} // verus!
