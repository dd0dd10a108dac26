//! Harness-side control logic: the exclusive-claim state machine, the
//! shutdown latch, and the decision logic of every protocol endpoint.
//!
//! A harness serves its endpoints over HTTP; the transport is outside this
//! module.  What each endpoint decides — which status code, which body,
//! and how the claim state changes — is pure logic over the request and
//! the current state, and is verified here.

use vstd::prelude::*;
use vstd::string::StringExecFns;

use crate::protocol::{
    BenchmarkListResponse, ClaimResponse, HealthResponse, ReleaseResponse, RunIterationRequest,
    RunIterationResponse, ShutdownResponse,
};
use crate::registry::{BenchmarkFn, BenchmarkRegistry};

verus! {

/// HTTP status for success.
pub const STATUS_OK: u16 = 200;

/// HTTP status for a malformed or inapplicable request.
pub const STATUS_BAD_REQUEST: u16 = 400;

/// HTTP status for a request that lacks a valid claim.
pub const STATUS_FORBIDDEN: u16 = 403;

/// HTTP status for an unknown benchmark identifier.
pub const STATUS_NOT_FOUND: u16 = 404;

/// HTTP status for a claim held by another orchestrator.
pub const STATUS_CONFLICT: u16 = 409;

/// The harness-wide claim state: an optional nonce naming the orchestrator
/// that holds exclusive access.
pub struct ClaimState {
    nonce: Option<String>,
}

/// The claim transition: from a holder and a requested nonce to the new
/// holder and the response status.
///
/// An unclaimed harness grants the claim; a repeated claim with the same
/// nonce is granted again (idempotent); a claim against a different holder
/// is rejected with a conflict and leaves the holder unchanged.
pub open spec fn spec_claim_transition(holder: Option<Seq<char>>, nonce: Seq<char>) -> (Option<
    Seq<char>,
>, u16) {
    match holder {
        None => (Some(nonce), STATUS_OK),
        Some(h) => if h == nonce {
            (Some(h), STATUS_OK)
        } else {
            (Some(h), STATUS_CONFLICT)
        },
    }
}

/// The release transition: releasing with the holder's nonce clears the
/// claim; any other release leaves the state unchanged and is a bad
/// request.
pub open spec fn spec_release_transition(holder: Option<Seq<char>>, nonce: Seq<char>) -> (Option<
    Seq<char>,
>, u16) {
    match holder {
        Some(h) => if h == nonce {
            (None, STATUS_OK)
        } else {
            (Some(h), STATUS_BAD_REQUEST)
        },
        None => (None, STATUS_BAD_REQUEST),
    }
}

/// A request is authorized when the harness is unclaimed, or when it
/// carries the claim header with exactly the holder's nonce.
pub open spec fn spec_authorized(holder: Option<Seq<char>>, header: Option<Seq<char>>) -> bool {
    match holder {
        None => true,
        Some(h) => header == Some(h),
    }
}

/// The view of an optional claim header.
pub open spec fn header_view(header: Option<&str>) -> Option<Seq<char>> {
    match header {
        Some(h) => Some(h@),
        None => None,
    }
}

impl ClaimState {
    /// The nonce of the current holder, if any.
    pub closed spec fn holder(&self) -> Option<Seq<char>> {
        match self.nonce {
            Some(ref n) => Some(n@),
            None => None,
        }
    }

    /// Create an unclaimed state.
    pub fn new() -> (r: ClaimState)
        ensures
            r.holder() is None,
    {
        ClaimState { nonce: None }
    }

    /// Handle a claim request.
    pub fn claim(&mut self, nonce: String) -> (r: (u16, ClaimResponse))
        ensures
            (final(self).holder(), r.0) == spec_claim_transition(old(self).holder(), nonce@),
            r.1.success == (r.0 == STATUS_OK),
            r.0 == STATUS_CONFLICT ==> (r.1.error matches Some(e) && e@ == "already claimed"@),
            r.0 == STATUS_OK ==> r.1.error is None,
    {
        match &self.nonce {
            None => {
                self.nonce = Some(nonce);
                (STATUS_OK, ClaimResponse::granted())
            },
            Some(existing) => {
                if *existing == nonce {
                    (STATUS_OK, ClaimResponse::granted())
                } else {
                    (STATUS_CONFLICT, ClaimResponse::already_claimed())
                }
            },
        }
    }

    /// Handle a release request.
    pub fn release(&mut self, nonce: &str) -> (r: (u16, ReleaseResponse))
        ensures
            (final(self).holder(), r.0) == spec_release_transition(old(self).holder(), nonce@),
            r.1.success == (r.0 == STATUS_OK),
    {
        let owned = nonce.to_owned();
        match &self.nonce {
            Some(existing) => {
                if *existing == owned {
                    self.nonce = None;
                    (STATUS_OK, ReleaseResponse::released())
                } else {
                    (STATUS_BAD_REQUEST, ReleaseResponse { success: false })
                }
            },
            None => (STATUS_BAD_REQUEST, ReleaseResponse { success: false }),
        }
    }

    /// A copy of the claim state with the same holder, for reading
    /// outside the lock that guards the original.
    pub fn snapshot(&self) -> (r: ClaimState)
        ensures
            r.holder() == self.holder(),
    {
        match &self.nonce {
            Some(n) => ClaimState { nonce: Some(n.clone()) },
            None => ClaimState { nonce: None },
        }
    }

    /// Whether a request carrying the given claim header may proceed.
    pub fn authorized(&self, header: Option<&str>) -> (r: bool)
        ensures
            r == spec_authorized(self.holder(), header_view(header)),
    {
        match &self.nonce {
            None => true,
            Some(holder) => match header {
                Some(h) => *holder == h.to_owned(),
                None => false,
            },
        }
    }
}

/// A one-shot shutdown latch: once a shutdown is requested, the accept
/// loop stops accepting new requests.  Redundant requests are harmless.
pub struct ShutdownLatch {
    requested: bool,
}

impl ShutdownLatch {
    /// Whether a shutdown has been requested.
    pub closed spec fn is_requested(&self) -> bool {
        self.requested
    }

    /// Create a latch with no shutdown requested.
    pub fn new() -> (r: ShutdownLatch)
        ensures
            !r.is_requested(),
    {
        ShutdownLatch { requested: false }
    }

    /// Request a shutdown.  The latch stays set no matter how often this
    /// is called.
    pub fn request(&mut self)
        ensures
            final(self).is_requested(),
    {
        self.requested = true;
    }

    /// Read the latch.
    pub fn requested(&self) -> (r: bool)
        ensures
            r == self.is_requested(),
    {
        self.requested
    }
}

/// The health endpoint: always answers 200 with a healthy status, and is
/// never gated by the claim.
pub fn health_endpoint() -> (r: (u16, HealthResponse))
    ensures
        r.0 == STATUS_OK,
        r.1.status@ == "healthy"@,
{
    (STATUS_OK, HealthResponse::healthy())
}

/// The benchmark-list endpoint: authorized requests receive the registered
/// identifiers; others are rejected without a list.
pub fn list_endpoint<F: BenchmarkFn>(
    registry: &BenchmarkRegistry<F>,
    claim: &ClaimState,
    header: Option<&str>,
) -> (r: (u16, Option<BenchmarkListResponse>))
    ensures
        spec_authorized(claim.holder(), header_view(header)) ==> ({
            &&& r.0 == STATUS_OK
            &&& r.1 matches Some(body) && body.benchmarks@.map_values(|s: String| s@)
                =~= registry.keys()
        }),
        !spec_authorized(claim.holder(), header_view(header)) ==> r.0 == STATUS_FORBIDDEN
            && r.1 is None,
{
    if !claim.authorized(header) {
        return (STATUS_FORBIDDEN, None);
    }
    let names = registry.list();
    (STATUS_OK, Some(BenchmarkListResponse::new(names)))
}

/// The run endpoint.
///
/// An unauthorized request is rejected with 403 before the registry is
/// consulted, so the benchmark is not invoked.  An unknown identifier
/// yields 404 with an error message naming it.  Otherwise the benchmark
/// runs one iteration and its own measurement is returned.
pub fn run_endpoint<F: BenchmarkFn>(
    registry: &BenchmarkRegistry<F>,
    claim: &ClaimState,
    header: Option<&str>,
    request: &RunIterationRequest,
) -> (r: (u16, RunIterationResponse))
    ensures
        !spec_authorized(claim.holder(), header_view(header)) ==> r.0 == STATUS_FORBIDDEN
            && !r.1.success && r.1.duration_ns == 0,
        spec_authorized(claim.holder(), header_view(header)) && !registry.spec_contains(
            request.benchmark_id@,
        ) ==> ({
            &&& r.0 == STATUS_NOT_FOUND
            &&& !r.1.success
            &&& r.1.duration_ns == 0
            &&& r.1.error matches Some(e) && e@ =~= "Benchmark '"@ + request.benchmark_id@
                + "' not found"@
        }),
        spec_authorized(claim.holder(), header_view(header)) && registry.spec_contains(
            request.benchmark_id@,
        ) ==> r.0 == STATUS_OK && r.1.success && r.1.error is None,
{
    if !claim.authorized(header) {
        return (
            STATUS_FORBIDDEN,
            RunIterationResponse::failure("harness is claimed".to_owned()),
        );
    }
    match registry.run(request.benchmark_id.as_str()) {
        Some(duration_ns) => (STATUS_OK, RunIterationResponse::success(duration_ns)),
        None => {
            let mut message = "Benchmark '".to_owned();
            message.append(request.benchmark_id.as_str());
            message.append("' not found");
            (STATUS_NOT_FOUND, RunIterationResponse::failure(message))
        },
    }
}

/// The shutdown endpoint: an authorized request sets the latch and is
/// acknowledged; an unauthorized one changes nothing.
pub fn shutdown_endpoint(
    claim: &ClaimState,
    header: Option<&str>,
    latch: &mut ShutdownLatch,
) -> (r: (u16, Option<ShutdownResponse>))
    ensures
        spec_authorized(claim.holder(), header_view(header)) ==> ({
            &&& r.0 == STATUS_OK
            &&& final(latch).is_requested()
            &&& r.1 matches Some(body) && body.status@ == "shutting_down"@
        }),
        !spec_authorized(claim.holder(), header_view(header)) ==> r.0 == STATUS_FORBIDDEN
            && r.1 is None && *final(latch) == *old(latch),
{
    if !claim.authorized(header) {
        return (STATUS_FORBIDDEN, None);
    }
    latch.request();
    (STATUS_OK, Some(ShutdownResponse::acknowledged()))
}

/// Claiming is idempotent: a claim against an unclaimed harness and a
/// repeated claim with the same nonce both succeed with status 200 and
/// leave that nonce as the holder.
pub proof fn lemma_claim_idempotent(nonce: Seq<char>)
    ensures
        spec_claim_transition(None, nonce) == (Some(nonce), STATUS_OK),
        spec_claim_transition(Some(nonce), nonce) == (Some(nonce), STATUS_OK),
{
}

/// Mutual exclusion: while a harness is claimed, a request without the
/// claim header, or with a header naming any other nonce, is not
/// authorized — so the run endpoint answers 403 and never reaches the
/// benchmark.
pub proof fn lemma_mutual_exclusion(holder_nonce: Seq<char>, header: Option<Seq<char>>)
    requires
        header != Some(holder_nonce),
    ensures
        !spec_authorized(Some(holder_nonce), header),
{
}

} // verus!
