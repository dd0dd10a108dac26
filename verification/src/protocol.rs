//! Wire-format definitions for the harness control protocol.
//!
//! Each type mirrors one request or response body of the HTTP protocol the
//! orchestrator speaks with a harness.  Bodies travel as JSON; the verified
//! codec in [`crate::json`] produces and consumes that form.

use vstd::prelude::*;

verus! {

/// Name of the HTTP header that carries the claim nonce on requests that
/// must prove exclusive access.
pub fn claim_header_name() -> (r: &'static str)
    ensures
        r@ == "X-Harness-Claim"@,
{
    "X-Harness-Claim"
}

/// Health check response from the benchmark harness.
#[derive(Debug, Clone)]
pub struct HealthResponse {
    pub status: String,
}

impl HealthResponse {
    /// Create a healthy response.
    pub fn healthy() -> (r: HealthResponse)
        ensures
            r.status@ == "healthy"@,
    {
        HealthResponse { status: "healthy".to_owned() }
    }
}

/// Response containing the list of available benchmarks.
#[derive(Debug, Clone)]
pub struct BenchmarkListResponse {
    pub benchmarks: Vec<String>,
}

impl BenchmarkListResponse {
    /// Create a new benchmark list response.
    pub fn new(benchmarks: Vec<String>) -> (r: BenchmarkListResponse)
        ensures
            r.benchmarks == benchmarks,
    {
        BenchmarkListResponse { benchmarks }
    }
}

/// Request to run a single iteration of a benchmark.
#[derive(Debug, Clone)]
pub struct RunIterationRequest {
    pub benchmark_id: String,
}

impl RunIterationRequest {
    /// Create a new run iteration request.
    pub fn new(benchmark_id: String) -> (r: RunIterationRequest)
        ensures
            r.benchmark_id == benchmark_id,
    {
        RunIterationRequest { benchmark_id }
    }
}

/// Response from running a single benchmark iteration.
#[derive(Debug, Clone)]
pub struct RunIterationResponse {
    /// Duration of the iteration in nanoseconds.
    pub duration_ns: u64,
    /// Whether the iteration completed successfully.
    pub success: bool,
    /// Error message if the iteration failed.  Omitted from the JSON form
    /// when absent.
    pub error: Option<String>,
}

impl RunIterationResponse {
    /// Create a successful iteration response.
    pub fn success(duration_ns: u64) -> (r: RunIterationResponse)
        ensures
            r.duration_ns == duration_ns,
            r.success,
            r.error is None,
    {
        RunIterationResponse { duration_ns, success: true, error: None }
    }

    /// Create a failed iteration response.  A failed iteration carries no
    /// measurement, so its duration is zero.
    pub fn failure(error: String) -> (r: RunIterationResponse)
        ensures
            r.duration_ns == 0,
            !r.success,
            r.error == Some(error),
    {
        RunIterationResponse { duration_ns: 0, success: false, error: Some(error) }
    }

    /// The measured duration in nanoseconds.
    pub fn duration(&self) -> (r: u64)
        ensures
            r == self.duration_ns,
    {
        self.duration_ns
    }
}

/// Response to a shutdown request.
#[derive(Debug, Clone)]
pub struct ShutdownResponse {
    pub status: String,
}

impl ShutdownResponse {
    /// Create a shutdown acknowledgment response.
    pub fn acknowledged() -> (r: ShutdownResponse)
        ensures
            r.status@ == "shutting_down"@,
    {
        ShutdownResponse { status: "shutting_down".to_owned() }
    }
}

/// Request to claim exclusive access to a harness.
#[derive(Debug, Clone)]
pub struct ClaimRequest {
    pub nonce: String,
}

impl ClaimRequest {
    /// Create a new claim request.
    pub fn new(nonce: String) -> (r: ClaimRequest)
        ensures
            r.nonce == nonce,
    {
        ClaimRequest { nonce }
    }
}

/// Response to a claim request.
#[derive(Debug, Clone)]
pub struct ClaimResponse {
    pub success: bool,
    /// Reason for a rejected claim.  Omitted from the JSON form when absent.
    pub error: Option<String>,
}

impl ClaimResponse {
    /// Create a successful claim response.
    pub fn granted() -> (r: ClaimResponse)
        ensures
            r.success,
            r.error is None,
    {
        ClaimResponse { success: true, error: None }
    }

    /// Create the response for a harness already claimed by another
    /// orchestrator.
    pub fn already_claimed() -> (r: ClaimResponse)
        ensures
            !r.success,
            r.error is Some,
            r.error->0@ == "already claimed"@,
    {
        ClaimResponse { success: false, error: Some("already claimed".to_owned()) }
    }
}

/// Request to release a claim on a harness.
#[derive(Debug, Clone)]
pub struct ReleaseRequest {
    pub nonce: String,
}

impl ReleaseRequest {
    /// Create a new release request.
    pub fn new(nonce: String) -> (r: ReleaseRequest)
        ensures
            r.nonce == nonce,
    {
        ReleaseRequest { nonce }
    }
}

/// Response to a release request.
#[derive(Debug, Clone)]
pub struct ReleaseResponse {
    pub success: bool,
}

impl ReleaseResponse {
    /// Create a successful release response.
    pub fn released() -> (r: ReleaseResponse)
        ensures
            r.success,
    {
        ReleaseResponse { success: true }
    }
}

} // verus!
