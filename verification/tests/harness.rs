use criterion_hypothesis::harness::{
    health_endpoint, list_endpoint, run_endpoint, shutdown_endpoint, ClaimState, ShutdownLatch,
    STATUS_BAD_REQUEST, STATUS_CONFLICT, STATUS_FORBIDDEN, STATUS_NOT_FOUND, STATUS_OK,
};
use criterion_hypothesis::protocol::RunIterationRequest;
use criterion_hypothesis::registry::{BenchmarkFn, BenchmarkRegistry};

struct ConstBench {
    duration_ns: u64,
}

impl BenchmarkFn for ConstBench {
    fn measure(&self) -> u64 {
        self.duration_ns
    }
}

fn test_registry() -> BenchmarkRegistry<ConstBench> {
    let mut registry = BenchmarkRegistry::new();
    registry.register("test_bench".to_string(), ConstBench { duration_ns: 42_000_000 });
    registry
}

#[test]
fn test_health_endpoint_always_ok() {
    let (status, body) = health_endpoint();
    assert_eq!(status, STATUS_OK);
    assert_eq!(body.status, "healthy");
}

#[test]
fn test_claim_idempotent() {
    // Claiming an unclaimed harness succeeds with 200, and claiming
    // again with the same nonce succeeds with 200 again.
    let mut claim = ClaimState::new();

    let (status, body) = claim.claim("nonce-a".to_string());
    assert_eq!(status, STATUS_OK);
    assert!(body.success);

    let (status, body) = claim.claim("nonce-a".to_string());
    assert_eq!(status, STATUS_OK);
    assert!(body.success);
}

#[test]
fn test_claim_conflict() {
    // Two orchestrators attempt to claim with different nonces: the
    // first succeeds, the second receives 409 with "already claimed".
    let mut claim = ClaimState::new();

    let (status, body) = claim.claim("orchestrator-one".to_string());
    assert_eq!(status, STATUS_OK);
    assert!(body.success);

    let (status, body) = claim.claim("orchestrator-two".to_string());
    assert_eq!(status, STATUS_CONFLICT);
    assert!(!body.success);
    assert_eq!(body.error, Some("already claimed".to_string()));
}

#[test]
fn test_release_with_holder_nonce() {
    let mut claim = ClaimState::new();
    claim.claim("nonce-a".to_string());

    let (status, body) = claim.release("nonce-a");
    assert_eq!(status, STATUS_OK);
    assert!(body.success);

    // Released: a different orchestrator may now claim.
    let (status, body) = claim.claim("nonce-b".to_string());
    assert_eq!(status, STATUS_OK);
    assert!(body.success);
}

#[test]
fn test_release_with_wrong_nonce() {
    let mut claim = ClaimState::new();
    claim.claim("nonce-a".to_string());

    let (status, body) = claim.release("nonce-b");
    assert_eq!(status, STATUS_BAD_REQUEST);
    assert!(!body.success);

    // The claim is still held: another nonce is rejected.
    let (status, _) = claim.claim("nonce-b".to_string());
    assert_eq!(status, STATUS_CONFLICT);
}

#[test]
fn test_release_when_unclaimed() {
    let mut claim = ClaimState::new();
    let (status, body) = claim.release("nonce-a");
    assert_eq!(status, STATUS_BAD_REQUEST);
    assert!(!body.success);
}

#[test]
fn test_run_requires_claim_header() {
    // Under a claim, /run without the header or with a wrong header is
    // rejected with 403 and the benchmark does not run.
    let registry = test_registry();
    let mut claim = ClaimState::new();
    claim.claim("the-nonce".to_string());

    let request = RunIterationRequest::new("test_bench".to_string());

    let (status, body) = run_endpoint(&registry, &claim, None, &request);
    assert_eq!(status, STATUS_FORBIDDEN);
    assert!(!body.success);
    assert_eq!(body.duration_ns, 0);

    let (status, body) = run_endpoint(&registry, &claim, Some("wrong"), &request);
    assert_eq!(status, STATUS_FORBIDDEN);
    assert!(!body.success);
    assert_eq!(body.duration_ns, 0);

    let (status, body) = run_endpoint(&registry, &claim, Some("the-nonce"), &request);
    assert_eq!(status, STATUS_OK);
    assert!(body.success);
    assert_eq!(body.duration_ns, 42_000_000);
}

#[test]
fn test_run_unknown_benchmark() {
    // An unknown id yields 404, success false, and an error message
    // naming the id.
    let registry = test_registry();
    let claim = ClaimState::new();
    let request = RunIterationRequest::new("nonexistent".to_string());

    let (status, body) = run_endpoint(&registry, &claim, None, &request);
    assert_eq!(status, STATUS_NOT_FOUND);
    assert!(!body.success);
    assert_eq!(body.duration_ns, 0);
    let error = body.error.unwrap();
    assert!(error.contains("nonexistent"));
}

#[test]
fn test_run_when_unclaimed() {
    let registry = test_registry();
    let claim = ClaimState::new();
    let request = RunIterationRequest::new("test_bench".to_string());

    let (status, body) = run_endpoint(&registry, &claim, None, &request);
    assert_eq!(status, STATUS_OK);
    assert!(body.success);
    assert_eq!(body.duration_ns, 42_000_000);
}

#[test]
fn test_list_endpoint_gated_by_claim() {
    let registry = test_registry();
    let mut claim = ClaimState::new();

    let (status, body) = list_endpoint(&registry, &claim, None);
    assert_eq!(status, STATUS_OK);
    let names = body.unwrap().benchmarks;
    assert_eq!(names, vec!["test_bench".to_string()]);

    claim.claim("n".to_string());
    let (status, body) = list_endpoint(&registry, &claim, None);
    assert_eq!(status, STATUS_FORBIDDEN);
    assert!(body.is_none());

    let (status, body) = list_endpoint(&registry, &claim, Some("n"));
    assert_eq!(status, STATUS_OK);
    assert!(body.is_some());
}

#[test]
fn test_shutdown_latch_one_shot() {
    let claim = ClaimState::new();
    let mut latch = ShutdownLatch::new();
    assert!(!latch.requested());

    let (status, body) = shutdown_endpoint(&claim, None, &mut latch);
    assert_eq!(status, STATUS_OK);
    assert_eq!(body.unwrap().status, "shutting_down");
    assert!(latch.requested());

    // Redundant requests are harmless: the latch stays set.
    let (status, _) = shutdown_endpoint(&claim, None, &mut latch);
    assert_eq!(status, STATUS_OK);
    assert!(latch.requested());
}

#[test]
fn test_shutdown_gated_by_claim() {
    let mut claim = ClaimState::new();
    claim.claim("n".to_string());
    let mut latch = ShutdownLatch::new();

    let (status, body) = shutdown_endpoint(&claim, Some("other"), &mut latch);
    assert_eq!(status, STATUS_FORBIDDEN);
    assert!(body.is_none());
    assert!(!latch.requested());
}
