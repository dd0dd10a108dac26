use criterion_hypothesis::orchestrator::{
    claim_decision, health_decision, make_claim_request, normalize_base_url, readiness_step,
    run_response_decision, validate_benchmark_sets, BenchmarkSamples, Orchestrator,
    OrchestratorError, PollOutcome, SamplingState, TeardownAction, TeardownPlan,
};
use criterion_hypothesis::protocol::{ClaimResponse, HealthResponse, RunIterationResponse};
use criterion_hypothesis::stats::{AnalysisOutcome, Side, WelchTTest};

#[test]
fn test_benchmark_samples_new() {
    let samples = BenchmarkSamples::new("test_benchmark".to_string());
    assert_eq!(samples.name, "test_benchmark");
    assert!(samples.baseline_samples.is_empty());
    assert!(samples.candidate_samples.is_empty());
}

#[test]
fn test_benchmark_samples_add() {
    let mut samples = BenchmarkSamples::new("test".to_string());

    samples.add_baseline(100_000);
    samples.add_baseline(110_000);
    samples.add_candidate(95_000);
    samples.add_candidate(105_000);

    assert_eq!(samples.baseline_samples.len(), 2);
    assert_eq!(samples.candidate_samples.len(), 2);
    assert_eq!(samples.baseline_samples[0], 100_000);
    assert_eq!(samples.candidate_samples[1], 105_000);
}

#[test]
fn test_orchestrator_new() {
    let orchestrator = Orchestrator::new(
        "/path/to/baseline".to_string(),
        "/path/to/candidate".to_string(),
        9100,
        30_000,
        3,
        100,
        100,
        false,
    );

    assert_eq!(orchestrator.base_port, 9100);
    assert!(!orchestrator.show_output);
    assert_eq!(orchestrator.warmup_iterations, 3);
    assert_eq!(orchestrator.sample_size, 100);
    assert_eq!(orchestrator.candidate_port(), 9101);
}

#[test]
fn test_harness_handle_connect_validation() {
    // Valid URLs should work
    assert!(normalize_base_url("http://localhost:9100").is_ok());
    assert!(normalize_base_url("https://localhost:9100").is_ok());
    assert!(normalize_base_url("http://127.0.0.1:9100").is_ok());

    // Invalid URLs should fail
    let result = normalize_base_url("localhost:9100");
    assert!(matches!(result, Err(OrchestratorError::InvalidUrl(_))));

    let result = normalize_base_url("not-a-url");
    assert!(matches!(result, Err(OrchestratorError::InvalidUrl(_))));

    let result = normalize_base_url("ftp://localhost:9100");
    assert!(matches!(result, Err(OrchestratorError::InvalidUrl(_))));
}

#[test]
fn test_harness_handle_trailing_slash() {
    let url = normalize_base_url("http://localhost:9100/").unwrap();
    assert_eq!(url, "http://localhost:9100");
}

#[test]
fn test_orchestrator_error_display() {
    let err = OrchestratorError::SpawnError("test error".to_string());
    assert_eq!(err.message(), "Failed to spawn harness: test error");

    let err = OrchestratorError::TimeoutError {
        url: "http://localhost:9100".to_string(),
        timeout_secs: 30,
        last_error: "connection refused".to_string(),
    };
    assert!(err.message().contains("not ready after"));
    assert!(err.message().contains("30s timeout"));
    assert!(err.message().contains("connection refused"));

    let err = OrchestratorError::BenchmarkMismatch {
        baseline: vec!["a".to_string(), "b".to_string()],
        candidate: vec!["a".to_string(), "c".to_string()],
    };
    assert!(err.message().contains("Benchmark mismatch"));

    let err = OrchestratorError::BenchmarkNotFound("missing".to_string());
    assert_eq!(err.message(), "Benchmark not found: missing");

    let err = OrchestratorError::HarnessError("crash".to_string());
    assert_eq!(err.message(), "Harness error: crash");

    let err = OrchestratorError::InvalidUrl("bad-url".to_string());
    assert_eq!(err.message(), "Invalid URL: bad-url");
}

#[test]
fn test_validate_matching_benchmark_sets() {
    // Order does not matter.
    let baseline = vec!["b".to_string(), "a".to_string()];
    let candidate = vec!["a".to_string(), "b".to_string()];
    assert!(validate_benchmark_sets(&baseline, &candidate).is_ok());
}

#[test]
fn test_benchmark_set_mismatch() {
    // Baseline exposes bench_a, candidate exposes bench_b: the
    // comparison fails with a mismatch carrying both raw lists.
    let baseline = vec!["bench_a".to_string()];
    let candidate = vec!["bench_b".to_string()];

    let result = validate_benchmark_sets(&baseline, &candidate);
    match result {
        Err(OrchestratorError::BenchmarkMismatch { baseline: b, candidate: c }) => {
            assert_eq!(b, vec!["bench_a".to_string()]);
            assert_eq!(c, vec!["bench_b".to_string()]);
            let err = OrchestratorError::BenchmarkMismatch { baseline: b, candidate: c };
            assert!(err.message().contains("Benchmark mismatch"));
        }
        other => panic!("expected a benchmark mismatch, got {:?}", other),
    }
}

#[test]
fn test_benchmark_set_multiplicity_matters() {
    let baseline = vec!["a".to_string(), "a".to_string(), "b".to_string()];
    let candidate = vec!["a".to_string(), "b".to_string(), "b".to_string()];
    assert!(validate_benchmark_sets(&baseline, &candidate).is_err());
}

#[test]
fn test_health_decision() {
    assert!(health_decision(&HealthResponse::healthy()).is_ok());
    let sick = HealthResponse { status: "starting".to_string() };
    assert!(matches!(health_decision(&sick), Err(OrchestratorError::HarnessError(_))));
}

#[test]
fn test_claim_decision() {
    assert!(claim_decision(&ClaimResponse::granted()).is_ok());
    let refused = ClaimResponse::already_claimed();
    match claim_decision(&refused) {
        Err(OrchestratorError::ClaimError(msg)) => assert_eq!(msg, "already claimed"),
        other => panic!("expected a claim error, got {:?}", other),
    }
}

#[test]
fn test_run_response_decision() {
    let ok = RunIterationResponse::success(1234);
    assert_eq!(run_response_decision(&ok).unwrap(), 1234);

    let failed = RunIterationResponse::failure("benchmark panicked".to_string());
    match run_response_decision(&failed) {
        Err(OrchestratorError::HarnessError(msg)) => assert_eq!(msg, "benchmark panicked"),
        other => panic!("expected a harness error, got {:?}", other),
    }
}

#[test]
fn test_readiness_step() {
    assert_eq!(readiness_step(true, 0, 1000), PollOutcome::Ready);
    assert_eq!(readiness_step(false, 500, 1000), PollOutcome::Retry);
    assert_eq!(readiness_step(false, 1000, 1000), PollOutcome::TimedOut);
}

#[test]
fn test_make_claim_request_nonce_is_fresh() {
    let first = make_claim_request();
    let second = make_claim_request();
    assert_eq!(first.nonce.len(), 36);
    assert_eq!(second.nonce.len(), 36);
    assert_ne!(first.nonce, second.nonce);
}

/// Drive a sampling schedule to completion, answering every baseline run
/// with one duration and every candidate run with another.
fn drive_schedule(
    name: &str,
    warmup: u32,
    sample_size: u32,
    baseline_ns: u64,
    candidate_ns: u64,
) -> BenchmarkSamples {
    let mut state = SamplingState::new(name.to_string(), warmup, sample_size);
    let mut rounds = 0;
    while let Some(side) = state.next_side() {
        let duration = match side {
            Side::Baseline => baseline_ns,
            Side::Candidate => candidate_ns,
        };
        state.record(duration);
        rounds += 1;
        assert!(rounds <= 2 * (warmup + sample_size), "schedule does not terminate");
    }
    state.into_samples()
}

#[test]
fn test_full_interleaved_run() {
    // Baseline takes 1000 microseconds per iteration, candidate 500;
    // warmup 2, sample size 10.  Each vector ends up with exactly 10
    // samples, the baseline mean is larger, and the candidate wins.
    let samples = drive_schedule("test_bench", 2, 10, 1_000_000, 500_000);

    assert_eq!(samples.name, "test_bench");
    assert_eq!(samples.baseline_samples.len(), 10);
    assert_eq!(samples.candidate_samples.len(), 10);

    let baseline_sum: u64 = samples.baseline_samples.iter().sum();
    let candidate_sum: u64 = samples.candidate_samples.iter().sum();
    assert!(baseline_sum > candidate_sum);

    let test = WelchTTest::default();
    let outcome = test.analyze(&samples.baseline_samples, &samples.candidate_samples);
    match outcome {
        AnalysisOutcome::Decided(result) => {
            assert_eq!(result.winner, Some(Side::Candidate));
        }
        AnalysisOutcome::NeedsPValue => panic!("constant vectors decide exactly"),
    }
}

#[test]
fn test_sampling_without_warmup() {
    let samples = drive_schedule("b", 0, 3, 10, 20);
    assert_eq!(samples.baseline_samples.len(), 3);
    assert_eq!(samples.candidate_samples.len(), 3);
}

#[test]
fn test_sampling_alternates_baseline_first() {
    let mut state = SamplingState::new("b".to_string(), 1, 2);
    // Warmup round: baseline first, then candidate, nothing recorded.
    assert_eq!(state.next_side(), Some(Side::Baseline));
    state.record(1);
    assert_eq!(state.next_side(), Some(Side::Candidate));
    state.record(2);
    // Measured rounds: baseline first in every round.
    assert_eq!(state.next_side(), Some(Side::Baseline));
    state.record(3);
    assert_eq!(state.next_side(), Some(Side::Candidate));
    state.record(4);
    assert_eq!(state.next_side(), Some(Side::Baseline));
    state.record(5);
    assert_eq!(state.next_side(), Some(Side::Candidate));
    state.record(6);
    assert_eq!(state.next_side(), None);

    let samples = state.into_samples();
    assert_eq!(samples.baseline_samples, vec![3, 5]);
    assert_eq!(samples.candidate_samples, vec![4, 6]);
}

#[test]
fn test_teardown_order_managed() {
    let mut plan = TeardownPlan::new(true);
    let mut actions = Vec::new();
    while let Some(action) = plan.next_action() {
        actions.push(action);
        plan.advance();
    }
    assert_eq!(
        actions,
        vec![TeardownAction::Release, TeardownAction::Shutdown, TeardownAction::Kill]
    );
}

#[test]
fn test_teardown_order_remote() {
    let mut plan = TeardownPlan::new(false);
    let mut actions = Vec::new();
    while let Some(action) = plan.next_action() {
        actions.push(action);
        plan.advance();
    }
    // A remote harness outlives the orchestrator: only the claim is
    // released, and no shutdown or kill is ever offered.
    assert_eq!(actions, vec![TeardownAction::Release]);
}
