use criterion_hypothesis::json::{
    decode_benchmark_list_response, decode_claim_request, decode_claim_response,
    decode_health_response, decode_release_request, decode_release_response,
    decode_run_iteration_request, decode_run_iteration_response, decode_shutdown_response,
    encode_benchmark_list_response, encode_claim_request, encode_claim_response,
    encode_health_response, encode_release_request, encode_release_response,
    encode_run_iteration_request, encode_run_iteration_response, encode_shutdown_response,
};
use criterion_hypothesis::protocol::{
    BenchmarkListResponse, ClaimRequest, ClaimResponse, HealthResponse, ReleaseRequest,
    ReleaseResponse, RunIterationRequest, RunIterationResponse, ShutdownResponse,
};

#[test]
fn test_health_response_healthy() {
    let response = HealthResponse::healthy();
    assert_eq!(response.status, "healthy");
}

#[test]
fn test_benchmark_list_response() {
    let benchmarks = vec!["bench1".to_string(), "bench2".to_string()];
    let response = BenchmarkListResponse::new(benchmarks.clone());
    assert_eq!(response.benchmarks, benchmarks);
}

#[test]
fn test_run_iteration_request() {
    let request = RunIterationRequest::new("my_benchmark".to_string());
    assert_eq!(request.benchmark_id, "my_benchmark");
}

#[test]
fn test_run_iteration_response_success() {
    // 1500 microseconds in nanoseconds.
    let duration_ns: u64 = 1_500_000;
    let response = RunIterationResponse::success(duration_ns);

    assert!(response.success);
    assert_eq!(response.duration_ns, 1_500_000);
    assert!(response.error.is_none());
    assert_eq!(response.duration(), duration_ns);
}

#[test]
fn test_run_iteration_response_failure() {
    let response = RunIterationResponse::failure("benchmark panicked".to_string());

    assert!(!response.success);
    assert_eq!(response.duration_ns, 0);
    assert_eq!(response.error, Some("benchmark panicked".to_string()));
}

#[test]
fn test_shutdown_response() {
    let response = ShutdownResponse::acknowledged();
    assert_eq!(response.status, "shutting_down");
}

#[test]
fn test_serialization_roundtrip() {
    let response = RunIterationResponse::success(12345);
    let json = encode_run_iteration_response(&response);
    let deserialized = decode_run_iteration_response(&json).unwrap();

    assert_eq!(response.duration_ns, deserialized.duration_ns);
    assert_eq!(response.success, deserialized.success);
    assert_eq!(response.error, deserialized.error);
}

#[test]
fn test_error_field_skipped_when_none() {
    let response = RunIterationResponse::success(100);
    let json = encode_run_iteration_response(&response);

    // The error field should not be present in the JSON
    assert!(!json.contains("error"));
}

#[test]
fn test_health_response_roundtrip() {
    let original = HealthResponse::healthy();
    let json = encode_health_response(&original);
    let deserialized = decode_health_response(&json).unwrap();
    assert_eq!(deserialized.status, "healthy");
}

#[test]
fn test_benchmark_list_response_roundtrip() {
    let original = BenchmarkListResponse::new(vec![
        "bench1".to_string(),
        "bench2".to_string(),
        "bench3".to_string(),
    ]);
    let json = encode_benchmark_list_response(&original);
    let deserialized = decode_benchmark_list_response(&json).unwrap();
    assert_eq!(deserialized.benchmarks.len(), 3);
    assert!(deserialized.benchmarks.contains(&"bench1".to_string()));
}

#[test]
fn test_run_iteration_request_roundtrip() {
    let original = RunIterationRequest::new("my_benchmark".to_string());
    let json = encode_run_iteration_request(&original);
    let deserialized = decode_run_iteration_request(&json).unwrap();
    assert_eq!(deserialized.benchmark_id, "my_benchmark");
}

#[test]
fn test_run_iteration_response_success_roundtrip() {
    // 1234 microseconds in nanoseconds.
    let duration_ns: u64 = 1_234_000;
    let original = RunIterationResponse::success(duration_ns);
    let json = encode_run_iteration_response(&original);
    let deserialized = decode_run_iteration_response(&json).unwrap();

    assert!(deserialized.success);
    assert_eq!(deserialized.duration(), duration_ns);
    assert!(deserialized.error.is_none());
}

#[test]
fn test_run_iteration_response_failure_roundtrip() {
    let original = RunIterationResponse::failure("benchmark panicked".to_string());
    let json = encode_run_iteration_response(&original);
    let deserialized = decode_run_iteration_response(&json).unwrap();

    assert!(!deserialized.success);
    assert_eq!(deserialized.duration_ns, 0);
    assert_eq!(deserialized.error, Some("benchmark panicked".to_string()));
}

#[test]
fn test_shutdown_response_roundtrip() {
    let original = ShutdownResponse::acknowledged();
    let json = encode_shutdown_response(&original);
    let deserialized = decode_shutdown_response(&json).unwrap();
    assert_eq!(deserialized.status, "shutting_down");
}

#[test]
fn test_error_field_omitted_when_none() {
    let response = RunIterationResponse::success(100);
    let json = encode_run_iteration_response(&response);
    assert!(!json.contains("error"));
}

#[test]
fn test_error_field_included_when_some() {
    let response = RunIterationResponse::failure("some error".to_string());
    let json = encode_run_iteration_response(&response);
    assert!(json.contains("error"));
    assert!(json.contains("some error"));
}

#[test]
fn test_claim_request_roundtrip() {
    let original = ClaimRequest::new("nonce-123".to_string());
    let json = encode_claim_request(&original);
    let deserialized = decode_claim_request(&json).unwrap();
    assert_eq!(deserialized.nonce, "nonce-123");
}

#[test]
fn test_claim_response_roundtrip() {
    let granted = ClaimResponse::granted();
    let json = encode_claim_response(&granted);
    let deserialized = decode_claim_response(&json).unwrap();
    assert!(deserialized.success);
    assert!(deserialized.error.is_none());

    let refused = ClaimResponse::already_claimed();
    let json = encode_claim_response(&refused);
    let deserialized = decode_claim_response(&json).unwrap();
    assert!(!deserialized.success);
    assert_eq!(deserialized.error, Some("already claimed".to_string()));
}

#[test]
fn test_release_request_roundtrip() {
    let original = ReleaseRequest::new("nonce-456".to_string());
    let json = encode_release_request(&original);
    let deserialized = decode_release_request(&json).unwrap();
    assert_eq!(deserialized.nonce, "nonce-456");
}

#[test]
fn test_release_response_roundtrip() {
    let original = ReleaseResponse::released();
    let json = encode_release_response(&original);
    let deserialized = decode_release_response(&json).unwrap();
    assert!(deserialized.success);
}

#[test]
fn test_string_escaping_roundtrip() {
    // Quotes, backslashes and control characters must survive the trip.
    let tricky = "a \"quoted\" name with \\ backslash and \t tab \n newline".to_string();
    let original = RunIterationResponse::failure(tricky.clone());
    let json = encode_run_iteration_response(&original);
    let deserialized = decode_run_iteration_response(&json).unwrap();
    assert_eq!(deserialized.error, Some(tricky));
}

#[test]
fn test_encoding_is_wire_compatible_json() {
    // An independent JSON implementation reads the emitted form.
    let original = RunIterationResponse::failure("it \"broke\"\n".to_string());
    let json = encode_run_iteration_response(&original);
    let value: serde_json::Value = serde_json::from_str(&json).unwrap();
    assert_eq!(value["duration_ns"], 0);
    assert_eq!(value["success"], false);
    assert_eq!(value["error"], "it \"broke\"\n");

    let list = BenchmarkListResponse::new(vec!["a".to_string(), "b".to_string()]);
    let json = encode_benchmark_list_response(&list);
    let value: serde_json::Value = serde_json::from_str(&json).unwrap();
    assert_eq!(value["benchmarks"][0], "a");
    assert_eq!(value["benchmarks"][1], "b");
}

#[test]
fn test_decoding_independently_emitted_json() {
    // A body produced by an independent JSON implementation, escapes
    // included, is read back faithfully.
    let mut map = serde_json::Map::new();
    map.insert(
        "benchmark_id".to_string(),
        serde_json::Value::String("group/\"quoted\"\tname".to_string()),
    );
    let json = serde_json::to_string(&serde_json::Value::Object(map)).unwrap();
    let decoded = decode_run_iteration_request(&json).unwrap();
    assert_eq!(decoded.benchmark_id, "group/\"quoted\"\tname");
}

#[test]
fn test_empty_benchmark_list_roundtrip() {
    let original = BenchmarkListResponse::new(Vec::new());
    let json = encode_benchmark_list_response(&original);
    let deserialized = decode_benchmark_list_response(&json).unwrap();
    assert!(deserialized.benchmarks.is_empty());
}

#[test]
fn test_empty_error_message_roundtrip() {
    let original = RunIterationResponse::failure(String::new());
    let json = encode_run_iteration_response(&original);
    let deserialized = decode_run_iteration_response(&json).unwrap();
    assert_eq!(deserialized.error, Some(String::new()));
}

#[test]
fn test_largest_duration_roundtrip() {
    let original = RunIterationResponse::success(u64::MAX);
    let json = encode_run_iteration_response(&original);
    let deserialized = decode_run_iteration_response(&json).unwrap();
    assert_eq!(deserialized.duration_ns, u64::MAX);
}
