use criterion_hypothesis::builder::BuildManager;
use criterion_hypothesis::report::{
    summarize, verdict_of, verdict_token, TerminalReporter, Verdict,
};
use criterion_hypothesis::source::GitWorktreeProvider;
use criterion_hypothesis::stats::{EffectSize, MeanNs, Side, TestResult};

#[test]
fn test_build_manager_new() {
    let manager =
        BuildManager::new("release".to_string(), vec!["--features".to_string(), "test".to_string()]);
    assert_eq!(manager.profile, "release");
    assert_eq!(manager.cargo_flags, vec!["--features", "test"]);
}

#[test]
fn test_target_dir_name() {
    let release = BuildManager::new("release".to_string(), vec![]);
    assert_eq!(release.target_dir_name(), "release");

    let dev = BuildManager::new("dev".to_string(), vec![]);
    assert_eq!(dev.target_dir_name(), "debug");

    let bench = BuildManager::new("bench".to_string(), vec![]);
    assert_eq!(bench.target_dir_name(), "bench");
}

#[test]
fn test_is_benchmark_binary_name() {
    let manager = BuildManager::new("release".to_string(), vec![]);

    assert!(manager.is_benchmark_binary_name("my_benchmark-abc123"));
    assert!(!manager.is_benchmark_binary_name("my_benchmark-abc123.d"));
    assert!(!manager.is_benchmark_binary_name("my_benchmark-abc123.rmeta"));
    assert!(!manager.is_benchmark_binary_name("libmy_bench.rlib"));
    assert!(!manager.is_benchmark_binary_name("my_test-abc123"));
}

#[test]
fn test_worktree_paths() {
    let provider = GitWorktreeProvider::with_repo_root("/test/repo".to_string());

    assert_eq!(provider.worktree_base(), "/test/repo/.criterion-hypothesis");
    assert_eq!(provider.baseline_path(), "/test/repo/.criterion-hypothesis/baseline");
    assert_eq!(provider.candidate_path(), "/test/repo/.criterion-hypothesis/candidate");
}

fn make_result(significant: bool, winner: Option<Side>) -> TestResult {
    TestResult {
        p_ppm: if significant { 1_000 } else { 500_000 },
        statistically_significant: significant,
        effect_size: EffectSize { negative: false, num: 0, den: 1 },
        confidence_ppm: 950_000,
        winner,
        baseline_mean: MeanNs { sum_ns: 1_000, count: 1 },
        candidate_mean: MeanNs { sum_ns: 1_000, count: 1 },
    }
}

#[test]
fn test_verdict_tokens() {
    assert_eq!(verdict_of(&make_result(true, Some(Side::Candidate))), Verdict::Faster);
    assert_eq!(verdict_of(&make_result(true, Some(Side::Baseline))), Verdict::Slower);
    assert_eq!(verdict_of(&make_result(false, None)), Verdict::Inconclusive);

    assert_eq!(verdict_token(Verdict::Faster), "faster");
    assert_eq!(verdict_token(Verdict::Slower), "slower");
    assert_eq!(verdict_token(Verdict::Inconclusive), "inconclusive");
}

#[test]
fn test_summary_counts() {
    let results = vec![
        make_result(true, Some(Side::Candidate)),
        make_result(true, Some(Side::Baseline)),
        make_result(false, None),
    ];
    let counts = summarize(&results);
    assert_eq!(counts.faster, 1);
    assert_eq!(counts.slower, 1);
    assert_eq!(counts.inconclusive, 1);
}

#[test]
fn test_reporter_color_switch() {
    assert!(TerminalReporter::new().use_colors);
    assert!(!TerminalReporter::without_colors().use_colors);
}
