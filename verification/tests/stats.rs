use criterion_hypothesis::stats::{AnalysisOutcome, EffectSize, Side, TestResult, WelchTTest, PPM};
use statrs::distribution::{ContinuousCDF, StudentsT};

/// Compute the two-tailed Welch p-value for two sample vectors, in parts
/// per million, the way the surrounding application does it.
fn welch_p_ppm(baseline: &[u64], candidate: &[u64]) -> u32 {
    let n1 = baseline.len() as f64;
    let n2 = candidate.len() as f64;
    let mean1: f64 = baseline.iter().map(|&d| d as f64).sum::<f64>() / n1;
    let mean2: f64 = candidate.iter().map(|&d| d as f64).sum::<f64>() / n2;
    let var1: f64 =
        baseline.iter().map(|&d| (d as f64 - mean1).powi(2)).sum::<f64>() / (n1 - 1.0);
    let var2: f64 =
        candidate.iter().map(|&d| (d as f64 - mean2).powi(2)).sum::<f64>() / (n2 - 1.0);
    let se = (var1 / n1 + var2 / n2).sqrt();
    let t = (mean1 - mean2) / se;
    let s1 = var1 / n1;
    let s2 = var2 / n2;
    let df = (s1 + s2).powi(2) / (s1.powi(2) / (n1 - 1.0) + s2.powi(2) / (n2 - 1.0));
    let p = match StudentsT::new(0.0, 1.0, df) {
        Ok(dist) => 2.0 * (1.0 - dist.cdf(t.abs())),
        Err(_) => 1.0,
    };
    (p.clamp(0.0, 1.0) * 1_000_000.0) as u32
}

/// Run the whole analysis: the exact phase, and the p-value phase when
/// the verdict needs one.
fn analyze_full(test: &WelchTTest, baseline: &Vec<u64>, candidate: &Vec<u64>) -> TestResult {
    match test.analyze(baseline, candidate) {
        AnalysisOutcome::Decided(result) => result,
        AnalysisOutcome::NeedsPValue => {
            let p_ppm = welch_p_ppm(baseline, candidate);
            test.analyze_with_p(baseline, candidate, p_ppm)
        }
    }
}

/// The effect size as a percentage, positive when the candidate is
/// faster.
fn effect_percent(e: &EffectSize) -> f64 {
    let magnitude = 100.0 * (e.num as f64) / (e.den as f64);
    if e.negative { -magnitude } else { magnitude }
}

#[test]
fn ttest_test_identical_samples() {
    let test = WelchTTest::default();
    let baseline: Vec<u64> = vec![100, 100, 100, 100, 100];
    let candidate: Vec<u64> = vec![100, 100, 100, 100, 100];

    let result = analyze_full(&test, &baseline, &candidate);

    assert!(!result.statistically_significant);
    assert!(result.winner.is_none());
    assert_eq!(effect_percent(&result.effect_size), 0.0);
}

#[test]
fn test_clearly_different_samples() {
    let test = WelchTTest::default();
    // Baseline is much slower (higher values)
    let baseline: Vec<u64> = vec![1000, 1001, 1002, 999, 1000];
    // Candidate is much faster (lower values)
    let candidate: Vec<u64> = vec![100, 101, 102, 99, 100];

    let result = analyze_full(&test, &baseline, &candidate);

    assert!(result.statistically_significant);
    assert_eq!(result.winner, Some(Side::Candidate));
    assert!(effect_percent(&result.effect_size) > 0.0);
    assert!(result.p_ppm < 50_000);
}

#[test]
fn test_candidate_slower() {
    let test = WelchTTest::default();
    // Baseline is faster
    let baseline: Vec<u64> = vec![100, 101, 102, 99, 100];
    // Candidate is slower
    let candidate: Vec<u64> = vec![1000, 1001, 1002, 999, 1000];

    let result = analyze_full(&test, &baseline, &candidate);

    assert!(result.statistically_significant);
    assert_eq!(result.winner, Some(Side::Baseline));
    assert!(effect_percent(&result.effect_size) < 0.0);
}

#[test]
fn ttest_test_insufficient_samples() {
    let test = WelchTTest::default();
    let baseline: Vec<u64> = vec![100];
    let candidate: Vec<u64> = vec![200];

    let result = analyze_full(&test, &baseline, &candidate);

    assert!(!result.statistically_significant);
    assert!(result.winner.is_none());
    assert_eq!(result.p_ppm, PPM);
}

#[test]
fn ttest_test_custom_confidence_level() {
    let test = WelchTTest::new(990_000);
    assert_eq!(test.confidence_ppm, 990_000);
}

#[test]
fn ttest_test_effect_size_calculation() {
    let test = WelchTTest::default();
    // 50% improvement: baseline=200, candidate=100
    let baseline: Vec<u64> = vec![200, 200, 200, 200, 200];
    let candidate: Vec<u64> = vec![100, 100, 100, 100, 100];

    let result = analyze_full(&test, &baseline, &candidate);

    // Effect size should be approximately 50% (candidate 50% faster)
    assert!((effect_percent(&result.effect_size) - 50.0).abs() < 0.1);
}

#[test]
fn integration_test_identical_samples() {
    let test = WelchTTest::default();
    let baseline: Vec<u64> = vec![1000, 1000, 1000, 1000, 1000];
    let candidate: Vec<u64> = vec![1000, 1000, 1000, 1000, 1000];

    let result = analyze_full(&test, &baseline, &candidate);

    assert!(!result.statistically_significant);
    assert!(result.winner.is_none());
    assert_eq!(effect_percent(&result.effect_size), 0.0);
}

#[test]
fn test_clearly_different_samples_candidate_faster() {
    let test = WelchTTest::default();
    let baseline: Vec<u64> = vec![10000, 10100, 10200, 9900, 10000];
    let candidate: Vec<u64> = vec![1000, 1010, 1020, 990, 1000];

    let result = analyze_full(&test, &baseline, &candidate);

    assert!(result.statistically_significant);
    assert_eq!(result.winner, Some(Side::Candidate));
    assert!(effect_percent(&result.effect_size) > 0.0);
    assert!(result.p_ppm < 50_000);
}

#[test]
fn test_clearly_different_samples_candidate_slower() {
    let test = WelchTTest::default();
    let baseline: Vec<u64> = vec![1000, 1010, 1020, 990, 1000];
    let candidate: Vec<u64> = vec![10000, 10100, 10200, 9900, 10000];

    let result = analyze_full(&test, &baseline, &candidate);

    assert!(result.statistically_significant);
    assert_eq!(result.winner, Some(Side::Baseline));
    assert!(effect_percent(&result.effect_size) < 0.0);
}

#[test]
fn integration_test_insufficient_samples() {
    let test = WelchTTest::default();
    let baseline: Vec<u64> = vec![1000];
    let candidate: Vec<u64> = vec![2000];

    let result = analyze_full(&test, &baseline, &candidate);

    assert!(!result.statistically_significant);
    assert!(result.winner.is_none());
    assert_eq!(result.p_ppm, PPM);
}

#[test]
fn integration_test_custom_confidence_level() {
    let test = WelchTTest::new(990_000);
    assert_eq!(test.confidence_ppm, 990_000);
}

#[test]
fn integration_test_effect_size_calculation() {
    let test = WelchTTest::default();
    let baseline: Vec<u64> = vec![2000, 2000, 2000, 2000, 2000];
    let candidate: Vec<u64> = vec![1000, 1000, 1000, 1000, 1000];

    let result = analyze_full(&test, &baseline, &candidate);

    assert!((effect_percent(&result.effect_size) - 50.0).abs() < 0.1);
}

#[test]
fn test_candidate_much_faster_scenario() {
    // Baseline constant 10000 ns, candidate constant 1000 ns, n = 5.
    let test = WelchTTest::default();
    let baseline: Vec<u64> = vec![10_000; 5];
    let candidate: Vec<u64> = vec![1_000; 5];

    let result = analyze_full(&test, &baseline, &candidate);

    assert!(result.statistically_significant);
    assert_eq!(result.winner, Some(Side::Candidate));
    assert!((effect_percent(&result.effect_size) - 90.0).abs() < 0.1);
}

#[test]
fn test_candidate_slower_scenario() {
    // Baseline constant 1000 ns, candidate constant 10000 ns, n = 5.
    let test = WelchTTest::default();
    let baseline: Vec<u64> = vec![1_000; 5];
    let candidate: Vec<u64> = vec![10_000; 5];

    let result = analyze_full(&test, &baseline, &candidate);

    assert!(result.statistically_significant);
    assert_eq!(result.winner, Some(Side::Baseline));
    assert!((effect_percent(&result.effect_size) + 900.0).abs() < 0.1);
}

#[test]
fn test_zero_variance_equal_means() {
    // Both variances zero, equal means: p = 1, no winner.
    let test = WelchTTest::default();
    let baseline: Vec<u64> = vec![500, 500, 500];
    let candidate: Vec<u64> = vec![500, 500, 500];

    let result = analyze_full(&test, &baseline, &candidate);

    assert_eq!(result.p_ppm, PPM);
    assert!(!result.statistically_significant);
    assert!(result.winner.is_none());
}

#[test]
fn test_zero_variance_unequal_means() {
    // Both variances zero, unequal means: p = 0, winner by faster mean.
    let test = WelchTTest::default();
    let baseline: Vec<u64> = vec![800, 800, 800];
    let candidate: Vec<u64> = vec![700, 700, 700];

    let result = analyze_full(&test, &baseline, &candidate);

    assert_eq!(result.p_ppm, 0);
    assert!(result.statistically_significant);
    assert_eq!(result.winner, Some(Side::Candidate));
}

#[test]
fn test_winner_implies_significant_and_p_below_alpha() {
    // Whenever a winner is declared, the result is significant and the
    // p-value lies below 1 - confidence.
    let test = WelchTTest::new(990_000);
    let baseline: Vec<u64> = vec![10_000; 5];
    let candidate: Vec<u64> = vec![1_000; 5];

    let result = analyze_full(&test, &baseline, &candidate);

    assert!(result.winner.is_some());
    assert!(result.statistically_significant);
    assert!(result.p_ppm < PPM - result.confidence_ppm);
}

#[test]
fn test_means_are_exact() {
    let test = WelchTTest::default();
    let baseline: Vec<u64> = vec![100, 200, 300];
    let candidate: Vec<u64> = vec![400, 500, 600];

    let result = analyze_full(&test, &baseline, &candidate);

    assert_eq!(result.baseline_mean.sum_ns, 600);
    assert_eq!(result.baseline_mean.count, 3);
    assert_eq!(result.candidate_mean.sum_ns, 1500);
    assert_eq!(result.candidate_mean.count, 3);
}

#[test]
fn test_largest_durations_are_exact() {
    // The exact phase handles the largest representable durations
    // without loss.
    let test = WelchTTest::default();
    let baseline: Vec<u64> = vec![u64::MAX; 5];
    let candidate: Vec<u64> = vec![u64::MAX - 1; 5];

    let result = analyze_full(&test, &baseline, &candidate);

    // Zero variance on both sides and a one-nanosecond difference in
    // means: exactly decided, candidate faster.
    assert_eq!(result.p_ppm, 0);
    assert!(result.statistically_significant);
    assert_eq!(result.winner, Some(Side::Candidate));
    assert_eq!(result.baseline_mean.sum_ns, 5 * (u64::MAX as u128));
    assert_eq!(result.candidate_mean.sum_ns, 5 * (u64::MAX as u128 - 1));
}
