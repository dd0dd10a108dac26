use criterion_hypothesis::config::{apply_overrides, Config, ConfigOverrides};

#[test]
fn test_default_config() {
    let config = Config::default();

    assert_eq!(config.hypothesis.confidence_ppm, 950_000);
    assert_eq!(config.hypothesis.minimum_effect_centipct, 100);
    assert_eq!(config.orchestration.interleave_interval_ms, 100);
    assert_eq!(config.orchestration.warmup_iterations, 3);
    assert_eq!(config.orchestration.sample_size, 100);
    assert_eq!(config.build.profile, "release");
    assert!(config.build.cargo_flags.is_empty());
    assert!(config.build.bench_targets.is_empty());
    assert_eq!(config.network.base_port, 9100);
    assert_eq!(config.network.harness_timeout_ms, 30_000);
}

#[test]
fn test_apply_to_config_with_overrides() {
    let overrides = ConfigOverrides {
        confidence_ppm: Some(990_000),
        sample_size: Some(200),
        warmup_iterations: Some(20),
    };

    let mut config = Config::default();
    apply_overrides(&mut config, &overrides);

    assert_eq!(config.hypothesis.confidence_ppm, 990_000);
    assert_eq!(config.orchestration.sample_size, 200);
    assert_eq!(config.orchestration.warmup_iterations, 20);
}

#[test]
fn test_apply_to_config_without_overrides() {
    let overrides =
        ConfigOverrides { confidence_ppm: None, sample_size: None, warmup_iterations: None };

    let mut config = Config::default();
    let original_confidence = config.hypothesis.confidence_ppm;
    let original_sample_size = config.orchestration.sample_size;
    let original_warmup = config.orchestration.warmup_iterations;

    apply_overrides(&mut config, &overrides);

    // Values should remain unchanged
    assert_eq!(config.hypothesis.confidence_ppm, original_confidence);
    assert_eq!(config.orchestration.sample_size, original_sample_size);
    assert_eq!(config.orchestration.warmup_iterations, original_warmup);
}

#[test]
fn test_apply_to_config_partial_overrides() {
    let overrides = ConfigOverrides {
        confidence_ppm: Some(900_000),
        sample_size: None,
        warmup_iterations: Some(5),
    };

    let mut config = Config::default();
    apply_overrides(&mut config, &overrides);

    // Only specified values should be overridden
    assert_eq!(config.hypothesis.confidence_ppm, 900_000);
    assert_eq!(config.orchestration.sample_size, 100);
    assert_eq!(config.orchestration.warmup_iterations, 5);
}
