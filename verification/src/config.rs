//! Configuration of a comparison run, with the documented defaults.
//!
//! Reading a configuration file is an outside concern; this module holds
//! the configuration values themselves and their defaults.  Probabilities
//! are carried in parts per million and effect sizes in hundredths of a
//! percent, as in [`crate::stats`].

use vstd::prelude::*;
use vstd::string::StringExecFns;

verus! {

/// Settings for statistical hypothesis testing.
#[derive(Debug, Clone)]
pub struct HypothesisConfig {
    /// Confidence level for statistical tests, in parts per million
    /// (950_000 for 95% confidence).
    pub confidence_ppm: u32,
    /// Minimum effect size considered practically significant, in
    /// hundredths of a percent.
    pub minimum_effect_centipct: u32,
}

/// Settings for benchmark orchestration.
#[derive(Debug, Clone)]
pub struct OrchestrationConfig {
    /// Interval in milliseconds between interleaved benchmark runs.
    pub interleave_interval_ms: u64,
    /// Number of warmup iterations before collecting measurements.
    pub warmup_iterations: u32,
    /// Number of samples to collect for each benchmark.
    pub sample_size: u32,
}

/// Settings for building benchmark binaries.
#[derive(Debug, Clone)]
pub struct BuildConfig {
    /// Cargo profile to use for building benchmarks.
    pub profile: String,
    /// Additional flags to pass to cargo.
    pub cargo_flags: Vec<String>,
    /// Specific bench targets to build and run; empty builds all.
    pub bench_targets: Vec<String>,
}

/// Network settings for harness communication.
#[derive(Debug, Clone)]
pub struct NetworkConfig {
    /// Base port for harness HTTP servers.
    pub base_port: u16,
    /// Timeout in milliseconds for harness communication.
    pub harness_timeout_ms: u64,
}

/// Top-level configuration.
#[derive(Debug, Clone)]
pub struct Config {
    /// Settings for statistical hypothesis testing.
    pub hypothesis: HypothesisConfig,
    /// Settings for benchmark orchestration.
    pub orchestration: OrchestrationConfig,
    /// Settings for building benchmark binaries.
    pub build: BuildConfig,
    /// Network settings for harness communication.
    pub network: NetworkConfig,
}

impl Default for HypothesisConfig {
    /// 95% confidence, 1% minimum effect size.
    fn default() -> (r: HypothesisConfig)
        ensures
            r.confidence_ppm == 950_000,
            r.minimum_effect_centipct == 100,
    {
        HypothesisConfig { confidence_ppm: 950_000, minimum_effect_centipct: 100 }
    }
}

impl Default for OrchestrationConfig {
    /// 100 ms between runs, 3 warmup iterations, 100 samples.
    fn default() -> (r: OrchestrationConfig)
        ensures
            r.interleave_interval_ms == 100,
            r.warmup_iterations == 3,
            r.sample_size == 100,
    {
        OrchestrationConfig { interleave_interval_ms: 100, warmup_iterations: 3, sample_size: 100 }
    }
}

impl Default for BuildConfig {
    /// The release profile, with no extra flags or targets.
    fn default() -> (r: BuildConfig)
        ensures
            r.profile@ == "release"@,
            r.cargo_flags@ =~= Seq::<String>::empty(),
            r.bench_targets@ =~= Seq::<String>::empty(),
    {
        BuildConfig {
            profile: "release".to_owned(),
            cargo_flags: Vec::new(),
            bench_targets: Vec::new(),
        }
    }
}

impl Default for NetworkConfig {
    /// Port 9100 and a 30 second harness timeout.
    fn default() -> (r: NetworkConfig)
        ensures
            r.base_port == 9100,
            r.harness_timeout_ms == 30_000,
    {
        NetworkConfig { base_port: 9100, harness_timeout_ms: 30_000 }
    }
}

impl Default for Config {
    /// All groups at their defaults.
    fn default() -> (r: Config)
        ensures
            r.hypothesis.confidence_ppm == 950_000,
            r.hypothesis.minimum_effect_centipct == 100,
            r.orchestration.interleave_interval_ms == 100,
            r.orchestration.warmup_iterations == 3,
            r.orchestration.sample_size == 100,
            r.build.profile@ == "release"@,
            r.build.cargo_flags@ =~= Seq::<String>::empty(),
            r.build.bench_targets@ =~= Seq::<String>::empty(),
            r.network.base_port == 9100,
            r.network.harness_timeout_ms == 30_000,
    {
        Config {
            hypothesis: HypothesisConfig::default(),
            orchestration: OrchestrationConfig::default(),
            build: BuildConfig::default(),
            network: NetworkConfig::default(),
        }
    }
}

/// Optional command-line overrides applied on top of a configuration.
/// An absent value leaves the configured one in place.
#[derive(Debug, Clone)]
pub struct ConfigOverrides {
    /// Replacement confidence level, in parts per million.
    pub confidence_ppm: Option<u32>,
    /// Replacement sample size.
    pub sample_size: Option<u32>,
    /// Replacement warmup iteration count.
    pub warmup_iterations: Option<u32>,
}

/// Apply command-line overrides to a configuration: present values take
/// precedence, absent ones change nothing.
pub fn apply_overrides(config: &mut Config, overrides: &ConfigOverrides)
    ensures
        final(config).hypothesis.confidence_ppm == (match overrides.confidence_ppm {
            Some(c) => c,
            None => old(config).hypothesis.confidence_ppm,
        }),
        final(config).orchestration.sample_size == (match overrides.sample_size {
            Some(n) => n,
            None => old(config).orchestration.sample_size,
        }),
        final(config).orchestration.warmup_iterations == (match overrides.warmup_iterations {
            Some(w) => w,
            None => old(config).orchestration.warmup_iterations,
        }),
        final(config).hypothesis.minimum_effect_centipct == old(
            config,
        ).hypothesis.minimum_effect_centipct,
        final(config).orchestration.interleave_interval_ms == old(
            config,
        ).orchestration.interleave_interval_ms,
        final(config).build == old(config).build,
        final(config).network == old(config).network,
{
    match overrides.confidence_ppm {
        Some(c) => {
            config.hypothesis.confidence_ppm = c;
        },
        None => {},
    }
    match overrides.sample_size {
        Some(n) => {
            config.orchestration.sample_size = n;
        },
        None => {},
    }
    match overrides.warmup_iterations {
        Some(w) => {
            config.orchestration.warmup_iterations = w;
        },
        None => {},
    }
}

} // verus!
