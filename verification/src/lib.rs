//! Statistically rigorous A/B comparison of benchmark runs.
//!
//! The library keeps two builds of the same artifact resident as harness
//! processes, interleaves individual benchmark iterations between them, and
//! applies Welch's two-sample t-test to decide whether an observed difference
//! is real.  This crate holds the verified core: the wire protocol and its
//! JSON codec, the exclusive-claim state machine, the benchmark registry,
//! the interleaved sampling schedule, and the statistical verdict logic.
//! Durations travel as unsigned 64-bit nanosecond counts, the wire
//! representation fixed by the protocol.

pub mod builder;
pub mod config;
pub mod harness;
pub mod json;
pub mod orchestrator;
pub mod protocol;
pub mod registry;
pub mod report;
pub mod source;
pub mod stats;
