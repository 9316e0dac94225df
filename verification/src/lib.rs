//! Measurement and aggregation for paired benchmark runs.
//!
//! Two variants of an assistant, a baseline and an augmented one, are run
//! against the same tasks. This crate turns the transcript of a run into
//! metrics ([`metrics`]), keeps results under a fingerprint ([`cache`]),
//! groups the paired results of many runs and renders their report
//! ([`aggregate`], [`report`]). The modules around these hold the checks and
//! choices of a benchmark job: issue references, sandboxes, command lines,
//! scores.
//!
//! The crate decides and computes; it starts no process and touches no
//! file. Means, deviations and significance tests are floating-point work
//! and are left to the caller, who hands the figures back as text.

pub mod aggregate;
pub mod batch;
pub mod cache;
pub mod clock;
pub mod evaluator;
pub mod issue;
pub mod json;
pub mod metrics;
pub mod orchestrator;
pub mod report;
pub mod runner;
pub mod sandbox;
pub mod tasks;
pub mod text;

pub use orchestrator::CompareOptions;
pub use report::{ComparisonReport, ReportFormat};
