//! Settings of the retrain pipeline.

use vstd::prelude::*;

verus! {

/// Retrain pipeline configuration.
#[derive(Debug)]
pub struct RetrainConfig {
    /// Minimum unconsumed signals before a retrain is eligible.
    pub signal_threshold: usize,
    /// Maximum signals to consume per retrain batch.
    pub batch_size: usize,
    /// Background check interval in milliseconds: how often to poll for the
    /// threshold.
    pub check_interval_ms: u64,
    /// Learning rate for weight updates, between zero and one: the bits of an
    /// IEEE 754 double.
    pub learning_rate: u64,
    /// Minimum correction signals for a category before applying its update.
    /// Prevents single-signal noise from shifting weights.
    pub min_corrections_for_update: usize,
    /// Directory for persisting model artifacts.
    pub artifact_dir: String,
}

impl Clone for RetrainConfig {
    fn clone(&self) -> (r: Self)
        ensures
            r == *self,
    {
        RetrainConfig {
            signal_threshold: self.signal_threshold,
            batch_size: self.batch_size,
            check_interval_ms: self.check_interval_ms,
            learning_rate: self.learning_rate,
            min_corrections_for_update: self.min_corrections_for_update,
            artifact_dir: self.artifact_dir.clone(),
        }
    }
}

/// Five hundredths, as the bits of an IEEE 754 double.
pub const DEFAULT_LEARNING_RATE: u64 = 0x3fa9_9999_9999_999a;

impl Default for RetrainConfig {
    fn default() -> (r: Self)
        ensures
            r.signal_threshold == 200,
            r.batch_size == 1000,
            r.check_interval_ms == 3_600_000,
            r.learning_rate == DEFAULT_LEARNING_RATE,
            r.min_corrections_for_update == 5,
            r.artifact_dir@ == "/tmp/multimind-models"@,
    {
        RetrainConfig {
            signal_threshold: 200,
            batch_size: 1000,
            check_interval_ms: 3_600_000,
            learning_rate: DEFAULT_LEARNING_RATE,
            min_corrections_for_update: 5,
            artifact_dir: "/tmp/multimind-models".to_owned(),
        }
    }
}

} // verus!
