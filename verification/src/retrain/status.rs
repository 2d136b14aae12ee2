//! What a retrain cycle came to, and where a pipeline stands.

use vstd::prelude::*;

verus! {

/// Result of a retrain cycle.
#[derive(Debug)]
pub struct RetrainResult {
    /// Model ID that was retrained.
    pub model_id: String,
    /// New model version.
    pub new_version: u64,
    /// Previous model version.
    pub previous_version: u64,
    /// Number of signals consumed.
    pub signals_consumed: usize,
    /// Path to the saved artifact (if persisted).
    pub artifact_path: Option<String>,
    /// Duration of the retrain cycle in milliseconds.
    pub duration_ms: u64,
}

impl Clone for RetrainResult {
    fn clone(&self) -> (r: Self)
        ensures
            r == *self,
    {
        RetrainResult {
            model_id: self.model_id.clone(),
            new_version: self.new_version,
            previous_version: self.previous_version,
            signals_consumed: self.signals_consumed,
            artifact_path: match &self.artifact_path {
                Some(path) => Some(path.clone()),
                None => None,
            },
            duration_ms: self.duration_ms,
        }
    }
}

/// Current status of the retrain pipeline for a model.
#[derive(Debug)]
pub struct RetrainStatus {
    /// Current model version.
    pub model_version: u64,
    /// Number of unconsumed signals.
    pub unconsumed_signals: usize,
    /// Whether the signal threshold is met for retraining.
    pub threshold_met: bool,
    /// Whether a retrain is currently running.
    pub running: bool,
    /// Last retrain result (if any).
    pub last_result: Option<RetrainResult>,
}

} // verus!
