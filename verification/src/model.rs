//! What goes into a model and what comes out of it.

use vstd::prelude::*;

use crate::name_map::NameMap;

verus! {

/// `serde_json::Value`: a JSON value, carried to backends that take one.
/// Nothing is claimed of what is inside.
#[verifier::external_type_specification]
#[verifier::external_body]
pub struct ExJsonValue(serde_json::Value);

/// Input to a model. Backends accept one or more of these variants.
#[derive(Debug)]
pub enum ModelInput {
    /// Raw text, for models that accept string tensors.
    Text(String),
    /// Pre-computed embedding vector: the bits of IEEE 754 singles.
    Embedding(Vec<u32>),
    /// Structured JSON, for API-backed models.
    Structured(serde_json::Value),
}

/// The output of a single model inference call. Scores are the bits of
/// IEEE 754 singles.
#[derive(Debug, Clone)]
pub struct Verdict {
    /// Winning label.
    pub label: String,
    /// Confidence in the winning label.
    pub confidence: u32,
    /// Per-class scores, from label to probability. Empty if the backend does
    /// not support per-class output.
    pub all_scores: NameMap<u32>,
}

/// Why a backend, a store or a model file failed, in words.
#[derive(Debug, Clone)]
pub struct Failure {
    /// The words.
    pub message: String,
}

/// A model backend that can classify inputs.
pub trait ModelBackend: Send + Sync {
    /// Run inference on the given input.
    fn classify(&self, input: &ModelInput) -> (r: Result<Verdict, Failure>);

    /// Hot-reload the model from a new path. On failure the old model stays
    /// loaded.
    fn reload(&self, path: &str) -> (r: Result<(), Failure>);

    /// Human-readable backend name.
    fn backend_name(&self) -> (r: &'static str);
}

} // verus!
