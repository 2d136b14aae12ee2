//! Configuration of the model registry.

use vstd::prelude::*;

use crate::text::copy_names;

verus! {

/// Top-level configuration.
#[derive(Debug, Clone)]
pub struct MultimindConfig {
    /// Registered models.
    pub models: Vec<ModelConfig>,
}

/// Configuration for a single model.
#[derive(Debug)]
pub struct ModelConfig {
    /// Unique identifier for this model.
    pub id: String,
    /// Backend type: "onnx-text", "onnx-embed", or a custom backend name.
    pub backend: String,
    /// Path to the model file, relative to the model root.
    pub path: String,
    /// Path to the label map JSON file. Optional: some backends have defaults.
    pub labels: Option<String>,
    /// Expected class names. Optional: derived from labels file if not set.
    pub classes: Option<Vec<String>>,
    /// Minimum confidence to accept a classification: the bits of an IEEE 754
    /// single.
    pub min_confidence: u32,
    /// Number of embedding dimensions. Only meaningful for the `onnx-embed`
    /// backend.
    pub embedding_dim: Option<usize>,
    /// Retrain configuration. Optional.
    pub retrain: Option<ModelRetrainConfig>,
}

/// Per-model retrain thresholds.
#[derive(Debug, Clone, Copy, PartialEq, Eq, Structural)]
pub struct ModelRetrainConfig {
    /// Minimum number of correction signals before retraining.
    pub min_signals: usize,
    /// Minimum number of classification sessions before retraining.
    pub min_sessions: usize,
}

/// What a [`ModelConfig`] says.
#[verifier::ext_equal]
pub struct ModelConfigView {
    pub id: Seq<char>,
    pub backend: Seq<char>,
    pub path: Seq<char>,
    pub labels: Option<Seq<char>>,
    pub classes: Option<Seq<Seq<char>>>,
    pub min_confidence: u32,
    pub embedding_dim: Option<usize>,
    pub retrain: Option<ModelRetrainConfig>,
}

impl View for ModelConfig {
    type V = ModelConfigView;

    open spec fn view(&self) -> ModelConfigView {
        ModelConfigView {
            id: self.id@,
            backend: self.backend@,
            path: self.path@,
            labels: match self.labels {
                Some(labels) => Some(labels@),
                None => None,
            },
            classes: match self.classes {
                Some(classes) => Some(classes@.map_values(|c: String| c@)),
                None => None,
            },
            min_confidence: self.min_confidence,
            embedding_dim: self.embedding_dim,
            retrain: self.retrain,
        }
    }
}

impl Clone for ModelConfig {
    fn clone(&self) -> (r: Self)
        ensures
            r@ == self@,
    {
        ModelConfig {
            id: self.id.clone(),
            backend: self.backend.clone(),
            path: self.path.clone(),
            labels: match &self.labels {
                Some(labels) => Some(labels.clone()),
                None => None,
            },
            classes: match &self.classes {
                Some(classes) => Some(copy_names(classes)),
                None => None,
            },
            min_confidence: self.min_confidence,
            embedding_dim: self.embedding_dim,
            retrain: self.retrain,
        }
    }
}

/// The minimum confidence of a model that sets none: one half, as the bits of
/// an IEEE 754 single.
pub fn default_min_confidence() -> (r: u32)
    ensures
        r == 0x3f00_0000,
{
    0x3f00_0000
}

/// The number of correction signals of a model that sets none.
pub fn default_min_signals() -> (r: usize)
    ensures
        r == 10,
{
    10
}

/// The number of classification sessions of a model that sets none.
pub fn default_min_sessions() -> (r: usize)
    ensures
        r == 20,
{
    20
}

/// The place of the first model with the given ID, or the number of models
/// where there is none.
pub open spec fn model_place(models: Seq<ModelConfig>, id: Seq<char>) -> int
    decreases models.len(),
{
    if models.len() == 0 || models[0].id@ == id {
        0
    } else {
        1 + model_place(models.drop_first(), id)
    }
}

/// The configuration of the first model with the given ID.
pub open spec fn find_model(models: Seq<ModelConfig>, id: Seq<char>) -> Option<ModelConfig> {
    if model_place(models, id) < models.len() {
        Some(models[model_place(models, id)])
    } else {
        None
    }
}

/// A place is that of the first model with an ID when it is the only such
/// place so far.
proof fn lemma_model_place(models: Seq<ModelConfig>, id: Seq<char>, i: int)
    requires
        0 <= i <= models.len(),
        forall|k: int| 0 <= k < i ==> (#[trigger] models[k]).id@ != id,
        i < models.len() ==> models[i].id@ == id,
    ensures
        model_place(models, id) == i,
    decreases models.len(),
{
    if i > 0 {
        let rest = models.drop_first();
        assert forall|k: int| 0 <= k < i - 1 implies (#[trigger] rest[k]).id@ != id by {
            assert(rest[k] == models[k + 1]);
        }
        lemma_model_place(rest, id, i - 1);
    }
}

impl MultimindConfig {
    /// Find a model config by ID. Of several with the same ID, the first.
    pub fn get_model(&self, id: &str) -> (r: Option<&ModelConfig>)
        ensures
            match r {
                Some(found) => find_model(self.models@, id@) == Some(*found),
                None => find_model(self.models@, id@) is None,
            },
    {
        let wanted = id.to_owned();
        let mut i: usize = 0;
        while i < self.models.len()
            invariant
                i <= self.models@.len(),
                wanted@ == id@,
                forall|k: int| 0 <= k < i ==> (#[trigger] self.models@[k]).id@ != id@,
            decreases self.models@.len() - i,
        {
            if self.models[i].id == wanted {
                proof {
                    lemma_model_place(self.models@, id@, i as int);
                }
                return Some(&self.models[i]);
            }
            i = i + 1;
        }
        proof {
            lemma_model_place(self.models@, id@, i as int);
        }
        None
    }
}

} // verus!
