//! The retrain pipeline.
//!
//! ```text
//! signal store (pending signals)
//!   | export_pending
//!   v
//! extract_features -> SignalFeatures
//!   |
//!   v
//! learn_weights -> updated weight model
//!   |
//!   v
//! RetrainArtifact -> saved, and reloaded by the registry
//! ```

pub mod artifact;
pub mod config;
pub mod features;
pub mod laws;
pub mod pipeline;
pub mod status;
pub mod table;
pub mod weights;

pub use artifact::RetrainArtifact;
pub use config::RetrainConfig;
pub use features::{extract_features, CategoryFeatures, SignalFeatures};
pub use pipeline::RetrainPipeline;
pub use status::{RetrainResult, RetrainStatus};
pub use table::WeightTable;
pub use weights::{learn_weights, WeightModel};
