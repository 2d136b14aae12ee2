//! A registry of classification models with lazy loading and hot reload,
//! correction signals, and a retrain pipeline.
//!
//! The library decides and computes. Files, databases, the inference engine and
//! floating point arithmetic are its caller's, who hands the library plain values
//! and takes plain values back. Floating point numbers travel as their IEEE 754
//! bits.

pub mod backends;
pub mod config;
pub mod laws;
pub mod model;
pub mod name_map;
pub mod paths;
pub mod registry;
pub mod retrain;
pub mod signals;
pub mod text;

pub use config::MultimindConfig;
pub use model::{Failure, ModelBackend, ModelInput, Verdict};
pub use registry::ModelRegistry;
pub use signals::{SignalStore, TrainingSignal};
