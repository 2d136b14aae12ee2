//! What the operations of the library are for.
//!
//! Every law here speaks of calls: of what a function was given and of what it
//! answered. What the answer has to be is written out in terms of those values,
//! place by place.

pub mod artifacts;
pub mod cycles;
pub mod features;
pub mod learning;
pub mod names;
pub mod numbers;
mod places;
pub mod readings;
pub mod registries;
pub mod steps;
pub mod stores;
