//! Model backends.
//!
//! Custom backends can implement [`ModelBackend`](crate::model::ModelBackend)
//! directly.

pub mod onnx_text;
