//! Media inspection and keyframe-aware trimming engine.
//!
//! The library decides; the host runs the inspector and encoder processes and
//! hands their output back as plain values.

pub mod args;
pub mod binaries;
pub mod cache;
pub mod error;
pub mod input;
pub mod json;
pub mod keyframes;
pub mod probe;
pub mod rotation;
pub mod streams;
pub mod text;
pub mod time;
pub mod trim;
