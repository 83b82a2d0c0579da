//! Host-side orchestration of an ORB-style feature pipeline: configuration
//! checks, the resource declarations and per-cycle pass plan that drive the
//! GPU, the bounded append protocol, the keyframe store, descriptor matching
//! and the decoding of read-back buffers.

pub mod config;
pub mod resources;
pub mod stages;
pub mod layout;
pub mod program;
pub mod append;
pub mod descriptor;
pub mod matching;
pub mod readback;
pub mod plan;
pub mod detect;
pub mod kernels;
pub mod host;
