//! Super-Inference: bounded-memory local inference, its lossless weight codecs,
//! its key/value cache and the planning of its Metal kernels.
pub mod bench;
pub mod cache;
pub mod json;
pub mod layers;
pub mod logits;
pub mod lossless;
pub mod metal;
pub mod options;
pub mod probes;
pub mod quant;
pub mod report;
pub mod tensor;
pub mod text;
pub mod timing;

pub use report::{run_mock, Config, OutputFormat, RunReport, Timings};
