//! The device steps of single model layers, and the data movement between them.
pub mod attention;
pub mod attention_flow;
pub mod gated_delta;
pub mod gated_delta_flow;
pub mod heads;
pub mod mlp;
pub mod outputs;
pub mod steps;
pub mod values;
