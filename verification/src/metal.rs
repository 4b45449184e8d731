//! Planning for the Metal backend: validation, memory accounting and the
//! launches of its kernels.
pub mod acceptance;
pub mod accounts;
pub mod attention;
pub mod context;
pub mod elements;
pub mod embedding;
pub mod fused;
pub mod group;
pub mod kernel;
pub mod mapping;
pub mod matvec;
pub mod model;
pub mod norm;
pub mod operands;
pub mod plan;
pub mod products;
pub mod quantized;
pub mod quantized_groups;
pub mod recurrent;
pub mod shader;
pub mod stats;
pub mod validate;
pub mod weights;
pub mod wiring;
