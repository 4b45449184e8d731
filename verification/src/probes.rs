//! The probe programs: their command lines and the decisions they make.
pub mod attn;
pub mod batch;
pub mod block;
pub mod checks;
pub mod drafting;
pub mod external_draft;
pub mod extrapolate;
pub mod gdn;
pub mod gguf_batch;
pub mod gguf_inspect;
pub mod jacobi;
pub mod lossless;
pub mod matmul_many;
pub mod mlp;
pub mod pack_model;
pub mod prefix;
pub mod q4;
pub mod resident_drafter;
pub mod runtime;
pub mod speculation;
pub mod stage;
pub mod state;
pub mod verify_many;
