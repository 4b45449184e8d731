//! Tensors as the planner sees them: names, types, shapes and bytes.
use vstd::prelude::*;

verus! {

/// A tensor of a Safetensors shard.
#[derive(Debug, Clone)]
pub struct TensorInfo {
    pub name: String,
    pub shard: String,
    pub dtype: String,
    pub shape: Vec<usize>,
    pub data_start: usize,
    pub data_end: usize,
}

/// The bytes of a tensor inside the mapping of its shard.
pub struct TensorView<'a> {
    pub info: &'a TensorInfo,
    pub bytes: &'a [u8],
    pub backing: &'a [u8],
}

/// A tensor of a GGUF file, with the shape `[columns, rows]`.
#[derive(Debug, Clone)]
pub struct GgufTensorInfo {
    pub name: String,
    pub ggml_type: u32,
    pub shape: Vec<usize>,
}

/// The bytes of a GGUF tensor.
pub struct GgufTensorView<'a> {
    pub info: &'a GgufTensorInfo,
    pub bytes: &'a [u8],
}

pub open spec fn is_bf16(info: TensorInfo) -> bool {
    info.dtype@ == "BF16"@
}

/// Whether the tensor is a matrix of BF16 values.
pub open spec fn is_bf16_matrix(info: TensorInfo) -> bool {
    is_bf16(info) && info.shape@.len() == 2
}

impl TensorInfo {
    pub fn has_bf16_values(&self) -> (bf16: bool)
        ensures
            bf16 == is_bf16(*self),
    {
        crate::text::same_text(self.dtype.as_str(), "BF16")
    }

    pub fn has_bf16_matrix(&self) -> (matrix: bool)
        ensures
            matrix == is_bf16_matrix(*self),
    {
        self.has_bf16_values() && self.shape.len() == 2
    }
}

} // verus!
