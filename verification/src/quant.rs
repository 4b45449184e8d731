//! The GGML block formats that the quantized kernels read.
use vstd::prelude::*;

verus! {

pub const GGML_TYPE_F32: u32 = 0;

pub const GGML_TYPE_Q4_K: u32 = 12;

pub const GGML_TYPE_Q5_K: u32 = 13;

pub const GGML_TYPE_Q6_K: u32 = 14;

/// The number of values in a block of any of the formats.
pub const BLOCK_ELEMENTS: usize = 256;

pub const Q4_K_BLOCK_BYTES: usize = 144;

pub const Q5_K_BLOCK_BYTES: usize = 176;

pub const Q6_K_BLOCK_BYTES: usize = 210;

/// The block formats.
#[derive(Debug, Clone, Copy, PartialEq, Eq, Structural)]
pub enum Quant {
    Q4K,
    Q5K,
    Q6K,
}

/// The block format of a GGML type number.
pub open spec fn quant_of(ggml_type: u32) -> Option<Quant> {
    if ggml_type == GGML_TYPE_Q4_K {
        Some(Quant::Q4K)
    } else if ggml_type == GGML_TYPE_Q5_K {
        Some(Quant::Q5K)
    } else if ggml_type == GGML_TYPE_Q6_K {
        Some(Quant::Q6K)
    } else {
        None
    }
}

pub open spec fn block_bytes_of(quant: Quant) -> int {
    match quant {
        Quant::Q4K => Q4_K_BLOCK_BYTES as int,
        Quant::Q5K => Q5_K_BLOCK_BYTES as int,
        Quant::Q6K => Q6_K_BLOCK_BYTES as int,
    }
}

pub open spec fn label_of(quant: Quant) -> Seq<char> {
    match quant {
        Quant::Q4K => "Q4_K"@,
        Quant::Q5K => "Q5_K"@,
        Quant::Q6K => "Q6_K"@,
    }
}

/// The block format of a GGML type number.
pub fn quant_type(ggml_type: u32) -> (quant: Option<Quant>)
    ensures
        quant == quant_of(ggml_type),
{
    if ggml_type == GGML_TYPE_Q4_K {
        Some(Quant::Q4K)
    } else if ggml_type == GGML_TYPE_Q5_K {
        Some(Quant::Q5K)
    } else if ggml_type == GGML_TYPE_Q6_K {
        Some(Quant::Q6K)
    } else {
        None
    }
}

impl Quant {
    pub fn block_bytes(self) -> (bytes: usize)
        ensures
            bytes == block_bytes_of(self),
            bytes <= 210,
    {
        match self {
            Quant::Q4K => Q4_K_BLOCK_BYTES,
            Quant::Q5K => Q5_K_BLOCK_BYTES,
            Quant::Q6K => Q6_K_BLOCK_BYTES,
        }
    }

    pub fn label(self) -> (label: &'static str)
        ensures
            label@ == label_of(self),
    {
        match self {
            Quant::Q4K => "Q4_K",
            Quant::Q5K => "Q5_K",
            Quant::Q6K => "Q6_K",
        }
    }
}

/// The bytes of `rows` rows of whole blocks.
pub open spec fn quant_bytes(quant: Quant, rows: int, columns: int) -> int {
    rows * (columns / 256) * block_bytes_of(quant)
}

/// The bytes of `rows` rows of whole blocks, where a machine-sized number holds them.
pub fn checked_quant_bytes(quant: Quant, rows: usize, columns: usize) -> (bytes: Option<usize>)
    ensures
        match bytes {
            Some(bytes) => bytes == quant_bytes(quant, rows as int, columns as int),
            None => quant_bytes(quant, rows as int, columns as int) > usize::MAX,
        },
        rows * (columns / 256) > usize::MAX ==> bytes is None,
{
    let blocks_per_row: usize = columns / BLOCK_ELEMENTS;
    proof {
        assert(rows * blocks_per_row >= 0) by (nonlinear_arith);
    }
    match rows.checked_mul(blocks_per_row) {
        Some(blocks) => blocks.checked_mul(quant.block_bytes()),
        None => {
            proof {
                let blocks = rows * blocks_per_row;
                let block_bytes = block_bytes_of(quant);
                assert(blocks * block_bytes >= blocks) by (nonlinear_arith)
                    requires
                        blocks >= 0,
                        block_bytes >= 1,
                ;
            }
            None
        },
    }
}

/// The bytes of one row of whole blocks.
pub open spec fn quant_row_bytes(quant: Quant, columns: int) -> int {
    (columns / 256) * block_bytes_of(quant)
}

/// The bytes of one row of whole blocks.
pub fn row_bytes(quant: Quant, columns: usize) -> (bytes: usize)
    ensures
        bytes == quant_row_bytes(quant, columns as int),
{
    let blocks: usize = columns / BLOCK_ELEMENTS;
    let block_bytes: usize = quant.block_bytes();
    proof {
        assert(0 <= blocks * block_bytes <= blocks * 256) by (nonlinear_arith)
            requires
                block_bytes <= 256,
        ;
    }
    blocks * block_bytes
}

} // verus!
