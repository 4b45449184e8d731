//! Plans that decode one row of an embedding table.
use vstd::prelude::*;

use super::context::MetalContext;
use super::kernel::{Constants, Dispatch, Grid, Kernel, Threads};
use super::norm;
use super::plan;
use super::plan::{Plan, PlanView, Profile, SlicePlan, SliceView};
use super::validate;
use super::weights::Bf16Weight;
use super::stats::Submission;
use super::wiring::Wiring;
use crate::quant;
use crate::quant::Quant;
use crate::tensor;
use crate::tensor::{GgufTensorView, TensorView};
use crate::text;

verus! {

/// The launch that decodes a row: one thread for each column.
pub open spec fn row_launch(kernel: Kernel, columns: u32) -> Dispatch {
    Dispatch {
        kernel,
        constants: Constants::One(columns),
        grid: Grid::Threads(columns as u64),
        threads: Threads::AtMost(columns as u64),
    }
}

fn plan_row_launch(kernel: Kernel, columns: u32) -> (dispatch: Dispatch)
    ensures
        dispatch == row_launch(kernel, columns),
{
    Dispatch {
        kernel,
        constants: Constants::One(columns),
        grid: Grid::Threads(columns as u64),
        threads: Threads::AtMost(columns as u64),
    }
}

/// The launch that decodes a row whose columns fit the kernel.
pub open spec fn checked_row_launch(kernel: Kernel, columns: int) -> Result<Dispatch, Seq<char>> {
    if columns > u32::MAX {
        Err("embedding dimension exceeds Metal limits"@)
    } else {
        Ok(row_launch(kernel, columns as u32))
    }
}

fn plan_checked_row_launch(kernel: Kernel, columns: usize) -> (launch: Result<Dispatch, String>)
    ensures
        text::outcome(launch) == checked_row_launch(kernel, columns as int),
{
    if columns as u64 > 0xffff_ffff {
        return Err("embedding dimension exceeds Metal limits".to_owned());
    }
    Ok(plan_row_launch(kernel, columns as u32))
}

pub open spec fn q4_k_embedding_row_plan(row_len: nat, columns: usize) -> Result<
    PlanView,
    Seq<char>,
> {
    if columns == 0 || columns % 256 != 0 {
        Err("Q4_K embedding dimension is invalid"@)
    } else if row_len != quant::quant_row_bytes(Quant::Q4K, columns as int) {
        Err("Q4_K embedding row byte length is invalid"@)
    } else {
        Ok(
            plan::single_output(
                Profile {
                    weights: row_len as u64,
                    state: 0,
                    scratch: plan::value_bytes(columns as int),
                    mapped: true,
                },
                "Metal could not bind the mapped Q4_K embedding row"@,
                norm::launch_of(checked_row_launch(Kernel::Q4KEmbeddingRow, columns as int)),
                columns,
                "Q4_K embedding command"@,
            ),
        )
    }
}

fn plan_q4_k_embedding_row(row_len: usize, columns: usize) -> (result: Result<Plan, String>)
    ensures
        text::outcome_view(result) == q4_k_embedding_row_plan(row_len as nat, columns),
{
    if columns == 0 || columns % 256 != 0 {
        return Err("Q4_K embedding dimension is invalid".to_owned());
    }
    if row_len != quant::row_bytes(Quant::Q4K, columns) {
        return Err("Q4_K embedding row byte length is invalid".to_owned());
    }
    let profile = Profile {
        weights: row_len as u64,
        state: 0,
        scratch: plan::bytes_of_values(columns),
        mapped: true,
    };
    Ok(
        plan::plan_of(
            profile,
            "Metal could not bind the mapped Q4_K embedding row",
            norm::command_of(plan_checked_row_launch(Kernel::Q4KEmbeddingRow, columns)),
            columns,
            "Q4_K embedding command",
        ),
    )
}

pub open spec fn q4_k_embedding_tensor_plan(tensor: GgufTensorView, token_id: usize) -> Result<
    SliceView,
    Seq<char>,
> {
    let columns = tensor.info.shape@[0];
    let rows = tensor.info.shape@[1];
    let row_bytes = quant::quant_row_bytes(Quant::Q4K, columns as int);
    let start = token_id * row_bytes;
    if quant::quant_of(tensor.info.ggml_type) != Some(Quant::Q4K) || tensor.info.shape@.len()
        != 2 {
        Err("Q4_K embedding requires a rank-2 Q4_K tensor"@)
    } else if token_id >= rows || columns % 256 != 0 {
        Err("Q4_K embedding token id or dimension is invalid"@)
    } else if start > usize::MAX {
        Err("Q4_K embedding row offset overflows"@)
    } else if start + row_bytes > usize::MAX {
        Err("Q4_K embedding row end overflows"@)
    } else if start + row_bytes > tensor.bytes@.len() {
        Err("Q4_K embedding tensor payload is shorter than its shape"@)
    } else {
        plan::slice_plan(
            start,
            start + row_bytes,
            q4_k_embedding_row_plan(row_bytes as nat, columns),
        )
    }
}

/// The number of columns reaches the kernel by its low 32 bits, and so many
/// values are read back.
pub open spec fn bf16_embedding_row_plan(row_len: nat, columns: usize) -> Result<
    PlanView,
    Seq<char>,
> {
    if columns == 0 || row_len != columns * 2 {
        Err("embedding row dimensions or byte length are invalid"@)
    } else {
        let low = norm::low_word(columns as int);
        Ok(
            PlanView {
                profile: Profile {
                    weights: row_len as u64,
                    state: 0,
                    scratch: plan::value_bytes(columns as int),
                    mapped: false,
                },
                unbound: ""@,
                command: Ok(seq![row_launch(Kernel::Bf16EmbeddingRow, low)]),
                wiring: Wiring::Alone,
                submission: Submission::AtOnce,
                buffers: seq![plan::value_bytes(columns as int)],
                outputs: seq![low as usize],
                operation: "command"@,
            },
        )
    }
}

fn plan_bf16_embedding_row(row_len: usize, columns: usize) -> (result: Result<Plan, String>)
    ensures
        text::outcome_view(result) == bf16_embedding_row_plan(row_len as nat, columns),
{
    if columns == 0 || row_len % 2 != 0 || row_len / 2 != columns {
        return Err("embedding row dimensions or byte length are invalid".to_owned());
    }
    let low: u32 = norm::low_word_of(columns);
    let buffers: Vec<u64> = vec![plan::bytes_of_values(columns)];
    let outputs: Vec<usize> = vec![low as usize];
    proof {
        assert(buffers@ =~= seq![plan::value_bytes(columns as int)]);
        assert(outputs@ =~= seq![low as usize]);
    }
    Ok(
        Plan {
            profile: Profile {
                weights: row_len as u64,
                state: 0,
                scratch: plan::bytes_of_values(columns),
                mapped: false,
            },
            unbound: "".to_owned(),
            command: plan::one_launch(plan_row_launch(Kernel::Bf16EmbeddingRow, low)),
            wiring: Wiring::Alone,
            submission: Submission::AtOnce,
            buffers,
            outputs,
            operation: "command".to_owned(),
        },
    )
}

pub open spec fn bf16_embedding_tensor_plan(tensor: TensorView, token_id: usize) -> Result<
    SliceView,
    Seq<char>,
> {
    let rows = tensor.info.shape@[0];
    let columns = tensor.info.shape@[1];
    let row_bytes = columns * 2;
    let start = token_id * row_bytes;
    if !tensor::is_bf16_matrix(*tensor.info) {
        Err("embedding requires a rank-2 BF16 tensor"@)
    } else if token_id >= rows {
        Err("embedding token id exceeds vocabulary"@)
    } else if row_bytes > usize::MAX {
        Err("embedding dimension overflow"@)
    } else if start > usize::MAX {
        Err("embedding row offset overflow"@)
    } else if start + row_bytes > usize::MAX {
        Err("embedding row end overflow"@)
    } else if start + row_bytes > tensor.bytes@.len() {
        Err("embedding tensor bytes are shorter than its shape"@)
    } else {
        plan::slice_plan(
            start,
            start + row_bytes,
            bf16_embedding_row_plan(row_bytes as nat, columns),
        )
    }
}

pub open spec fn bf16_embedding_tensor_buffer_plan(
    tensor: TensorView,
    weight: Bf16Weight,
    token_id: usize,
) -> Result<SliceView, Seq<char>> {
    let rows = tensor.info.shape@[0];
    let columns = tensor.info.shape@[1];
    let start = token_id * columns * 2;
    if !tensor::is_bf16_matrix(*tensor.info) {
        Err("embedding requires a rank-2 BF16 tensor"@)
    } else if token_id >= rows {
        Err("embedding token id exceeds vocabulary"@)
    } else if rows * columns > usize::MAX || rows * columns * 2 > usize::MAX {
        Err("embedding dimensions overflow"@)
    } else if weight.bytes != rows * columns * 2 {
        Err("resident embedding weight has an invalid byte length"@)
    } else {
        plan::slice_plan(
            start,
            start + columns * 2,
            Ok(
                plan::single_output(
                    Profile {
                        weights: weight.bytes,
                        state: 0,
                        scratch: plan::value_bytes(columns as int),
                        mapped: false,
                    },
                    ""@,
                    norm::launch_of(checked_row_launch(Kernel::Bf16EmbeddingRow, columns as int)),
                    columns,
                    "command"@,
                ),
            ),
        )
    }
}

/// A row that is read lies inside the table, behind the rows before it.
pub proof fn law_embedding_row_is_inside(tensor: TensorView, token_id: usize)
    requires
        bf16_embedding_tensor_plan(tensor, token_id) is Ok,
    ensures
        ({
            let slice = bf16_embedding_tensor_plan(tensor, token_id)->Ok_0;
            let row_bytes = tensor.info.shape@[1] * 2;
            &&& slice.start == token_id * row_bytes
            &&& slice.end == (token_id + 1) * row_bytes
            &&& 0 <= slice.start < slice.end <= tensor.bytes@.len()
        }),
{
    let row_bytes = tensor.info.shape@[1] * 2;
    assert((token_id + 1) * row_bytes == token_id * row_bytes + row_bytes) by (nonlinear_arith);
    assert(token_id * row_bytes >= 0) by (nonlinear_arith)
        requires
            row_bytes >= 0,
            token_id >= 0,
    ;
}

impl MetalContext {
    /// Plans the decoding of one Q4_K row.
    pub fn q4_k_embedding_row(&self, row_bytes: &[u8], columns: usize) -> (result: Result<
        Plan,
        String,
    >)
        ensures
            text::outcome_view(result) == q4_k_embedding_row_plan(row_bytes@.len(), columns),
    {
        plan_q4_k_embedding_row(row_bytes.len(), columns)
    }

    /// Plans the decoding of the row of a token in a Q4_K table.
    pub fn q4_k_embedding_tensor(&self, tensor: &GgufTensorView<'_>, token_id: usize) -> (result: Result<
        SlicePlan,
        String,
    >)
        ensures
            text::outcome_view(result) == q4_k_embedding_tensor_plan(*tensor, token_id),
    {
        if tensor.info.ggml_type != quant::GGML_TYPE_Q4_K || tensor.info.shape.len() != 2 {
            return Err("Q4_K embedding requires a rank-2 Q4_K tensor".to_owned());
        }
        let columns: usize = tensor.info.shape[0];
        let rows: usize = tensor.info.shape[1];
        if token_id >= rows || columns % 256 != 0 {
            return Err("Q4_K embedding token id or dimension is invalid".to_owned());
        }
        let row_bytes: usize = quant::row_bytes(Quant::Q4K, columns);
        let start: usize = match token_id.checked_mul(row_bytes) {
            Some(start) => start,
            None => {
                return Err("Q4_K embedding row offset overflows".to_owned());
            },
        };
        let end: usize = match start.checked_add(row_bytes) {
            Some(end) => end,
            None => {
                return Err("Q4_K embedding row end overflows".to_owned());
            },
        };
        if end > tensor.bytes.len() {
            return Err("Q4_K embedding tensor payload is shorter than its shape".to_owned());
        }
        plan::plan_slice(start, end, plan_q4_k_embedding_row(row_bytes, columns))
    }

    /// Plans the decoding of one BF16 row.
    pub fn bf16_embedding_row(&self, row_bytes: &[u8], columns: usize) -> (result: Result<
        Plan,
        String,
    >)
        ensures
            text::outcome_view(result) == bf16_embedding_row_plan(row_bytes@.len(), columns),
    {
        plan_bf16_embedding_row(row_bytes.len(), columns)
    }

    /// Plans the decoding of the row of a token in a BF16 table.
    pub fn bf16_embedding_tensor(&self, tensor: &TensorView<'_>, token_id: usize) -> (result: Result<
        SlicePlan,
        String,
    >)
        ensures
            text::outcome_view(result) == bf16_embedding_tensor_plan(*tensor, token_id),
    {
        if !tensor.info.has_bf16_matrix() {
            return Err("embedding requires a rank-2 BF16 tensor".to_owned());
        }
        let rows: usize = tensor.info.shape[0];
        let columns: usize = tensor.info.shape[1];
        if token_id >= rows {
            return Err("embedding token id exceeds vocabulary".to_owned());
        }
        let row_bytes: usize = match columns.checked_mul(2) {
            Some(bytes) => bytes,
            None => {
                return Err("embedding dimension overflow".to_owned());
            },
        };
        let start: usize = match token_id.checked_mul(row_bytes) {
            Some(start) => start,
            None => {
                return Err("embedding row offset overflow".to_owned());
            },
        };
        let end: usize = match start.checked_add(row_bytes) {
            Some(end) => end,
            None => {
                return Err("embedding row end overflow".to_owned());
            },
        };
        if end > tensor.bytes.len() {
            return Err("embedding tensor bytes are shorter than its shape".to_owned());
        }
        plan::plan_slice(start, end, plan_bf16_embedding_row(row_bytes, columns))
    }

    /// Plans the decoding of the row of a token in a resident BF16 table. The
    /// range is that of the row in the weight.
    pub fn bf16_embedding_tensor_buffer(
        &self,
        tensor: &TensorView<'_>,
        weight: &Bf16Weight,
        token_id: usize,
    ) -> (result: Result<SlicePlan, String>)
        ensures
            text::outcome_view(result) == bf16_embedding_tensor_buffer_plan(
                *tensor,
                *weight,
                token_id,
            ),
    {
        if !tensor.info.has_bf16_matrix() {
            return Err("embedding requires a rank-2 BF16 tensor".to_owned());
        }
        let rows: usize = tensor.info.shape[0];
        let columns: usize = tensor.info.shape[1];
        if token_id >= rows {
            return Err("embedding token id exceeds vocabulary".to_owned());
        }
        let expected: usize = match validate::checked_bf16_bytes(rows, columns) {
            Some(bytes) => bytes,
            None => {
                return Err("embedding dimensions overflow".to_owned());
            },
        };
        proof {
            assert(0 <= token_id * columns && token_id * columns + columns <= rows * columns)
                by (nonlinear_arith)
                requires
                    token_id < rows,
                    0 <= columns,
            ;
        }
        let start: usize = token_id * columns * 2;
        let end: usize = start + columns * 2;
        if weight.bytes != expected as u64 {
            return Err("resident embedding weight has an invalid byte length".to_owned());
        }
        let profile = Profile {
            weights: weight.bytes,
            state: 0,
            scratch: plan::bytes_of_values(columns),
            mapped: false,
        };
        let plan = plan::plan_of(
            profile,
            "",
            norm::command_of(plan_checked_row_launch(Kernel::Bf16EmbeddingRow, columns)),
            columns,
            "command",
        );
        plan::plan_slice(start, end, Ok(plan))
    }
}

} // verus!
