//! Plans for products with block-quantized matrices.
use vstd::prelude::*;

use super::context::MetalContext;
use super::kernel::{Constants, Dispatch, Grid, Kernel, Switches, Threads};
use super::norm;
use super::plan;
use super::plan::{Plan, PlanView, Profile, SlicePlan, SliceView};
use super::weights::QuantWeight;
use super::stats::Submission;
use super::wiring::Wiring;
use crate::quant;
use crate::quant::Quant;
use crate::tensor::GgufTensorView;
use crate::text;

verus! {

/// Whether wide groups of threads multiply four rows of a format.
pub open spec fn wide_rows(switches: Switches, format: Quant) -> bool {
    switches.rows4x128 && (format == Quant::Q4K || (format == Quant::Q6K && switches.rows4x128_q6))
}

/// Whether wide groups of threads multiply four rows of a format.
pub fn qk_rows4x128_for_type(switches: &Switches, format: Quant) -> (wide: bool)
    ensures
        wide == wide_rows(*switches, format),
{
    switches.rows4x128 && (format == Quant::Q4K || (format == Quant::Q6K && switches.rows4x128_q6))
}

/// Whether a group of threads multiplies four rows of a format.
pub open spec fn four_rows(switches: Switches, format: Quant) -> bool {
    wide_rows(switches, format) || switches.rows4
}

/// The kernel that multiplies a matrix of a format by a vector. There is none
/// for wide groups on Q5_K.
pub open spec fn matvec_kernel(format: Quant, wide: bool, rows4: bool) -> Kernel {
    match format {
        Quant::Q4K => if wide {
            Kernel::Q4KMatvecRows4x128
        } else if rows4 {
            Kernel::Q4KMatvecRows4
        } else {
            Kernel::Q4KMatvec
        },
        Quant::Q5K => if rows4 {
            Kernel::Q5KMatvecRows4
        } else {
            Kernel::Q5KMatvec
        },
        Quant::Q6K => if wide {
            Kernel::Q6KMatvecRows4x128
        } else if rows4 {
            Kernel::Q6KMatvecRows4
        } else {
            Kernel::Q6KMatvec
        },
    }
}

/// The kernel that multiplies a matrix of a format by a vector.
pub fn choose_matvec_kernel(format: Quant, wide: bool, rows4: bool) -> (kernel: Kernel)
    ensures
        kernel == matvec_kernel(format, wide, rows4),
{
    match format {
        Quant::Q4K => if wide {
            Kernel::Q4KMatvecRows4x128
        } else if rows4 {
            Kernel::Q4KMatvecRows4
        } else {
            Kernel::Q4KMatvec
        },
        Quant::Q5K => if rows4 {
            Kernel::Q5KMatvecRows4
        } else {
            Kernel::Q5KMatvec
        },
        Quant::Q6K => if wide {
            Kernel::Q6KMatvecRows4x128
        } else if rows4 {
            Kernel::Q6KMatvecRows4
        } else {
            Kernel::Q6KMatvec
        },
    }
}

/// How many groups of threads cover all rows.
pub open spec fn groups_of(rows: int, rows4: bool) -> u64 {
    if rows4 {
        ((rows + 3) / 4) as u64
    } else {
        rows as u64
    }
}

/// How many groups of threads cover all rows.
pub fn count_groups(rows: usize, rows4: bool) -> (groups: u64)
    ensures
        groups == groups_of(rows as int, rows4),
{
    if rows4 {
        let whole: u64 = rows as u64 / 4;
        if rows as u64 % 4 == 0 { whole } else { whole + 1 }
    } else {
        rows as u64
    }
}

/// Every row is covered, and each group but the last is full, whether a group
/// takes four rows or one.
pub proof fn law_groups_cover_rows(rows: usize, rows4: bool, row: int)
    requires
        0 <= row < rows,
    ensures
        ({
            let rows_of_group = if rows4 {
                4int
            } else {
                1
            };
            let groups = groups_of(rows as int, rows4);
            &&& 0 <= row / rows_of_group < groups
            &&& (groups - 1) * rows_of_group < rows <= groups * rows_of_group
        }),
{
}

/// The most threads in a group of a product with one vector.
pub open spec fn most_threads(switches: Switches, rows4: bool) -> u64 {
    if rows4 && switches.rows4x128 {
        512
    } else {
        128
    }
}

/// The launch of a product of one matrix with one vector.
pub open spec fn quant_launch(
    format: Quant,
    kernel: Kernel,
    rows: usize,
    columns: usize,
    rows4: bool,
    switches: Switches,
) -> Result<Dispatch, Seq<char>> {
    plan::matrix_launch(
        kernel,
        columns as int,
        rows as int,
        quant::label_of(format) + " columns exceed Metal limits"@,
        quant::label_of(format) + " rows exceed Metal limits"@,
        groups_of(rows as int, rows4),
        most_threads(switches, rows4),
    )
}

fn plan_quant_launch(
    format: Quant,
    kernel: Kernel,
    rows: usize,
    columns: usize,
    rows4: bool,
    switches: &Switches,
) -> (launch: Result<Dispatch, String>)
    ensures
        text::outcome(launch) == quant_launch(format, kernel, rows, columns, rows4, *switches),
{
    let columns_message = text::concat2(format.label(), " columns exceed Metal limits");
    let rows_message = text::concat2(format.label(), " rows exceed Metal limits");
    let most: u64 = if rows4 && switches.rows4x128 { 512 } else { 128 };
    plan::plan_matrix(
        kernel,
        columns,
        rows,
        columns_message.as_str(),
        rows_message.as_str(),
        count_groups(rows, rows4),
        most,
    )
}

/// The input and output of a product with one vector.
pub open spec fn vector_scratch(input: usize, rows: usize) -> u64 {
    plan::plus(plan::value_bytes(input as int), plan::value_bytes(rows as int))
}

fn scratch_of_vector(input: usize, rows: usize) -> (bytes: u64)
    ensures
        bytes == vector_scratch(input, rows),
{
    plan::sum(plan::bytes_of_values(input), plan::bytes_of_values(rows))
}

/// The plan of a product of mapped bytes with one vector.
pub open spec fn quant_bytes_plan(
    format: Quant,
    kernel: Kernel,
    weight_len: nat,
    rows: usize,
    columns: usize,
    input: usize,
    rows4: bool,
    switches: Switches,
) -> Result<PlanView, Seq<char>> {
    let label = quant::label_of(format);
    if rows == 0 || columns == 0 || columns % 256 != 0 || input != columns {
        Err(label + " matvec dimensions are invalid"@)
    } else if rows * (columns / 256) > usize::MAX {
        Err(label + " matvec block count overflows"@)
    } else if quant::quant_bytes(format, rows as int, columns as int) > usize::MAX {
        Err(label + " matvec byte length overflows"@)
    } else if weight_len != quant::quant_bytes(format, rows as int, columns as int) {
        Err(label + " matvec byte length is invalid"@)
    } else {
        Ok(
            plan::single_output(
                Profile {
                    weights: weight_len as u64,
                    state: 0,
                    scratch: vector_scratch(input, rows),
                    mapped: true,
                },
                "Metal could not bind the mapped "@ + label + " weight bytes"@,
                norm::launch_of(quant_launch(format, kernel, rows, columns, rows4, switches)),
                rows,
                label + " matvec command"@,
            ),
        )
    }
}

fn plan_quant_bytes(
    format: Quant,
    kernel: Kernel,
    weight_len: usize,
    rows: usize,
    columns: usize,
    input: usize,
    rows4: bool,
    switches: &Switches,
) -> (result: Result<Plan, String>)
    ensures
        text::outcome_view(result) == quant_bytes_plan(
            format,
            kernel,
            weight_len as nat,
            rows,
            columns,
            input,
            rows4,
            *switches,
        ),
{
    let label = format.label();
    if rows == 0 || columns == 0 || columns % 256 != 0 || input != columns {
        return Err(text::concat2(label, " matvec dimensions are invalid"));
    }
    let blocks: usize = match rows.checked_mul(columns / 256) {
        Some(blocks) => blocks,
        None => {
            return Err(text::concat2(label, " matvec block count overflows"));
        },
    };
    let expected: usize = match blocks.checked_mul(format.block_bytes()) {
        Some(bytes) => bytes,
        None => {
            return Err(text::concat2(label, " matvec byte length overflows"));
        },
    };
    if weight_len != expected {
        return Err(text::concat2(label, " matvec byte length is invalid"));
    }
    let profile = Profile {
        weights: weight_len as u64,
        state: 0,
        scratch: scratch_of_vector(input, rows),
        mapped: true,
    };
    let unbound = text::concat3("Metal could not bind the mapped ", label, " weight bytes");
    let operation = text::concat2(label, " matvec command");
    Ok(
        plan::plan_of(
            profile,
            unbound.as_str(),
            norm::command_of(plan_quant_launch(format, kernel, rows, columns, rows4, switches)),
            rows,
            operation.as_str(),
        ),
    )
}

/// The plan of a product of mapped bytes with one vector, on the kernel that
/// the switches choose.
pub open spec fn quant_matvec_plan(
    format: Quant,
    weight_len: nat,
    rows: usize,
    columns: usize,
    input: usize,
    switches: Switches,
) -> Result<PlanView, Seq<char>> {
    quant_bytes_plan(
        format,
        matvec_kernel(format, wide_rows(switches, format), four_rows(switches, format)),
        weight_len,
        rows,
        columns,
        input,
        four_rows(switches, format),
        switches,
    )
}

fn plan_quant_matvec(
    format: Quant,
    weight_len: usize,
    rows: usize,
    columns: usize,
    input: usize,
    switches: &Switches,
) -> (result: Result<Plan, String>)
    ensures
        text::outcome_view(result) == quant_matvec_plan(
            format,
            weight_len as nat,
            rows,
            columns,
            input,
            *switches,
        ),
{
    let wide = qk_rows4x128_for_type(switches, format);
    let rows4 = wide || switches.rows4;
    plan_quant_bytes(
        format,
        choose_matvec_kernel(format, wide, rows4),
        weight_len,
        rows,
        columns,
        input,
        rows4,
        switches,
    )
}

pub open spec fn gguf_quant_matvec_bytes_plan(
    ggml_type: u32,
    weight_len: nat,
    rows: usize,
    columns: usize,
    input: usize,
    switches: Switches,
) -> Result<PlanView, Seq<char>> {
    match quant::quant_of(ggml_type) {
        None => Err("unsupported staged quantized weight type"@),
        Some(format) => quant_matvec_plan(format, weight_len, rows, columns, input, switches),
    }
}

pub open spec fn gguf_quant_matvec_weight_plan(
    weight: QuantWeight,
    rows: usize,
    columns: usize,
    input: usize,
    switches: Switches,
) -> Result<PlanView, Seq<char>> {
    match quant::quant_of(weight.ggml_type) {
        None => Err("unsupported retained quantized weight type"@),
        Some(format) => {
            let label = quant::label_of(format);
            let rows4 = four_rows(switches, format);
            if rows == 0 || columns == 0 || columns % 256 != 0 || input != columns {
                Err(label + " retained matvec dimensions are invalid"@)
            } else if quant::quant_bytes(format, rows as int, columns as int) > usize::MAX {
                Err(label + " retained matvec byte length overflows"@)
            } else if weight.bytes != quant::quant_bytes(format, rows as int, columns as int) {
                Err(label + " retained matvec byte length is invalid"@)
            } else {
                Ok(
                    plan::single_output(
                        norm::scratch_only(vector_scratch(input, rows)),
                        ""@,
                        norm::launch_of(
                            quant_launch(
                                format,
                                matvec_kernel(format, wide_rows(switches, format), rows4),
                                rows,
                                columns,
                                rows4,
                                switches,
                            ),
                        ),
                        rows,
                        label + " retained matvec command"@,
                    ),
                )
            }
        },
    }
}

/// The plan of a product of some rows of a tensor with one vector.
pub open spec fn quant_rows_plan(
    format: Quant,
    tensor: GgufTensorView,
    row_start: usize,
    row_count: usize,
    input: usize,
    switches: Switches,
) -> Result<SliceView, Seq<char>> {
    let label = quant::label_of(format);
    let columns = tensor.info.shape@[0];
    let rows = tensor.info.shape@[1];
    let row_bytes = quant::quant_row_bytes(format, columns as int);
    let start = row_start * row_bytes;
    let len = row_count * row_bytes;
    if quant::quant_of(tensor.info.ggml_type) != Some(format) || tensor.info.shape@.len() != 2 {
        Err(label + " matvec requires a rank-2 "@ + label + " tensor"@)
    } else if row_count == 0 || row_start >= rows || row_count > rows - row_start {
        Err(label + " row range is invalid"@)
    } else if columns % 256 != 0 || input != columns {
        Err(label + " tensor columns or input length is invalid"@)
    } else if start > usize::MAX {
        Err(label + " row byte range overflows"@)
    } else if len > usize::MAX {
        Err(label + " row byte length overflows"@)
    } else if start + len > usize::MAX {
        Err(label + " row byte range overflows"@)
    } else if start + len > tensor.bytes@.len() {
        Err(label + " tensor payload is shorter than its shape"@)
    } else {
        plan::slice_plan(
            start,
            start + len,
            quant_matvec_plan(format, len as nat, row_count, columns, input, switches),
        )
    }
}

fn plan_quant_rows(
    format: Quant,
    tensor: &GgufTensorView<'_>,
    row_start: usize,
    row_count: usize,
    input: usize,
    switches: &Switches,
) -> (result: Result<SlicePlan, String>)
    ensures
        text::outcome_view(result) == quant_rows_plan(
            format,
            *tensor,
            row_start,
            row_count,
            input,
            *switches,
        ),
{
    let label = format.label();
    let matches_format = match quant::quant_type(tensor.info.ggml_type) {
        Some(found) => found == format,
        None => false,
    };
    if !matches_format || tensor.info.shape.len() != 2 {
        return Err(text::concat4(label, " matvec requires a rank-2 ", label, " tensor"));
    }
    let columns: usize = tensor.info.shape[0];
    let rows: usize = tensor.info.shape[1];
    if row_count == 0 || row_start >= rows || row_count > rows - row_start {
        return Err(text::concat2(label, " row range is invalid"));
    }
    if columns % 256 != 0 || input != columns {
        return Err(text::concat2(label, " tensor columns or input length is invalid"));
    }
    let row_bytes: usize = quant::row_bytes(format, columns);
    let start: usize = match row_start.checked_mul(row_bytes) {
        Some(start) => start,
        None => {
            return Err(text::concat2(label, " row byte range overflows"));
        },
    };
    let len: usize = match row_count.checked_mul(row_bytes) {
        Some(len) => len,
        None => {
            return Err(text::concat2(label, " row byte length overflows"));
        },
    };
    let end: usize = match start.checked_add(len) {
        Some(end) => end,
        None => {
            return Err(text::concat2(label, " row byte range overflows"));
        },
    };
    if end > tensor.bytes.len() {
        return Err(text::concat2(label, " tensor payload is shorter than its shape"));
    }
    plan::plan_slice(
        start,
        end,
        plan_quant_matvec(format, len, row_count, columns, input, switches),
    )
}

pub open spec fn q4_k_matvec_tensor_plan(
    tensor: GgufTensorView,
    input: usize,
    switches: Switches,
) -> Result<SliceView, Seq<char>> {
    if tensor.info.shape@.len() != 2 {
        Err("Q4_K matvec requires a rank-2 tensor"@)
    } else {
        quant_rows_plan(Quant::Q4K, tensor, 0, tensor.info.shape@[1], input, switches)
    }
}

pub open spec fn gguf_quant_matvec_tensor_rows_plan(
    tensor: GgufTensorView,
    row_start: usize,
    row_count: usize,
    input: usize,
    switches: Switches,
) -> Result<SliceView, Seq<char>> {
    match quant::quant_of(tensor.info.ggml_type) {
        Some(format) => quant_rows_plan(format, tensor, row_start, row_count, input, switches),
        None => Err(
            "GGUF tensor "@ + tensor.info.name@ + " has unsupported quantized type "@
                + text::decimal(tensor.info.ggml_type as nat),
        ),
    }
}

/// The kernel that multiplies a matrix of a format by several vectors.
pub open spec fn matmul_kernel(format: Quant) -> Kernel {
    match format {
        Quant::Q4K => Kernel::Q4KMatmulMany,
        Quant::Q5K => Kernel::Q5KMatmulMany,
        Quant::Q6K => Kernel::Q6KMatmulMany,
    }
}

fn choose_matmul_kernel(format: Quant) -> (kernel: Kernel)
    ensures
        kernel == matmul_kernel(format),
{
    match format {
        Quant::Q4K => Kernel::Q4KMatmulMany,
        Quant::Q5K => Kernel::Q5KMatmulMany,
        Quant::Q6K => Kernel::Q6KMatmulMany,
    }
}

/// How the messages about a product with several vectors read.
pub struct BatchMessages<'a> {
    pub dimensions: &'a str,
    pub input: &'a str,
    pub format: &'a str,
    pub overflow: &'a str,
    pub length: &'a str,
    pub outputs: &'a str,
    pub output_bytes: &'a str,
    pub columns: &'a str,
    pub rows: &'a str,
    pub operation: &'a str,
}

/// A plan with one buffer that holds an output for each vector of a batch.
pub open spec fn batch_plan(
    profile: Profile,
    command: Result<Seq<Dispatch>, Seq<char>>,
    rows: usize,
    batch: usize,
    operation: Seq<char>,
) -> PlanView {
    PlanView {
        profile,
        unbound: ""@,
        command,
        wiring: Wiring::Batch(batch),
        submission: Submission::AtOnce,
        buffers: seq![plan::value_bytes(batch * rows)],
        outputs: Seq::new(batch as nat, |candidate: int| rows),
        operation,
    }
}

/// A plan with one buffer that holds an output for each vector of a batch.
pub fn plan_batch(
    profile: Profile,
    command: Result<Vec<Dispatch>, String>,
    rows: usize,
    batch: usize,
    elements: usize,
    operation: &str,
) -> (plan: Plan)
    requires
        elements == batch * rows,
    ensures
        plan@ == batch_plan(profile, plan::command_view(command), rows, batch, operation@),
{
    let buffers: Vec<u64> = vec![plan::bytes_of_values(elements)];
    let mut outputs: Vec<usize> = Vec::new();
    let mut candidate: usize = 0;
    while candidate < batch
        invariant
            candidate <= batch,
            outputs@ =~= Seq::new(candidate as nat, |candidate: int| rows),
        decreases batch - candidate,
    {
        outputs.push(rows);
        candidate += 1;
    }
    proof {
        assert(buffers@ =~= seq![plan::value_bytes(batch * rows)]);
    }
    Plan {
        profile,
        unbound: "".to_owned(),
        command,
        wiring: Wiring::Batch(batch),
        submission: Submission::AtOnce,
        buffers,
        outputs,
        operation: operation.to_owned(),
    }
}

/// The launch of a product of one matrix with several vectors.
pub open spec fn matmul_launch(
    format: Quant,
    rows: usize,
    columns: usize,
    batch: usize,
    messages: BatchMessages,
) -> Result<Dispatch, Seq<char>> {
    if columns > u32::MAX {
        Err(messages.columns@)
    } else if rows > u32::MAX {
        Err(messages.rows@)
    } else {
        Ok(
            Dispatch {
                kernel: matmul_kernel(format),
                constants: Constants::Three(columns as u32, rows as u32, batch as u32),
                grid: Grid::Groups(rows as u64),
                threads: Threads::AtMost(128),
            },
        )
    }
}

/// The plan of a product of one matrix with one to eight vectors.
pub open spec fn matmul_many_plan(
    ggml_type: u32,
    weight_bytes: nat,
    retained: bool,
    rows: usize,
    columns: usize,
    batch: usize,
    inputs: usize,
    messages: BatchMessages,
) -> Result<PlanView, Seq<char>> {
    if !(1 <= batch <= 8) || rows == 0 || columns == 0 || columns % 256 != 0 {
        Err(messages.dimensions@)
    } else if inputs != (if batch * columns > usize::MAX {
        usize::MAX as int
    } else {
        batch * columns
    }) {
        Err(messages.input@)
    } else {
        match quant::quant_of(ggml_type) {
            None => Err(messages.format@),
            Some(format) => {
                if quant::quant_bytes(format, rows as int, columns as int) > usize::MAX {
                    Err(messages.overflow@)
                } else if weight_bytes != quant::quant_bytes(format, rows as int, columns as int) {
                    Err(messages.length@)
                } else if batch * rows > usize::MAX {
                    Err(messages.outputs@)
                } else if batch * rows * 4 > usize::MAX {
                    Err(messages.output_bytes@)
                } else {
                    Ok(
                        batch_plan(
                            Profile {
                                weights: if retained {
                                    0
                                } else {
                                    weight_bytes as u64
                                },
                                state: 0,
                                scratch: plan::plus(
                                    plan::value_bytes(inputs as int),
                                    plan::value_bytes(batch * rows),
                                ),
                                mapped: !retained,
                            },
                            norm::launch_of(matmul_launch(format, rows, columns, batch, messages)),
                            rows,
                            batch,
                            messages.operation@,
                        ),
                    )
                }
            },
        }
    }
}

fn plan_matmul_many(
    ggml_type: u32,
    weight_bytes: u64,
    retained: bool,
    rows: usize,
    columns: usize,
    batch: usize,
    inputs: usize,
    messages: &BatchMessages<'_>,
) -> (result: Result<Plan, String>)
    ensures
        text::outcome_view(result) == matmul_many_plan(
            ggml_type,
            weight_bytes as nat,
            retained,
            rows,
            columns,
            batch,
            inputs,
            *messages,
        ),
{
    if batch == 0 || batch > 8 || rows == 0 || columns == 0 || columns % 256 != 0 {
        return Err(messages.dimensions.to_owned());
    }
    let expected_inputs: usize = match batch.checked_mul(columns) {
        Some(values) => values,
        None => usize::MAX,
    };
    if inputs != expected_inputs {
        return Err(messages.input.to_owned());
    }
    let format = match quant::quant_type(ggml_type) {
        Some(format) => format,
        None => {
            return Err(messages.format.to_owned());
        },
    };
    let expected: usize = match quant::checked_quant_bytes(format, rows, columns) {
        Some(bytes) => bytes,
        None => {
            return Err(messages.overflow.to_owned());
        },
    };
    if weight_bytes != expected as u64 {
        return Err(messages.length.to_owned());
    }
    let elements: usize = match batch.checked_mul(rows) {
        Some(elements) => elements,
        None => {
            return Err(messages.outputs.to_owned());
        },
    };
    if elements.checked_mul(4).is_none() {
        return Err(messages.output_bytes.to_owned());
    }
    let profile = Profile {
        weights: if retained { 0 } else { weight_bytes },
        state: 0,
        scratch: plan::sum(plan::bytes_of_values(inputs), plan::bytes_of_values(elements)),
        mapped: !retained,
    };
    let launch: Result<Dispatch, String> = if columns as u64 > 0xffff_ffff {
        Err(messages.columns.to_owned())
    } else if rows as u64 > 0xffff_ffff {
        Err(messages.rows.to_owned())
    } else {
        Ok(
            Dispatch {
                kernel: choose_matmul_kernel(format),
                constants: Constants::Three(columns as u32, rows as u32, batch as u32),
                grid: Grid::Groups(rows as u64),
                threads: Threads::AtMost(128),
            },
        )
    };
    Ok(
        plan_batch(
            profile,
            norm::command_of(launch),
            rows,
            batch,
            elements,
            messages.operation,
        ),
    )
}

/// The messages of a product with bytes of a mapping.
pub open spec fn mapped_messages() -> BatchMessages<'static> {
    BatchMessages {
        dimensions: "batched quantized matvec dimensions are invalid",
        input: "batched quantized input length is invalid",
        format: "unsupported batched quantized weight type",
        overflow: "batched quantized weight byte length overflows",
        length: "batched quantized weight byte length is invalid",
        outputs: "batched quantized output dimensions overflow",
        output_bytes: "batched quantized output byte length overflows",
        columns: "batched columns exceed limits",
        rows: "batched rows exceed limits",
        operation: "batched quantized matvec command",
    }
}

/// The messages of a product with a retained matrix.
pub open spec fn retained_messages() -> BatchMessages<'static> {
    BatchMessages {
        dimensions: "batched retained quantized dimensions are invalid",
        input: "batched retained quantized input length is invalid",
        format: "unsupported retained batched quantized type",
        overflow: "retained batched weight byte length overflows",
        length: "retained batched weight byte length is invalid",
        outputs: "retained batched output dimensions overflow",
        output_bytes: "retained batched output byte length overflows",
        columns: "retained columns exceed limits",
        rows: "retained rows exceed limits",
        operation: "retained batched quantized matvec command",
    }
}

impl MetalContext {
    /// Plans the product of a Q4_K matrix with a vector.
    pub fn q4_k_matvec(
        &self,
        weight_bytes: &[u8],
        rows: usize,
        columns: usize,
        input: usize,
        switches: &Switches,
    ) -> (result: Result<Plan, String>)
        ensures
            text::outcome_view(result) == quant_matvec_plan(
                Quant::Q4K,
                weight_bytes@.len(),
                rows,
                columns,
                input,
                *switches,
            ),
    {
        plan_quant_matvec(Quant::Q4K, weight_bytes.len(), rows, columns, input, switches)
    }

    /// Plans the product of a Q5_K matrix with a vector, one row for each group of threads.
    pub fn q5_k_matvec(
        &self,
        weight_bytes: &[u8],
        rows: usize,
        columns: usize,
        input: usize,
        switches: &Switches,
    ) -> (result: Result<Plan, String>)
        ensures
            text::outcome_view(result) == quant_bytes_plan(
                Quant::Q5K,
                Kernel::Q5KMatvec,
                weight_bytes@.len(),
                rows,
                columns,
                input,
                false,
                *switches,
            ),
    {
        plan_quant_bytes(
            Quant::Q5K,
            Kernel::Q5KMatvec,
            weight_bytes.len(),
            rows,
            columns,
            input,
            false,
            switches,
        )
    }

    /// Plans the product of a Q6_K matrix with a vector, one row for each group of threads.
    pub fn q6_k_matvec(
        &self,
        weight_bytes: &[u8],
        rows: usize,
        columns: usize,
        input: usize,
        switches: &Switches,
    ) -> (result: Result<Plan, String>)
        ensures
            text::outcome_view(result) == quant_bytes_plan(
                Quant::Q6K,
                Kernel::Q6KMatvec,
                weight_bytes@.len(),
                rows,
                columns,
                input,
                false,
                *switches,
            ),
    {
        plan_quant_bytes(
            Quant::Q6K,
            Kernel::Q6KMatvec,
            weight_bytes.len(),
            rows,
            columns,
            input,
            false,
            switches,
        )
    }

    /// Plans the product of a staged matrix of any format with a vector.
    pub fn gguf_quant_matvec_bytes(
        &self,
        ggml_type: u32,
        weight_bytes: &[u8],
        rows: usize,
        columns: usize,
        input: usize,
        switches: &Switches,
    ) -> (result: Result<Plan, String>)
        ensures
            text::outcome_view(result) == gguf_quant_matvec_bytes_plan(
                ggml_type,
                weight_bytes@.len(),
                rows,
                columns,
                input,
                *switches,
            ),
    {
        match quant::quant_type(ggml_type) {
            None => Err("unsupported staged quantized weight type".to_owned()),
            Some(format) => plan_quant_matvec(
                format,
                weight_bytes.len(),
                rows,
                columns,
                input,
                switches,
            ),
        }
    }

    /// Plans the product of a retained matrix with a vector.
    pub fn gguf_quant_matvec_weight(
        &self,
        weight: &QuantWeight,
        rows: usize,
        columns: usize,
        input: usize,
        switches: &Switches,
    ) -> (result: Result<Plan, String>)
        ensures
            text::outcome_view(result) == gguf_quant_matvec_weight_plan(
                *weight,
                rows,
                columns,
                input,
                *switches,
            ),
    {
        let format = match quant::quant_type(weight.ggml_type) {
            Some(format) => format,
            None => {
                return Err("unsupported retained quantized weight type".to_owned());
            },
        };
        let label = format.label();
        if rows == 0 || columns == 0 || columns % 256 != 0 || input != columns {
            return Err(text::concat2(label, " retained matvec dimensions are invalid"));
        }
        let expected: usize = match quant::checked_quant_bytes(format, rows, columns) {
            Some(bytes) => bytes,
            None => {
                return Err(text::concat2(label, " retained matvec byte length overflows"));
            },
        };
        if weight.bytes != expected as u64 {
            return Err(text::concat2(label, " retained matvec byte length is invalid"));
        }
        let wide = qk_rows4x128_for_type(switches, format);
        let rows4 = wide || switches.rows4;
        let profile = Profile {
            weights: 0,
            state: 0,
            scratch: scratch_of_vector(input, rows),
            mapped: false,
        };
        let operation = text::concat2(label, " retained matvec command");
        Ok(
            plan::plan_of(
                profile,
                "",
                norm::command_of(
                    plan_quant_launch(
                        format,
                        choose_matvec_kernel(format, wide, rows4),
                        rows,
                        columns,
                        rows4,
                        switches,
                    ),
                ),
                rows,
                operation.as_str(),
            ),
        )
    }

    /// Plans the product of a mapped matrix with one to eight vectors.
    pub fn gguf_quant_matmul_many_bytes(
        &self,
        ggml_type: u32,
        weight_bytes: &[u8],
        rows: usize,
        columns: usize,
        batch: usize,
        inputs: usize,
    ) -> (result: Result<Plan, String>)
        ensures
            text::outcome_view(result) == matmul_many_plan(
                ggml_type,
                weight_bytes@.len(),
                false,
                rows,
                columns,
                batch,
                inputs,
                mapped_messages(),
            ),
    {
        let messages = BatchMessages {
            dimensions: "batched quantized matvec dimensions are invalid",
            input: "batched quantized input length is invalid",
            format: "unsupported batched quantized weight type",
            overflow: "batched quantized weight byte length overflows",
            length: "batched quantized weight byte length is invalid",
            outputs: "batched quantized output dimensions overflow",
            output_bytes: "batched quantized output byte length overflows",
            columns: "batched columns exceed limits",
            rows: "batched rows exceed limits",
            operation: "batched quantized matvec command",
        };
        plan_matmul_many(
            ggml_type,
            weight_bytes.len() as u64,
            false,
            rows,
            columns,
            batch,
            inputs,
            &messages,
        )
    }

    /// Plans the product of a retained matrix with one to eight vectors.
    pub fn gguf_quant_matmul_many_weight(
        &self,
        weight: &QuantWeight,
        rows: usize,
        columns: usize,
        batch: usize,
        inputs: usize,
    ) -> (result: Result<Plan, String>)
        ensures
            text::outcome_view(result) == matmul_many_plan(
                weight.ggml_type,
                weight.bytes as nat,
                true,
                rows,
                columns,
                batch,
                inputs,
                retained_messages(),
            ),
    {
        let messages = BatchMessages {
            dimensions: "batched retained quantized dimensions are invalid",
            input: "batched retained quantized input length is invalid",
            format: "unsupported retained batched quantized type",
            overflow: "retained batched weight byte length overflows",
            length: "retained batched weight byte length is invalid",
            outputs: "retained batched output dimensions overflow",
            output_bytes: "retained batched output byte length overflows",
            columns: "retained columns exceed limits",
            rows: "retained rows exceed limits",
            operation: "retained batched quantized matvec command",
        };
        plan_matmul_many(
            weight.ggml_type,
            weight.bytes,
            true,
            rows,
            columns,
            batch,
            inputs,
            &messages,
        )
    }

    /// Plans the product of some rows of a Q4_K tensor with a vector.
    pub fn q4_k_matvec_tensor_rows(
        &self,
        tensor: &GgufTensorView<'_>,
        row_start: usize,
        row_count: usize,
        input: usize,
        switches: &Switches,
    ) -> (result: Result<SlicePlan, String>)
        ensures
            text::outcome_view(result) == quant_rows_plan(
                Quant::Q4K,
                *tensor,
                row_start,
                row_count,
                input,
                *switches,
            ),
    {
        plan_quant_rows(Quant::Q4K, tensor, row_start, row_count, input, switches)
    }

    /// Plans the product of all rows of a Q4_K tensor with a vector.
    pub fn q4_k_matvec_tensor(
        &self,
        tensor: &GgufTensorView<'_>,
        input: usize,
        switches: &Switches,
    ) -> (result: Result<SlicePlan, String>)
        ensures
            text::outcome_view(result) == q4_k_matvec_tensor_plan(*tensor, input, *switches),
    {
        if tensor.info.shape.len() != 2 {
            return Err("Q4_K matvec requires a rank-2 tensor".to_owned());
        }
        plan_quant_rows(Quant::Q4K, tensor, 0, tensor.info.shape[1], input, switches)
    }

    /// Plans the product of some rows of a Q5_K tensor with a vector.
    pub fn q5_k_matvec_tensor_rows(
        &self,
        tensor: &GgufTensorView<'_>,
        row_start: usize,
        row_count: usize,
        input: usize,
        switches: &Switches,
    ) -> (result: Result<SlicePlan, String>)
        ensures
            text::outcome_view(result) == quant_rows_plan(
                Quant::Q5K,
                *tensor,
                row_start,
                row_count,
                input,
                *switches,
            ),
    {
        plan_quant_rows(Quant::Q5K, tensor, row_start, row_count, input, switches)
    }

    /// Plans the product of some rows of a Q6_K tensor with a vector.
    pub fn q6_k_matvec_tensor_rows(
        &self,
        tensor: &GgufTensorView<'_>,
        row_start: usize,
        row_count: usize,
        input: usize,
        switches: &Switches,
    ) -> (result: Result<SlicePlan, String>)
        ensures
            text::outcome_view(result) == quant_rows_plan(
                Quant::Q6K,
                *tensor,
                row_start,
                row_count,
                input,
                *switches,
            ),
    {
        plan_quant_rows(Quant::Q6K, tensor, row_start, row_count, input, switches)
    }

    /// Plans the product of some rows of a quantized tensor with a vector.
    pub fn gguf_quant_matvec_tensor_rows(
        &self,
        tensor: &GgufTensorView<'_>,
        row_start: usize,
        row_count: usize,
        input: usize,
        switches: &Switches,
    ) -> (result: Result<SlicePlan, String>)
        ensures
            text::outcome_view(result) == gguf_quant_matvec_tensor_rows_plan(
                *tensor,
                row_start,
                row_count,
                input,
                *switches,
            ),
    {
        match quant::quant_type(tensor.info.ggml_type) {
            Some(format) => plan_quant_rows(format, tensor, row_start, row_count, input, switches),
            None => Err(
                text::concat4(
                    "GGUF tensor ",
                    tensor.info.name.as_str(),
                    " has unsupported quantized type ",
                    text::decimal_text(tensor.info.ggml_type as u64).as_str(),
                ),
            ),
        }
    }
}

} // verus!
