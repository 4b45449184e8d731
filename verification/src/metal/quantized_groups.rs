//! Plans for fused and grouped products with quantized and F32 matrices.
use vstd::prelude::*;

use super::context::MetalContext;
use super::group;
use super::group::{Group, Member};
use super::kernel::{Dispatch, Kernel, Switches};
use super::norm;
use super::plan;
use super::plan::{Plan, PlanView, Profile};
use super::quantized;
use super::weights::QuantWeight;
use super::stats::Submission;
use super::wiring;
use super::wiring::{Slot, Wiring};
use crate::quant;
use crate::quant::Quant;
use crate::tensor::GgufTensorView;
use crate::text;

verus! {

/// The most threads in a group of a fused gate/up product.
pub open spec fn fused_threads(switches: Switches) -> u64 {
    if switches.fused_rows4x128 {
        512
    } else {
        128
    }
}

fn count_fused_threads(switches: &Switches) -> (most: u64)
    ensures
        most == fused_threads(*switches),
{
    if switches.fused_rows4x128 { 512 } else { 128 }
}

pub open spec fn q4_k_fused_gate_up_plan(
    gate_len: nat,
    up_len: nat,
    rows: usize,
    columns: usize,
    input: usize,
    switches: Switches,
) -> Result<PlanView, Seq<char>> {
    let expected = quant::quant_bytes(Quant::Q4K, rows as int, columns as int);
    if rows == 0 || columns == 0 || columns % 256 != 0 || input != columns {
        Err("Q4_K fused gate/up dimensions are invalid"@)
    } else if rows * (columns / 256) > usize::MAX {
        Err("Q4_K fused gate/up block count overflows"@)
    } else if expected > usize::MAX {
        Err("Q4_K fused gate/up byte length overflows"@)
    } else if gate_len != expected || up_len != expected {
        Err("Q4_K fused gate/up byte length is invalid"@)
    } else {
        Ok(
            plan::single_output(
                Profile {
                    weights: plan::plus(gate_len as u64, up_len as u64),
                    state: 0,
                    scratch: quantized::vector_scratch(input, rows),
                    mapped: true,
                },
                "Metal could not bind mapped Q4_K fused gate/up weights"@,
                norm::launch_of(
                    plan::matrix_launch(
                        Kernel::Q4KFusedGateUp,
                        columns as int,
                        rows as int,
                        "Q4_K fused gate/up columns exceed limits"@,
                        "Q4_K fused gate/up rows exceed limits"@,
                        rows as u64,
                        fused_threads(switches),
                    ),
                ),
                rows,
                "Q4_K fused gate/up command"@,
            ),
        )
    }
}

pub open spec fn q4_k_fused_gate_up_weights_plan(
    gate: QuantWeight,
    up: QuantWeight,
    rows: usize,
    columns: usize,
    input: usize,
    switches: Switches,
) -> Result<PlanView, Seq<char>> {
    let expected = quant::quant_bytes(Quant::Q4K, rows as int, columns as int);
    if quant::quant_of(gate.ggml_type) != Some(Quant::Q4K) || quant::quant_of(up.ggml_type) != Some(
        Quant::Q4K,
    ) || gate.bytes != up.bytes || rows == 0 || columns == 0 || columns % 256 != 0 || input
        != columns {
        Err("retained Q4_K fused gate/up dimensions are invalid"@)
    } else if expected > usize::MAX {
        Err("retained Q4_K fused gate/up byte length overflows"@)
    } else if gate.bytes != expected {
        Err("retained Q4_K fused gate/up byte length is invalid"@)
    } else {
        Ok(
            plan::single_output(
                norm::scratch_only(quantized::vector_scratch(input, rows)),
                ""@,
                norm::launch_of(
                    plan::matrix_launch(
                        Kernel::Q4KFusedGateUp,
                        columns as int,
                        rows as int,
                        "retained gate/up columns exceed limits"@,
                        "retained gate/up rows exceed limits"@,
                        rows as u64,
                        fused_threads(switches),
                    ),
                ),
                rows,
                "retained Q4_K fused gate/up command"@,
            ),
        )
    }
}

/// The launches of a fused MLP: gate and up, then down.
pub open spec fn fused_mlp_launches(
    format: Quant,
    gate_rows: usize,
    columns: usize,
    down_rows: usize,
    switches: Switches,
) -> Seq<Result<Dispatch, Seq<char>>> {
    seq![
        plan::matrix_launch(
            Kernel::Q4KFusedGateUp,
            columns as int,
            gate_rows as int,
            "fused quantized MLP columns exceed limits"@,
            "fused quantized MLP gate rows exceed limits"@,
            gate_rows as u64,
            fused_threads(switches),
        ),
        plan::matrix_launch(
            quantized::matvec_kernel(format, false, switches.rows4),
            gate_rows as int,
            down_rows as int,
            "fused quantized MLP gate rows exceed limits"@,
            "fused quantized MLP down rows exceed limits"@,
            quantized::groups_of(down_rows as int, switches.rows4),
            128,
        ),
    ]
}

pub open spec fn fused_mlp_plan(
    gate: QuantWeight,
    up: QuantWeight,
    down: QuantWeight,
    gate_rows: usize,
    columns: usize,
    down_rows: usize,
    input: usize,
    switches: Switches,
) -> Result<PlanView, Seq<char>> {
    let gate_bytes = quant::quant_bytes(Quant::Q4K, gate_rows as int, columns as int);
    if quant::quant_of(gate.ggml_type) != Some(Quant::Q4K) || quant::quant_of(up.ggml_type) != Some(
        Quant::Q4K,
    ) || gate.bytes != up.bytes || gate_rows == 0 || columns == 0 || down_rows == 0 || columns % 256
        != 0 || input != columns {
        Err("fused quantized MLP dimensions are invalid"@)
    } else if gate_bytes > usize::MAX {
        Err("fused quantized MLP gate byte length overflows"@)
    } else if gate.bytes != gate_bytes {
        Err("fused quantized MLP gate byte length is invalid"@)
    } else {
        match quant::quant_of(down.ggml_type) {
            None => Err("unsupported fused quantized MLP down type"@),
            Some(format) => {
                let down_bytes = quant::quant_bytes(format, down_rows as int, gate_rows as int);
                if gate_rows % 256 != 0 {
                    Err("fused quantized MLP down columns are invalid"@)
                } else if down_bytes > usize::MAX {
                    Err("fused quantized MLP down byte length overflows"@)
                } else if down.bytes != down_bytes {
                    Err("fused quantized MLP down byte length is invalid"@)
                } else {
                    Ok(
                        PlanView {
                            profile: norm::scratch_only(
                                plan::total(
                                    seq![
                                        plan::value_bytes(input as int),
                                        plan::value_bytes(gate_rows as int),
                                        plan::value_bytes(down_rows as int),
                                    ],
                                ),
                            ),
                            unbound: ""@,
                            command: text::collected(
                                fused_mlp_launches(
                                    format,
                                    gate_rows,
                                    columns,
                                    down_rows,
                                    switches,
                                ),
                            ),
                            wiring: Wiring::Mlp,
                            submission: Submission::AtOnce,
                            buffers: seq![
                                plan::value_bytes(gate_rows as int),
                                plan::value_bytes(down_rows as int),
                            ],
                            outputs: seq![down_rows],
                            operation: "fused MLP "@ + quant::label_of(format) + " command"@,
                        },
                    )
                }
            },
        }
    }
}

fn plan_fused_mlp_launches(
    format: Quant,
    gate_rows: usize,
    columns: usize,
    down_rows: usize,
    switches: &Switches,
) -> (command: Result<Vec<Dispatch>, String>)
    ensures
        plan::command_view(command) == text::collected(
            fused_mlp_launches(format, gate_rows, columns, down_rows, *switches),
        ),
{
    let launches: Vec<Result<Dispatch, String>> = vec![
        plan::plan_matrix(
            Kernel::Q4KFusedGateUp,
            columns,
            gate_rows,
            "fused quantized MLP columns exceed limits",
            "fused quantized MLP gate rows exceed limits",
            gate_rows as u64,
            count_fused_threads(switches),
        ),
        plan::plan_matrix(
            quantized::choose_matvec_kernel(format, false, switches.rows4),
            gate_rows,
            down_rows,
            "fused quantized MLP gate rows exceed limits",
            "fused quantized MLP down rows exceed limits",
            quantized::count_groups(down_rows, switches.rows4),
            128,
        ),
    ];
    proof {
        assert(plan::launch_views(launches@) =~= fused_mlp_launches(
            format,
            gate_rows,
            columns,
            down_rows,
            *switches,
        ));
    }
    plan::collect_launches(&launches)
}

/// One tensor of a mapped group, or what is wrong with it. `bound` is the
/// number of bytes that the device could bind.
pub open spec fn mapped_member(tensor: GgufTensorView, columns: usize, bound: u64) -> Result<
    Member,
    Seq<char>,
> {
    match mapped_member_bytes(tensor, columns) {
        Err(message) => Err(message),
        Ok(bytes) => if bound < bytes {
            Err("Metal could not bind grouped quantized weights"@)
        } else {
            let rows = tensor.info.shape@[1];
            Ok(
                Member {
                    rows,
                    bytes: bytes as u64,
                    kernel: quantized::matvec_kernel(
                        quant::quant_of(tensor.info.ggml_type)->Some_0,
                        false,
                        false,
                    ),
                    groups: rows as u64,
                    most: 128,
                },
            )
        },
    }
}

/// How many bytes of a tensor a mapped group reads, or what is wrong with it.
pub open spec fn mapped_member_bytes(tensor: GgufTensorView, columns: usize) -> Result<
    usize,
    Seq<char>,
> {
    if tensor.info.shape@.len() != 2 || tensor.info.shape@[0] != columns || quant::quant_of(
        tensor.info.ggml_type,
    ) is None {
        Err("quantized matvec group tensor shapes or types differ"@)
    } else {
        let bytes = quant::quant_bytes(
            quant::quant_of(tensor.info.ggml_type)->Some_0,
            tensor.info.shape@[1] as int,
            columns as int,
        );
        if bytes > usize::MAX {
            Err("quantized matvec group byte length overflows"@)
        } else if tensor.bytes@.len() < bytes {
            Err("quantized matvec group tensor is truncated"@)
        } else {
            Ok(bytes as usize)
        }
    }
}

/// How many bytes of a tensor a mapped group reads.
pub fn grouped_tensor_bytes(tensor: &GgufTensorView<'_>, columns: usize) -> (result: Result<
    usize,
    String,
>)
    ensures
        text::outcome(result) == mapped_member_bytes(*tensor, columns),
{
    if tensor.info.shape.len() != 2 || tensor.info.shape[0] != columns {
        return Err("quantized matvec group tensor shapes or types differ".to_owned());
    }
    let format = match quant::quant_type(tensor.info.ggml_type) {
        Some(format) => format,
        None => {
            return Err("quantized matvec group tensor shapes or types differ".to_owned());
        },
    };
    let bytes: usize = match quant::checked_quant_bytes(format, tensor.info.shape[1], columns) {
        Some(bytes) => bytes,
        None => {
            return Err("quantized matvec group byte length overflows".to_owned());
        },
    };
    if tensor.bytes.len() < bytes {
        return Err("quantized matvec group tensor is truncated".to_owned());
    }
    Ok(bytes)
}

fn check_mapped_member(tensor: &GgufTensorView<'_>, columns: usize, bound: u64) -> (result: Result<
    Member,
    String,
>)
    ensures
        text::outcome(result) == mapped_member(*tensor, columns, bound),
{
    let bytes: usize = match grouped_tensor_bytes(tensor, columns) {
        Ok(bytes) => bytes,
        Err(message) => {
            return Err(message);
        },
    };
    if bound < bytes as u64 {
        return Err("Metal could not bind grouped quantized weights".to_owned());
    }
    let rows: usize = tensor.info.shape[1];
    match quant::quant_type(tensor.info.ggml_type) {
        Some(format) => Ok(
            Member {
                rows,
                bytes: bytes as u64,
                kernel: quantized::choose_matvec_kernel(format, false, false),
                groups: rows as u64,
                most: 128,
            },
        ),
        None => Err("quantized matvec group tensor shapes or types differ".to_owned()),
    }
}

pub open spec fn mapped_group(columns: usize) -> Group<'static> {
    Group {
        columns,
        columns_message: "grouped quantized columns exceed Metal limits",
        rows_message: "grouped quantized rows exceed Metal limits",
        operation: "grouped quantized matvec command",
        mapped: true,
    }
}

pub open spec fn mapped_members(
    tensors: Seq<&GgufTensorView>,
    columns: usize,
    bound: Seq<u64>,
) -> Seq<Result<Member, Seq<char>>> {
    Seq::new(tensors.len(), |i: int| mapped_member(*tensors[i], columns, bound[i]))
}

pub open spec fn many_tensors_plan(
    tensors: Seq<&GgufTensorView>,
    input: usize,
    bound: Seq<u64>,
) -> Result<PlanView, Seq<char>> {
    if tensors.len() == 0 {
        Err("quantized matvec group requires at least one tensor"@)
    } else if tensors[0].info.shape@.len() == 0 {
        Err("quantized matvec tensor is not a matrix"@)
    } else if input != tensors[0].info.shape@[0] {
        Err("quantized matvec group input length is invalid"@)
    } else {
        match text::collected(mapped_members(tensors, input, bound)) {
            Err(message) => Err(message),
            Ok(members) => Ok(group::group_plan(members, mapped_group(input))),
        }
    }
}

/// One matrix of a retained group, or what is wrong with it. The kernel and
/// the width of a group of threads go by the wide switch alone; only the
/// other switch lets a group take four rows.
pub open spec fn retained_member(
    matrix: (QuantWeight, usize, usize),
    columns: usize,
    switches: Switches,
) -> Result<Member, Seq<char>> {
    let (weight, rows, matrix_columns) = matrix;
    if rows == 0 || matrix_columns != columns || columns % 256 != 0 {
        Err("retained quantized matvec group shapes differ"@)
    } else {
        match quant::quant_of(weight.ggml_type) {
            None => Err("unsupported retained quantized matvec group type"@),
            Some(format) => {
                let bytes = quant::quant_bytes(format, rows as int, columns as int);
                let wide = quantized::wide_rows(switches, format);
                if bytes > usize::MAX {
                    Err("retained quantized matvec group byte length overflows"@)
                } else if weight.bytes != bytes {
                    Err("retained quantized matvec group byte length is invalid"@)
                } else {
                    Ok(
                        Member {
                            rows,
                            bytes: weight.bytes,
                            kernel: quantized::matvec_kernel(format, wide, switches.rows4),
                            groups: quantized::groups_of(rows as int, switches.rows4),
                            most: if wide {
                                512
                            } else {
                                128
                            },
                        },
                    )
                }
            },
        }
    }
}

fn check_retained_member(
    matrix: &(QuantWeight, usize, usize),
    columns: usize,
    switches: &Switches,
) -> (result: Result<Member, String>)
    ensures
        text::outcome(result) == retained_member(*matrix, columns, *switches),
{
    let (weight, rows, matrix_columns) = *matrix;
    if rows == 0 || matrix_columns != columns || columns % 256 != 0 {
        return Err("retained quantized matvec group shapes differ".to_owned());
    }
    let format = match quant::quant_type(weight.ggml_type) {
        Some(format) => format,
        None => {
            return Err("unsupported retained quantized matvec group type".to_owned());
        },
    };
    let bytes: usize = match quant::checked_quant_bytes(format, rows, columns) {
        Some(bytes) => bytes,
        None => {
            return Err("retained quantized matvec group byte length overflows".to_owned());
        },
    };
    if weight.bytes != bytes as u64 {
        return Err("retained quantized matvec group byte length is invalid".to_owned());
    }
    let wide = quantized::qk_rows4x128_for_type(switches, format);
    Ok(
        Member {
            rows,
            bytes: weight.bytes,
            kernel: quantized::choose_matvec_kernel(format, wide, switches.rows4),
            groups: quantized::count_groups(rows, switches.rows4),
            most: if wide { 512 } else { 128 },
        },
    )
}

pub open spec fn retained_group(columns: usize) -> Group<'static> {
    Group {
        columns,
        columns_message: "retained quantized columns exceed Metal limits",
        rows_message: "retained quantized rows exceed Metal limits",
        operation: "retained grouped quantized matvec command",
        mapped: false,
    }
}

pub open spec fn retained_members(
    weights: Seq<(QuantWeight, usize, usize)>,
    columns: usize,
    switches: Switches,
) -> Seq<Result<Member, Seq<char>>> {
    weights.map_values(
        |matrix: (QuantWeight, usize, usize)| retained_member(matrix, columns, switches),
    )
}

pub open spec fn many_weights_plan(
    weights: Seq<(QuantWeight, usize, usize)>,
    input: usize,
    switches: Switches,
) -> Result<PlanView, Seq<char>> {
    if weights.len() == 0 {
        Err("retained quantized matvec group requires at least one weight"@)
    } else if weights[0].2 == 0 || input != weights[0].2 {
        Err("retained quantized matvec group input length is invalid"@)
    } else {
        match text::collected(retained_members(weights, input, switches)) {
            Err(message) => Err(message),
            Ok(members) => Ok(group::group_plan(members, retained_group(input))),
        }
    }
}

/// Whether every tensor of a staged group has a format for wide groups of threads.
pub open spec fn all_wide(tensors: Seq<(u32, &[u8], usize, usize)>, switches: Switches) -> bool {
    switches.rows4x128 && forall|i: int|
        #![trigger tensors[i]]
        0 <= i < tensors.len() ==> match quant::quant_of(tensors[i].0) {
            Some(format) => quantized::wide_rows(switches, format),
            None => false,
        }
}

fn check_all_wide(tensors: &[(u32, &[u8], usize, usize)], switches: &Switches) -> (wide: bool)
    ensures
        wide == all_wide(tensors@, *switches),
{
    if !switches.rows4x128 {
        return false;
    }
    let mut index: usize = 0;
    while index < tensors.len()
        invariant
            index <= tensors@.len(),
            switches.rows4x128,
            forall|i: int|
                #![trigger tensors@[i]]
                0 <= i < index ==> match quant::quant_of(tensors@[i].0) {
                    Some(format) => quantized::wide_rows(*switches, format),
                    None => false,
                },
        decreases tensors@.len() - index,
    {
        let qualifies = match quant::quant_type(tensors[index].0) {
            Some(format) => quantized::qk_rows4x128_for_type(switches, format),
            None => false,
        };
        if !qualifies {
            return false;
        }
        index += 1;
    }
    true
}

/// One tensor of a staged group, or what is wrong with it.
pub open spec fn staged_member(
    tensor: (u32, &[u8], usize, usize),
    columns: usize,
    wide: bool,
    rows4: bool,
    bound: u64,
) -> Result<Member, Seq<char>> {
    let (ggml_type, bytes, rows, tensor_columns) = tensor;
    if rows == 0 || tensor_columns != columns || columns % 256 != 0 {
        Err("staged quantized matvec group shapes differ"@)
    } else {
        match quant::quant_of(ggml_type) {
            None => Err("unsupported staged quantized tensor type"@),
            Some(format) => {
                let expected = quant::quant_bytes(format, rows as int, columns as int);
                if expected > usize::MAX {
                    Err("staged quantized matvec group byte length overflows"@)
                } else if bytes@.len() != expected {
                    Err("staged quantized matvec tensor byte length is invalid"@)
                } else if bound < bytes@.len() {
                    Err("Metal could not bind staged grouped quantized weights"@)
                } else {
                    Ok(
                        Member {
                            rows,
                            bytes: expected as u64,
                            kernel: quantized::matvec_kernel(format, wide, rows4),
                            groups: quantized::groups_of(rows as int, rows4),
                            most: 128,
                        },
                    )
                }
            },
        }
    }
}

fn check_staged_member(
    tensor: &(u32, &[u8], usize, usize),
    columns: usize,
    wide: bool,
    rows4: bool,
    bound: u64,
) -> (result: Result<Member, String>)
    ensures
        text::outcome(result) == staged_member(*tensor, columns, wide, rows4, bound),
{
    let (ggml_type, bytes, rows, tensor_columns) = *tensor;
    if rows == 0 || tensor_columns != columns || columns % 256 != 0 {
        return Err("staged quantized matvec group shapes differ".to_owned());
    }
    let format = match quant::quant_type(ggml_type) {
        Some(format) => format,
        None => {
            return Err("unsupported staged quantized tensor type".to_owned());
        },
    };
    let expected: usize = match quant::checked_quant_bytes(format, rows, columns) {
        Some(bytes) => bytes,
        None => {
            return Err("staged quantized matvec group byte length overflows".to_owned());
        },
    };
    if bytes.len() != expected {
        return Err("staged quantized matvec tensor byte length is invalid".to_owned());
    }
    if bound < bytes.len() as u64 {
        return Err("Metal could not bind staged grouped quantized weights".to_owned());
    }
    Ok(
        Member {
            rows,
            bytes: expected as u64,
            kernel: quantized::choose_matvec_kernel(format, wide, rows4),
            groups: quantized::count_groups(rows, rows4),
            most: 128,
        },
    )
}

pub open spec fn staged_group(columns: usize) -> Group<'static> {
    Group {
        columns,
        columns_message: "staged grouped quantized columns exceed Metal limits",
        rows_message: "staged grouped quantized rows exceed Metal limits",
        operation: "staged grouped quantized matvec command",
        mapped: true,
    }
}

pub open spec fn staged_members(
    tensors: Seq<(u32, &[u8], usize, usize)>,
    columns: usize,
    switches: Switches,
    bound: Seq<u64>,
) -> Seq<Result<Member, Seq<char>>> {
    let wide = all_wide(tensors, switches);
    Seq::new(
        tensors.len(),
        |i: int| staged_member(tensors[i], columns, wide, wide || switches.rows4, bound[i]),
    )
}

pub open spec fn many_bytes_plan(
    tensors: Seq<(u32, &[u8], usize, usize)>,
    input: usize,
    switches: Switches,
    bound: Seq<u64>,
) -> Result<PlanView, Seq<char>> {
    if tensors.len() == 0 {
        Err("staged quantized matvec group requires at least one tensor"@)
    } else if tensors[0].3 == 0 || input != tensors[0].3 {
        Err("staged quantized matvec group input length is invalid"@)
    } else {
        match text::collected(staged_members(tensors, input, switches, bound)) {
            Err(message) => Err(message),
            Ok(members) => Ok(group::group_plan(members, staged_group(input))),
        }
    }
}

/// One F32 tensor of a group, or what is wrong with it.
pub open spec fn f32_member(tensor: GgufTensorView, columns: usize) -> Result<Member, Seq<char>> {
    let rows = tensor.info.shape@[1];
    if tensor.info.ggml_type != quant::GGML_TYPE_F32 || tensor.info.shape@.len() != 2
        || tensor.info.shape@[0] != columns {
        Err("GGUF F32 matvec group shapes or types differ"@)
    } else if rows * columns > usize::MAX || rows * columns * 4 > usize::MAX {
        Err("GGUF F32 matvec group byte length overflows"@)
    } else if tensor.bytes@.len() != rows * columns * 4 {
        Err("GGUF F32 matvec group tensor is truncated"@)
    } else {
        Ok(
            Member {
                rows,
                bytes: (rows * columns * 4) as u64,
                kernel: Kernel::F32Matvec,
                groups: rows as u64,
                most: 128,
            },
        )
    }
}

fn check_f32_member(tensor: &GgufTensorView<'_>, columns: usize) -> (result: Result<Member, String>)
    ensures
        text::outcome(result) == f32_member(*tensor, columns),
{
    if tensor.info.ggml_type != quant::GGML_TYPE_F32 || tensor.info.shape.len() != 2
        || tensor.info.shape[0] != columns {
        return Err("GGUF F32 matvec group shapes or types differ".to_owned());
    }
    let rows: usize = tensor.info.shape[1];
    proof {
        assert(rows * columns >= 0) by (nonlinear_arith);
    }
    let values: usize = match rows.checked_mul(columns) {
        Some(values) => values,
        None => {
            return Err("GGUF F32 matvec group byte length overflows".to_owned());
        },
    };
    let bytes: usize = match values.checked_mul(4) {
        Some(bytes) => bytes,
        None => {
            return Err("GGUF F32 matvec group byte length overflows".to_owned());
        },
    };
    if tensor.bytes.len() != bytes {
        return Err("GGUF F32 matvec group tensor is truncated".to_owned());
    }
    Ok(
        Member {
            rows,
            bytes: bytes as u64,
            kernel: Kernel::F32Matvec,
            groups: rows as u64,
            most: 128,
        },
    )
}

pub open spec fn f32_group(columns: usize) -> Group<'static> {
    Group {
        columns,
        columns_message: "GGUF F32 matvec group columns exceed Metal limits",
        rows_message: "GGUF F32 matvec group rows exceed Metal limits",
        operation: "grouped GGUF F32 matvec command",
        mapped: true,
    }
}

pub open spec fn f32_members(tensors: Seq<&GgufTensorView>, columns: usize) -> Seq<
    Result<Member, Seq<char>>,
> {
    tensors.map_values(|tensor: &GgufTensorView| f32_member(*tensor, columns))
}

pub open spec fn f32_many_plan(tensors: Seq<&GgufTensorView>, input: usize) -> Result<
    PlanView,
    Seq<char>,
> {
    if tensors.len() == 0 {
        Err("GGUF F32 matvec group requires at least one tensor"@)
    } else if tensors[0].info.shape@.len() == 0 {
        Err("GGUF F32 matvec tensor is not a matrix"@)
    } else if input != tensors[0].info.shape@[0] {
        Err("GGUF F32 matvec group input length is invalid"@)
    } else {
        match text::collected(f32_members(tensors, input)) {
            Err(message) => Err(message),
            Ok(members) => Ok(group::group_plan(members, f32_group(input))),
        }
    }
}

/// The launches of a fused MLP can be connected as its plan says: the down
/// projection reads what the gated product has written.
pub proof fn law_fused_mlp_is_wired(
    gate: QuantWeight,
    up: QuantWeight,
    down: QuantWeight,
    gate_rows: usize,
    columns: usize,
    down_rows: usize,
    input: usize,
    switches: Switches,
)
    requires
        fused_mlp_plan(gate, up, down, gate_rows, columns, down_rows, input, switches) is Ok,
    ensures
        plan::is_wired(
            fused_mlp_plan(gate, up, down, gate_rows, columns, down_rows, input, switches)->Ok_0,
        ),
{
    let planned = fused_mlp_plan(
        gate,
        up,
        down,
        gate_rows,
        columns,
        down_rows,
        input,
        switches,
    )->Ok_0;
    if planned.command is Ok {
        let format = quant::quant_of(down.ggml_type)->Some_0;
        let launches = fused_mlp_launches(format, gate_rows, columns, down_rows, switches);
        let command = planned.command->Ok_0;
        text::lemma_collected_values(launches);
        assert(launches[0] == Ok::<Dispatch, Seq<char>>(command[0]));
        assert(launches[1] == Ok::<Dispatch, Seq<char>>(command[1]));
    }
}

/// A fused MLP is accepted exactly where the retained gated product and the
/// retained down projection of its output are, and takes the buffers of both.
/// Its first launch is that of the gated product. Its second one is that of
/// the down projection without wide groups of threads: it multiplies the down
/// matrix, reads what the first launch wrote and writes the output.
pub proof fn law_fused_mlp_is_separate_steps(
    gate: QuantWeight,
    up: QuantWeight,
    down: QuantWeight,
    gate_rows: usize,
    columns: usize,
    down_rows: usize,
    input: usize,
    switches: Switches,
)
    ensures
        ({
            let fused = fused_mlp_plan(
                gate,
                up,
                down,
                gate_rows,
                columns,
                down_rows,
                input,
                switches,
            );
            let gated = q4_k_fused_gate_up_weights_plan(
                gate,
                up,
                gate_rows,
                columns,
                input,
                switches,
            );
            let narrow = Switches { rows4x128: false, ..switches };
            let projected = quantized::gguf_quant_matvec_weight_plan(
                down,
                down_rows,
                gate_rows,
                gate_rows,
                narrow,
            );
            &&& fused is Ok <==> gated is Ok && projected is Ok
            &&& !switches.rows4x128 ==> narrow == switches
            &&& fused is Ok ==> {
                &&& fused->Ok_0.buffers == gated->Ok_0.buffers + projected->Ok_0.buffers
                &&& fused->Ok_0.outputs == projected->Ok_0.outputs
                &&& fused->Ok_0.command is Ok <==> gated->Ok_0.command is Ok
                    && projected->Ok_0.command is Ok
                &&& fused->Ok_0.command is Ok ==> {
                    let command = fused->Ok_0.command->Ok_0;
                    let kernels = plan::kernels_of(command);
                    let last = wiring::launch_slots(fused->Ok_0.wiring, 2, 1, command[1].kernel);
                    &&& command == gated->Ok_0.command->Ok_0 + projected->Ok_0.command->Ok_0
                    &&& last == seq![Slot::Operand(2), Slot::Buffer(0), Slot::Buffer(1)]
                    &&& wiring::writes(fused->Ok_0.wiring, kernels, 0, Slot::Buffer(0))
                    &&& wiring::output_place(fused->Ok_0.wiring, 0, down_rows as int) == (
                        Slot::Buffer(1),
                        0int,
                    )
                }
            }
        }),
{
    let fused = fused_mlp_plan(gate, up, down, gate_rows, columns, down_rows, input, switches);
    let narrow = Switches { rows4x128: false, ..switches };
    if fused is Ok {
        let format = quant::quant_of(down.ggml_type)->Some_0;
        let launches = fused_mlp_launches(format, gate_rows, columns, down_rows, switches);
        let gated = q4_k_fused_gate_up_weights_plan(gate, up, gate_rows, columns, input, switches);
        let projected = quantized::gguf_quant_matvec_weight_plan(
            down,
            down_rows,
            gate_rows,
            gate_rows,
            narrow,
        );
        assert(fused->Ok_0.buffers =~= gated->Ok_0.buffers + projected->Ok_0.buffers);
        if launches[0] is Ok && launches[1] is Ok {
            text::lemma_all_collected(launches);
        }
        if fused->Ok_0.command is Ok {
            text::lemma_collected_values(launches);
            let command = fused->Ok_0.command->Ok_0;
            assert(launches[0] == Ok::<Dispatch, Seq<char>>(command[0]));
            assert(launches[1] == Ok::<Dispatch, Seq<char>>(command[1]));
            assert(command =~= gated->Ok_0.command->Ok_0 + projected->Ok_0.command->Ok_0);
            assert(plan::kernels_of(command)[0] == Kernel::Q4KFusedGateUp);
            wiring::lemma_writes(Wiring::Mlp, plan::kernels_of(command), 0, 3);
        }
    }
}

/// The launches of a mapped group can be connected as its plan says: each
/// matrix multiplies the one vector and has an output of its own.
pub proof fn law_mapped_group_is_wired(
    tensors: Seq<&GgufTensorView>,
    input: usize,
    bound: Seq<u64>,
)
    requires
        tensors.len() <= usize::MAX,
        many_tensors_plan(tensors, input, bound) is Ok,
    ensures
        plan::is_wired(many_tensors_plan(tensors, input, bound)->Ok_0),
{
    let outcomes = mapped_members(tensors, input, bound);
    text::lemma_collected_values(outcomes);
    let members = text::collected(outcomes)->Ok_0;
    assert forall|i: int| 0 <= i < members.len() implies wiring::multiplies(
        (#[trigger] members[i]).kernel,
    ) by {
        assert(outcomes[i] == mapped_member(*tensors[i], input, bound[i]));
    }
    group::lemma_group_is_wired(members, mapped_group(input));
}

/// The launches of a retained group can be connected as its plan says.
pub proof fn law_retained_group_is_wired(
    weights: Seq<(QuantWeight, usize, usize)>,
    input: usize,
    switches: Switches,
)
    requires
        weights.len() <= usize::MAX,
        many_weights_plan(weights, input, switches) is Ok,
    ensures
        plan::is_wired(many_weights_plan(weights, input, switches)->Ok_0),
{
    let outcomes = retained_members(weights, input, switches);
    text::lemma_collected_values(outcomes);
    let members = text::collected(outcomes)->Ok_0;
    assert forall|i: int| 0 <= i < members.len() implies wiring::multiplies(
        (#[trigger] members[i]).kernel,
    ) by {
        assert(outcomes[i] == retained_member(weights[i], input, switches));
    }
    group::lemma_group_is_wired(members, retained_group(input));
}

/// The launches of a staged group can be connected as its plan says.
pub proof fn law_staged_group_is_wired(
    tensors: Seq<(u32, &[u8], usize, usize)>,
    input: usize,
    switches: Switches,
    bound: Seq<u64>,
)
    requires
        tensors.len() <= usize::MAX,
        many_bytes_plan(tensors, input, switches, bound) is Ok,
    ensures
        plan::is_wired(many_bytes_plan(tensors, input, switches, bound)->Ok_0),
{
    let outcomes = staged_members(tensors, input, switches, bound);
    text::lemma_collected_values(outcomes);
    let members = text::collected(outcomes)->Ok_0;
    let wide = all_wide(tensors, switches);
    assert forall|i: int| 0 <= i < members.len() implies wiring::multiplies(
        (#[trigger] members[i]).kernel,
    ) by {
        assert(outcomes[i] == staged_member(
            tensors[i],
            input,
            wide,
            wide || switches.rows4,
            bound[i],
        ));
    }
    group::lemma_group_is_wired(members, staged_group(input));
}

/// The launches of a group of F32 tensors can be connected as its plan says.
pub proof fn law_f32_group_is_wired(tensors: Seq<&GgufTensorView>, input: usize)
    requires
        tensors.len() <= usize::MAX,
        f32_many_plan(tensors, input) is Ok,
    ensures
        plan::is_wired(f32_many_plan(tensors, input)->Ok_0),
{
    let outcomes = f32_members(tensors, input);
    text::lemma_collected_values(outcomes);
    let members = text::collected(outcomes)->Ok_0;
    assert forall|i: int| 0 <= i < members.len() implies wiring::multiplies(
        (#[trigger] members[i]).kernel,
    ) by {
        assert(outcomes[i] == f32_member(*tensors[i], input));
    }
    group::lemma_group_is_wired(members, f32_group(input));
}

impl MetalContext {
    /// Plans the gated product of two mapped Q4_K matrices with a vector.
    pub fn q4_k_fused_gate_up(
        &self,
        gate_weights: &[u8],
        up_weights: &[u8],
        rows: usize,
        columns: usize,
        input: usize,
        switches: &Switches,
    ) -> (result: Result<Plan, String>)
        ensures
            text::outcome_view(result) == q4_k_fused_gate_up_plan(
                gate_weights@.len(),
                up_weights@.len(),
                rows,
                columns,
                input,
                *switches,
            ),
    {
        if rows == 0 || columns == 0 || columns % 256 != 0 || input != columns {
            return Err("Q4_K fused gate/up dimensions are invalid".to_owned());
        }
        let blocks: usize = match rows.checked_mul(columns / 256) {
            Some(blocks) => blocks,
            None => {
                return Err("Q4_K fused gate/up block count overflows".to_owned());
            },
        };
        let expected: usize = match blocks.checked_mul(quant::Q4_K_BLOCK_BYTES) {
            Some(bytes) => bytes,
            None => {
                return Err("Q4_K fused gate/up byte length overflows".to_owned());
            },
        };
        if gate_weights.len() != expected || up_weights.len() != expected {
            return Err("Q4_K fused gate/up byte length is invalid".to_owned());
        }
        let profile = Profile {
            weights: plan::sum(gate_weights.len() as u64, up_weights.len() as u64),
            state: 0,
            scratch: plan::sum(plan::bytes_of_values(input), plan::bytes_of_values(rows)),
            mapped: true,
        };
        let launch = plan::plan_matrix(
            Kernel::Q4KFusedGateUp,
            columns,
            rows,
            "Q4_K fused gate/up columns exceed limits",
            "Q4_K fused gate/up rows exceed limits",
            rows as u64,
            count_fused_threads(switches),
        );
        Ok(
            plan::plan_of(
                profile,
                "Metal could not bind mapped Q4_K fused gate/up weights",
                norm::command_of(launch),
                rows,
                "Q4_K fused gate/up command",
            ),
        )
    }

    /// Plans the gated product of two retained Q4_K matrices with a vector.
    pub fn q4_k_fused_gate_up_weights(
        &self,
        gate: &QuantWeight,
        up: &QuantWeight,
        rows: usize,
        columns: usize,
        input: usize,
        switches: &Switches,
    ) -> (result: Result<Plan, String>)
        ensures
            text::outcome_view(result) == q4_k_fused_gate_up_weights_plan(
                *gate,
                *up,
                rows,
                columns,
                input,
                *switches,
            ),
    {
        if gate.ggml_type != quant::GGML_TYPE_Q4_K || up.ggml_type != quant::GGML_TYPE_Q4_K
            || gate.bytes != up.bytes || rows == 0 || columns == 0 || columns % 256 != 0 || input
            != columns {
            return Err("retained Q4_K fused gate/up dimensions are invalid".to_owned());
        }
        let expected: usize = match quant::checked_quant_bytes(Quant::Q4K, rows, columns) {
            Some(bytes) => bytes,
            None => {
                return Err("retained Q4_K fused gate/up byte length overflows".to_owned());
            },
        };
        if gate.bytes != expected as u64 {
            return Err("retained Q4_K fused gate/up byte length is invalid".to_owned());
        }
        let profile = Profile {
            weights: 0,
            state: 0,
            scratch: plan::sum(plan::bytes_of_values(input), plan::bytes_of_values(rows)),
            mapped: false,
        };
        let launch = plan::plan_matrix(
            Kernel::Q4KFusedGateUp,
            columns,
            rows,
            "retained gate/up columns exceed limits",
            "retained gate/up rows exceed limits",
            rows as u64,
            count_fused_threads(switches),
        );
        Ok(
            plan::plan_of(
                profile,
                "",
                norm::command_of(launch),
                rows,
                "retained Q4_K fused gate/up command",
            ),
        )
    }

    /// Plans a whole MLP over retained matrices as one command: the gated
    /// product stays on the device and feeds the down projection.
    pub fn gguf_quant_fused_mlp_weights(
        &self,
        gate: &QuantWeight,
        up: &QuantWeight,
        down: &QuantWeight,
        gate_rows: usize,
        columns: usize,
        down_rows: usize,
        input: usize,
        switches: &Switches,
    ) -> (result: Result<Plan, String>)
        ensures
            text::outcome_view(result) == fused_mlp_plan(
                *gate,
                *up,
                *down,
                gate_rows,
                columns,
                down_rows,
                input,
                *switches,
            ),
    {
        if gate.ggml_type != quant::GGML_TYPE_Q4_K || up.ggml_type != quant::GGML_TYPE_Q4_K
            || gate.bytes != up.bytes || gate_rows == 0 || columns == 0 || down_rows == 0 || columns
            % 256 != 0 || input != columns {
            return Err("fused quantized MLP dimensions are invalid".to_owned());
        }
        let gate_bytes: usize = match quant::checked_quant_bytes(Quant::Q4K, gate_rows, columns) {
            Some(bytes) => bytes,
            None => {
                return Err("fused quantized MLP gate byte length overflows".to_owned());
            },
        };
        if gate.bytes != gate_bytes as u64 {
            return Err("fused quantized MLP gate byte length is invalid".to_owned());
        }
        let format = match quant::quant_type(down.ggml_type) {
            Some(format) => format,
            None => {
                return Err("unsupported fused quantized MLP down type".to_owned());
            },
        };
        if gate_rows % 256 != 0 {
            return Err("fused quantized MLP down columns are invalid".to_owned());
        }
        let down_bytes: usize = match quant::checked_quant_bytes(format, down_rows, gate_rows) {
            Some(bytes) => bytes,
            None => {
                return Err("fused quantized MLP down byte length overflows".to_owned());
            },
        };
        if down.bytes != down_bytes as u64 {
            return Err("fused quantized MLP down byte length is invalid".to_owned());
        }
        let gated: u64 = plan::bytes_of_values(gate_rows);
        let projected: u64 = plan::bytes_of_values(down_rows);
        let parts: Vec<u64> = vec![plan::bytes_of_values(input), gated, projected];
        let buffers: Vec<u64> = vec![gated, projected];
        let outputs: Vec<usize> = vec![down_rows];
        proof {
            assert(parts@ =~= seq![
                plan::value_bytes(input as int),
                plan::value_bytes(gate_rows as int),
                plan::value_bytes(down_rows as int),
            ]);
            assert(buffers@ =~= seq![
                plan::value_bytes(gate_rows as int),
                plan::value_bytes(down_rows as int),
            ]);
            assert(outputs@ =~= seq![down_rows]);
        }
        Ok(
            Plan {
                profile: Profile {
                    weights: 0,
                    state: 0,
                    scratch: plan::sum_all(&parts),
                    mapped: false,
                },
                unbound: "".to_owned(),
                command: plan_fused_mlp_launches(format, gate_rows, columns, down_rows, switches),
                wiring: Wiring::Mlp,
                submission: Submission::AtOnce,
                buffers,
                outputs,
                operation: text::concat3("fused MLP ", format.label(), " command"),
            },
        )
    }

    /// Plans the products of several quantized tensors of a mapping with one
    /// vector. `bound` gives the bytes that the device could bind of each.
    pub fn gguf_quant_matvec_many_tensors(
        &self,
        tensors: &[&GgufTensorView<'_>],
        input: usize,
        bound: &[u64],
    ) -> (result: Result<Plan, String>)
        requires
            bound@.len() == tensors@.len(),
        ensures
            text::outcome_view(result) == many_tensors_plan(tensors@, input, bound@),
    {
        if tensors.len() == 0 {
            return Err("quantized matvec group requires at least one tensor".to_owned());
        }
        if tensors[0].info.shape.len() == 0 {
            return Err("quantized matvec tensor is not a matrix".to_owned());
        }
        if input != tensors[0].info.shape[0] {
            return Err("quantized matvec group input length is invalid".to_owned());
        }
        let ghost outcomes = mapped_members(tensors@, input, bound@);
        let mut members: Vec<Member> = Vec::new();
        let mut index: usize = 0;
        proof {
            assert(outcomes.take(0) =~= Seq::empty());
        }
        while index < tensors.len()
            invariant
                index <= tensors@.len(),
                bound@.len() == tensors@.len(),
                tensors@[0].info.shape@.len() > 0,
                input == tensors@[0].info.shape@[0],
                outcomes == mapped_members(tensors@, input, bound@),
                text::collected(outcomes.take(index as int)) == Ok::<Seq<Member>, Seq<char>>(
                    members@,
                ),
            decreases tensors@.len() - index,
        {
            proof {
                text::lemma_collected_step(outcomes, index as int);
            }
            match check_mapped_member(tensors[index], input, bound[index]) {
                Ok(member) => members.push(member),
                Err(message) => {
                    return Err(message);
                },
            }
            index += 1;
        }
        proof {
            assert(outcomes.take(index as int) =~= outcomes);
        }
        let group = Group {
            columns: input,
            columns_message: "grouped quantized columns exceed Metal limits",
            rows_message: "grouped quantized rows exceed Metal limits",
            operation: "grouped quantized matvec command",
            mapped: true,
        };
        Ok(group::plan_group(&members, &group))
    }

    /// Plans the products of several retained matrices with one vector.
    pub fn gguf_quant_matvec_many_weights(
        &self,
        weights: &[(QuantWeight, usize, usize)],
        input: usize,
        switches: &Switches,
    ) -> (result: Result<Plan, String>)
        ensures
            text::outcome_view(result) == many_weights_plan(weights@, input, *switches),
    {
        if weights.len() == 0 {
            return Err("retained quantized matvec group requires at least one weight".to_owned());
        }
        if weights[0].2 == 0 || input != weights[0].2 {
            return Err("retained quantized matvec group input length is invalid".to_owned());
        }
        let ghost outcomes = retained_members(weights@, input, *switches);
        let mut members: Vec<Member> = Vec::new();
        let mut index: usize = 0;
        proof {
            assert(outcomes.take(0) =~= Seq::empty());
        }
        while index < weights.len()
            invariant
                index <= weights@.len(),
                input == weights@[0].2,
                input > 0,
                outcomes == retained_members(weights@, input, *switches),
                text::collected(outcomes.take(index as int)) == Ok::<Seq<Member>, Seq<char>>(
                    members@,
                ),
            decreases weights@.len() - index,
        {
            proof {
                text::lemma_collected_step(outcomes, index as int);
            }
            match check_retained_member(&weights[index], input, switches) {
                Ok(member) => members.push(member),
                Err(message) => {
                    return Err(message);
                },
            }
            index += 1;
        }
        proof {
            assert(outcomes.take(index as int) =~= outcomes);
        }
        let group = Group {
            columns: input,
            columns_message: "retained quantized columns exceed Metal limits",
            rows_message: "retained quantized rows exceed Metal limits",
            operation: "retained grouped quantized matvec command",
            mapped: false,
        };
        Ok(group::plan_group(&members, &group))
    }

    /// Plans the products of several staged matrices with one vector. Each is
    /// given by its type, bytes, rows and columns; `bound` gives the bytes that
    /// the device could bind of each.
    pub fn gguf_quant_matvec_many_bytes(
        &self,
        tensors: &[(u32, &[u8], usize, usize)],
        input: usize,
        switches: &Switches,
        bound: &[u64],
    ) -> (result: Result<Plan, String>)
        requires
            bound@.len() == tensors@.len(),
        ensures
            text::outcome_view(result) == many_bytes_plan(tensors@, input, *switches, bound@),
    {
        if tensors.len() == 0 {
            return Err("staged quantized matvec group requires at least one tensor".to_owned());
        }
        if tensors[0].3 == 0 || input != tensors[0].3 {
            return Err("staged quantized matvec group input length is invalid".to_owned());
        }
        let wide = check_all_wide(tensors, switches);
        let rows4 = wide || switches.rows4;
        let ghost outcomes = staged_members(tensors@, input, *switches, bound@);
        let mut members: Vec<Member> = Vec::new();
        let mut index: usize = 0;
        proof {
            assert(outcomes.take(0) =~= Seq::empty());
        }
        while index < tensors.len()
            invariant
                index <= tensors@.len(),
                bound@.len() == tensors@.len(),
                wide == all_wide(tensors@, *switches),
                rows4 == (wide || switches.rows4),
                input == tensors@[0].3,
                input > 0,
                outcomes == staged_members(tensors@, input, *switches, bound@),
                text::collected(outcomes.take(index as int)) == Ok::<Seq<Member>, Seq<char>>(
                    members@,
                ),
            decreases tensors@.len() - index,
        {
            proof {
                text::lemma_collected_step(outcomes, index as int);
            }
            match check_staged_member(&tensors[index], input, wide, rows4, bound[index]) {
                Ok(member) => members.push(member),
                Err(message) => {
                    return Err(message);
                },
            }
            index += 1;
        }
        proof {
            assert(outcomes.take(index as int) =~= outcomes);
        }
        let group = Group {
            columns: input,
            columns_message: "staged grouped quantized columns exceed Metal limits",
            rows_message: "staged grouped quantized rows exceed Metal limits",
            operation: "staged grouped quantized matvec command",
            mapped: true,
        };
        Ok(group::plan_group(&members, &group))
    }

    /// Plans the products of several F32 tensors of a mapping with one vector.
    pub fn f32_matvec_many_gguf_tensors(&self, tensors: &[&GgufTensorView<'_>], input: usize) -> (result: Result<
        Plan,
        String,
    >)
        ensures
            text::outcome_view(result) == f32_many_plan(tensors@, input),
    {
        if tensors.len() == 0 {
            return Err("GGUF F32 matvec group requires at least one tensor".to_owned());
        }
        if tensors[0].info.shape.len() == 0 {
            return Err("GGUF F32 matvec tensor is not a matrix".to_owned());
        }
        if input != tensors[0].info.shape[0] {
            return Err("GGUF F32 matvec group input length is invalid".to_owned());
        }
        let ghost outcomes = f32_members(tensors@, input);
        let mut members: Vec<Member> = Vec::new();
        let mut index: usize = 0;
        proof {
            assert(outcomes.take(0) =~= Seq::empty());
        }
        while index < tensors.len()
            invariant
                index <= tensors@.len(),
                tensors@[0].info.shape@.len() > 0,
                input == tensors@[0].info.shape@[0],
                outcomes == f32_members(tensors@, input),
                text::collected(outcomes.take(index as int)) == Ok::<Seq<Member>, Seq<char>>(
                    members@,
                ),
            decreases tensors@.len() - index,
        {
            proof {
                text::lemma_collected_step(outcomes, index as int);
            }
            match check_f32_member(tensors[index], input) {
                Ok(member) => members.push(member),
                Err(message) => {
                    return Err(message);
                },
            }
            index += 1;
        }
        proof {
            assert(outcomes.take(index as int) =~= outcomes);
        }
        let group = Group {
            columns: input,
            columns_message: "GGUF F32 matvec group columns exceed Metal limits",
            rows_message: "GGUF F32 matvec group rows exceed Metal limits",
            operation: "grouped GGUF F32 matvec command",
            mapped: true,
        };
        Ok(group::plan_group(&members, &group))
    }
}

} // verus!
