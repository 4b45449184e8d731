//! What the launches that multiply no matrix put out, and what they read for it.
use vstd::prelude::*;

use super::attention;
use super::attention::{AttentionDecodeInput, ChainedAttentionBufferRequest};
use super::embedding;
use super::fused::FusedProjection;
use super::kernel::{Dispatch, Kernel, Switches};
use super::model;
use super::norm;
use super::plan;
use super::plan::PlanView;
use super::products;
use super::products::{is_launched, launch_of};
use super::recurrent;
use super::recurrent::GatedDeltaInput;
use super::wiring;
use super::wiring::{Slot, Source};
use super::weights::Bf16Weight;
use crate::cache::CacheState;
use crate::tensor::{GgufTensorView, TensorView};
use crate::text;

verus! {

/// Whether a step has one launch, whose only result fills the buffer that is read back.
pub open spec fn fills_only_output(plan: PlanView, limit: u64, values: int) -> bool {
    &&& plan.command is Ok
    &&& plan.command->Ok_0.len() == 1
    &&& model::fills(plan.command->Ok_0[0], limit, 0, values)
    &&& plan.outputs == seq![values as usize]
    &&& plan.buffers == seq![plan::value_bytes(values)]
    &&& wiring::output_place(plan.wiring, 0, values) == (Slot::Buffer(0), 0int)
}

/// A number lies in the part that its quotient names.
pub proof fn lemma_part(part: int, size: int, number: int)
    requires
        size > 0,
    ensures
        model::in_part(part, size, number) <==> part == number / size,
{
    let quotient = number / size;
    assert(quotient * size <= number < (quotient + 1) * size) by (nonlinear_arith)
        requires
            size > 0,
            quotient == number / size,
    ;
    if model::in_part(part, size, number) {
        assert(part == quotient) by (nonlinear_arith)
            requires
                part * size <= number < (part + 1) * size,
                quotient * size <= number < (quotient + 1) * size,
                size > 0,
        ;
    }
}

/// The parts from the first up to a number cover as many values as they have.
pub proof fn lemma_parts(parts: int, size: int, number: int)
    requires
        size > 0,
        parts >= 0,
    ensures
        0 <= number / size < parts <==> 0 <= number < parts * size,
{
    let quotient = number / size;
    lemma_part(quotient, size, number);
    if 0 <= quotient < parts {
        assert(0 <= number < parts * size) by (nonlinear_arith)
            requires
                quotient * size <= number < (quotient + 1) * size,
                0 <= quotient,
                quotient + 1 <= parts,
                size > 0,
        ;
    }
    if 0 <= number < parts * size {
        assert(0 <= quotient < parts) by (nonlinear_arith)
            requires
                quotient * size <= number < (quotient + 1) * size,
                0 <= number < parts * size,
                size > 0,
        ;
    }
}

/// A launch whose threads each write one part of equal length fills all parts.
proof fn lemma_fills_parts(launch: Dispatch, limit: u64, result: int, parts: int, size: int)
    requires
        model::numbers(launch.constants).len() == model::parameter_count(launch.kernel),
        size > 0,
        parts == model::positions(launch, limit),
        forall|place: int, element: int|
            0 <= place < parts ==> (#[trigger] model::place_writes(launch, limit, place, result, element)
                <==> model::in_part(place, size, element)),
    ensures
        model::fills(launch, limit, result, parts * size),
{
    assert forall|element: int| #[trigger]
        model::writes(launch, limit, result, element) <==> 0 <= element < parts * size by {
        lemma_parts(parts, size, element);
        lemma_part(element / size, size, element);
        if 0 <= element < parts * size {
            assert(model::place_writes(launch, limit, element / size, result, element));
        }
        if model::writes(launch, limit, result, element) {
            let place = choose|place: int|
                0 <= place < parts && #[trigger] model::place_writes(
                    launch,
                    limit,
                    place,
                    result,
                    element,
                );
            lemma_part(place, size, element);
        }
    }
    assert forall|element: int, first: int, second: int|
        0 <= first < parts && 0 <= second < parts && #[trigger] model::place_writes(
            launch,
            limit,
            first,
            result,
            element,
        ) && #[trigger] model::place_writes(launch, limit, second, result, element) implies first
        == second by {
        lemma_part(first, size, element);
        lemma_part(second, size, element);
    }
}

/// A normalization puts out as many values as it is given. Each is made of the
/// whole input and the weight in its own place.
pub proof fn law_rms_norm(
    input: usize,
    weight: usize,
    epsilon: u32,
    limit: u64,
    element: int,
    index: int,
)
    requires
        is_launched(norm::rms_norm_plan(input, weight, epsilon)),
        input <= u32::MAX,
        0 <= element < input,
    ensures
        ({
            let plan = norm::rms_norm_plan(input, weight, epsilon);
            let launch = launch_of(plan, 0);
            &&& fills_only_output(plan->Ok_0, limit, input as int)
            &&& weight == input
            &&& model::numbers(launch.constants)[1] == epsilon
            &&& model::reads_from(launch, limit, 0, element, Source::Input, index) <==> 0 <= index
                < input
            &&& model::reads_from(launch, limit, 0, element, Source::Weights(0), index) <==> index
                == element
        }),
{
    let plan = norm::rms_norm_plan(input, weight, epsilon);
    let launch = launch_of(plan, 0);
    assert(model::numbers(launch.constants)[0] == input);
    assert forall|at: int| #[trigger]
        model::writes(launch, limit, 0, at) <==> 0 <= at < input by {
        if 0 <= at < input {
            assert(model::place_writes(launch, limit, 0, 0, at));
        }
    }
    assert(model::fills(launch, limit, 0, input as int));
    assert(model::place_writes(launch, limit, 0, 0, element));
    model::lemma_reads_from(launch, limit, 0, input as int, 0, element, 0, index);
    model::lemma_reads_from(launch, limit, 0, input as int, 0, element, 1, index);
}

/// Whether a step normalizes heads: each value is made of all values of its
/// own head and the weight that all heads share in its place.
pub open spec fn normalizes_heads(
    plan: PlanView,
    limit: u64,
    heads: int,
    head_dim: int,
    epsilon: u32,
    head: int,
    d: int,
    index: int,
) -> bool {
    let launch = plan.command->Ok_0[0];
    let element = head * head_dim + d;
    &&& fills_only_output(plan, limit, heads * head_dim)
    &&& model::numbers(launch.constants)[2] == epsilon
    &&& model::reads_from(launch, limit, 0, element, Source::Input, index) <==> model::in_part(
        head,
        head_dim,
        index,
    )
    &&& model::reads_from(launch, limit, 0, element, Source::Weights(0), index) <==> index == d
}

proof fn lemma_normalizes_heads(
    launch: Dispatch,
    limit: u64,
    heads: int,
    head_dim: int,
    epsilon: u32,
    head: int,
    d: int,
    index: int,
)
    requires
        launch.kernel == Kernel::RmsNormBf16Heads || launch.kernel == Kernel::RmsNormHeads
            || launch.kernel == Kernel::RmsNormGated,
        model::numbers(launch.constants) == seq![heads, head_dim, epsilon as int],
        model::positions(launch, limit) == heads,
        head_dim > 0,
        0 <= head < heads,
        0 <= d < head_dim,
    ensures
        model::fills(launch, limit, 0, heads * head_dim),
        ({
            let element = head * head_dim + d;
            &&& model::reads_from(launch, limit, 0, element, Source::Input, index)
                <==> model::in_part(head, head_dim, index)
            &&& model::reads_from(launch, limit, 0, element, Source::Weights(0), index) <==> index
                == d
            &&& launch.kernel == Kernel::RmsNormGated ==> (model::reads_from(
                launch,
                limit,
                0,
                element,
                Source::Gate,
                index,
            ) <==> index == element)
        }),
{
    let element = head * head_dim + d;
    lemma_fills_parts(launch, limit, 0, heads, head_dim);
    assert(model::in_part(head, head_dim, element)) by (nonlinear_arith)
        requires
            element == head * head_dim + d,
            0 <= d < head_dim,
    ;
    assert(model::place_writes(launch, limit, head, 0, element));
    let values = heads * head_dim;
    model::lemma_reads_from(launch, limit, 0, values, head, element, 0, index);
    model::lemma_reads_from(launch, limit, 0, values, head, element, 1, index);
    if launch.kernel == Kernel::RmsNormGated {
        model::lemma_reads_from(launch, limit, 0, values, head, element, 2, index);
    }
}

/// A normalization of heads with a shared BF16 scale.
pub proof fn law_bf16_heads_norm(
    input: usize,
    weight_bytes: nat,
    heads: usize,
    head_dim: usize,
    epsilon: u32,
    limit: u64,
    head: int,
    d: int,
    index: int,
)
    requires
        is_launched(norm::rms_norm_bf16_heads_plan(input, weight_bytes, heads, head_dim, epsilon)),
        0 <= head < heads,
        0 <= d < head_dim,
    ensures
        ({
            let plan = norm::rms_norm_bf16_heads_plan(
                input,
                weight_bytes,
                heads,
                head_dim,
                epsilon,
            )->Ok_0;
            &&& normalizes_heads(
                plan,
                limit,
                heads as int,
                head_dim as int,
                epsilon,
                head,
                d,
                index,
            )
            &&& input == heads * head_dim
            &&& weight_bytes == model::weight_bytes(
                plan.command->Ok_0[0].kernel,
                head_dim as int,
            )
        }),
{
    let plan = norm::rms_norm_bf16_heads_plan(input, weight_bytes, heads, head_dim, epsilon);
    lemma_normalizes_heads(
        launch_of(plan, 0),
        limit,
        heads as int,
        head_dim as int,
        epsilon,
        head,
        d,
        index,
    );
}

/// A normalization of heads with a shared scale.
pub proof fn law_heads_norm(
    input: usize,
    weight: usize,
    heads: usize,
    head_dim: usize,
    epsilon: u32,
    limit: u64,
    head: int,
    d: int,
    index: int,
)
    requires
        is_launched(norm::rms_norm_heads_plan(input, weight, heads, head_dim, epsilon)),
        0 <= head < heads,
        0 <= d < head_dim,
    ensures
        ({
            let plan = norm::rms_norm_heads_plan(input, weight, heads, head_dim, epsilon)->Ok_0;
            &&& normalizes_heads(
                plan,
                limit,
                heads as int,
                head_dim as int,
                epsilon,
                head,
                d,
                index,
            )
            &&& plan.command->Ok_0[0].kernel == Kernel::RmsNormHeads
            &&& input == heads * head_dim
            &&& weight == head_dim
        }),
{
    let plan = norm::rms_norm_heads_plan(input, weight, heads, head_dim, epsilon);
    lemma_normalizes_heads(
        launch_of(plan, 0),
        limit,
        heads as int,
        head_dim as int,
        epsilon,
        head,
        d,
        index,
    );
}

/// A gated normalization of heads: each value is made of its gate too.
pub proof fn law_gated_norm(
    input: usize,
    gate: usize,
    weight: usize,
    heads: usize,
    head_dim: usize,
    epsilon: u32,
    limit: u64,
    head: int,
    d: int,
    index: int,
)
    requires
        is_launched(norm::rms_norm_gated_plan(input, gate, weight, heads, head_dim, epsilon)),
        0 <= head < heads,
        0 <= d < head_dim,
    ensures
        ({
            let plan = norm::rms_norm_gated_plan(
                input,
                gate,
                weight,
                heads,
                head_dim,
                epsilon,
            )->Ok_0;
            let launch = plan.command->Ok_0[0];
            let element = head * head_dim + d;
            &&& normalizes_heads(
                plan,
                limit,
                heads as int,
                head_dim as int,
                epsilon,
                head,
                d,
                index,
            )
            &&& launch.kernel == Kernel::RmsNormGated
            &&& model::reads_from(launch, limit, 0, element, Source::Gate, index) <==> index
                == element
            &&& input == heads * head_dim
            &&& gate == heads * head_dim
            &&& weight == head_dim
        }),
{
    let plan = norm::rms_norm_gated_plan(input, gate, weight, heads, head_dim, epsilon);
    lemma_normalizes_heads(
        launch_of(plan, 0),
        limit,
        heads as int,
        head_dim as int,
        epsilon,
        head,
        d,
        index,
    );
}

/// Whether a launch decodes a row: it puts out the value of each column, from
/// the weight in that column.
pub open spec fn decodes_row(launch: Dispatch, limit: u64, columns: int, column: int, index: int) -> bool {
    &&& model::fills(launch, limit, 0, columns)
    &&& model::reads_from(launch, limit, 0, column, Source::Weights(0), index) <==> index == column
}

proof fn lemma_decodes_row(launch: Dispatch, limit: u64, columns: int, column: int, index: int)
    requires
        launch.kernel == Kernel::Q4KEmbeddingRow || launch.kernel == Kernel::Bf16EmbeddingRow,
        model::numbers(launch.constants) == seq![columns],
        model::positions(launch, limit) == columns,
        0 <= column < columns,
    ensures
        decodes_row(launch, limit, columns, column, index),
{
    lemma_fills_parts(launch, limit, 0, columns, 1);
    assert(model::place_writes(launch, limit, column, 0, column));
    model::lemma_reads_from(launch, limit, 0, columns, column, column, 0, index);
}

/// A decoded Q4_K row has a value for each column.
pub proof fn law_q4_k_embedding_row(
    row_len: nat,
    columns: usize,
    limit: u64,
    column: int,
    index: int,
)
    requires
        is_launched(embedding::q4_k_embedding_row_plan(row_len, columns)),
        0 <= column < columns,
    ensures
        ({
            let plan = embedding::q4_k_embedding_row_plan(row_len, columns);
            let launch = launch_of(plan, 0);
            &&& fills_only_output(plan->Ok_0, limit, columns as int)
            &&& decodes_row(launch, limit, columns as int, column, index)
            &&& row_len == model::weight_bytes(launch.kernel, columns as int)
        }),
{
    let plan = embedding::q4_k_embedding_row_plan(row_len, columns);
    lemma_decodes_row(launch_of(plan, 0), limit, columns as int, column, index);
}

/// A decoded BF16 row has a value for each column.
pub proof fn law_bf16_embedding_row(
    row_len: nat,
    columns: usize,
    limit: u64,
    column: int,
    index: int,
)
    requires
        is_launched(embedding::bf16_embedding_row_plan(row_len, columns)),
        columns <= u32::MAX,
        0 <= column < columns,
    ensures
        ({
            let plan = embedding::bf16_embedding_row_plan(row_len, columns);
            let launch = launch_of(plan, 0);
            &&& fills_only_output(plan->Ok_0, limit, columns as int)
            &&& decodes_row(launch, limit, columns as int, column, index)
            &&& row_len == model::weight_bytes(launch.kernel, columns as int)
        }),
{
    let plan = embedding::bf16_embedding_row_plan(row_len, columns);
    lemma_decodes_row(launch_of(plan, 0), limit, columns as int, column, index);
}

/// The row that is decoded of a Q4_K table is that of the token.
pub proof fn law_q4_k_embedding_tensor(tensor: GgufTensorView, token_id: usize)
    requires
        embedding::q4_k_embedding_tensor_plan(tensor, token_id) is Ok,
    ensures
        ({
            let slice = embedding::q4_k_embedding_tensor_plan(tensor, token_id)->Ok_0;
            let columns = tensor.info.shape@[0];
            let row_len = model::weight_bytes(Kernel::Q4KEmbeddingRow, columns as int);
            &&& token_id < tensor.info.shape@[1]
            &&& slice.start == token_id * row_len
            &&& slice.end == (token_id + 1) * row_len
            &&& slice.end <= tensor.bytes@.len()
            &&& embedding::q4_k_embedding_row_plan(row_len as nat, columns) == Ok::<
                PlanView,
                Seq<char>,
            >(slice.plan)
        }),
{
    let columns = tensor.info.shape@[0];
    let row_len = model::weight_bytes(Kernel::Q4KEmbeddingRow, columns as int);
    assert((token_id + 1) * row_len == token_id * row_len + row_len) by (nonlinear_arith);
}

/// The row that is decoded of a BF16 table on the device is that of the token.
pub proof fn law_bf16_embedding_buffer(
    tensor: TensorView,
    weight: Bf16Weight,
    token_id: usize,
    limit: u64,
    column: int,
    index: int,
)
    requires
        ({
            let slice = embedding::bf16_embedding_tensor_buffer_plan(tensor, weight, token_id);
            slice is Ok && slice->Ok_0.plan.command is Ok
        }),
        0 <= column < tensor.info.shape@[1],
    ensures
        ({
            let slice = embedding::bf16_embedding_tensor_buffer_plan(
                tensor,
                weight,
                token_id,
            )->Ok_0;
            let columns = tensor.info.shape@[1] as int;
            let row_len = model::weight_bytes(slice.plan.command->Ok_0[0].kernel, columns);
            &&& token_id < tensor.info.shape@[0]
            &&& slice.start == token_id * row_len
            &&& slice.end == (token_id + 1) * row_len
            &&& slice.end <= weight.bytes
            &&& fills_only_output(slice.plan, limit, columns)
            &&& decodes_row(slice.plan.command->Ok_0[0], limit, columns, column, index)
        }),
{
    let slice = embedding::bf16_embedding_tensor_buffer_plan(tensor, weight, token_id)->Ok_0;
    let rows = tensor.info.shape@[0] as int;
    let columns = tensor.info.shape@[1] as int;
    let row_len = columns * 2;
    lemma_decodes_row(slice.plan.command->Ok_0[0], limit, columns, column, index);
    assert(token_id * columns * 2 == token_id * row_len) by (nonlinear_arith)
        requires
            row_len == columns * 2,
    ;
    assert((token_id + 1) * row_len == token_id * row_len + row_len) by (nonlinear_arith);
    assert((token_id + 1) * row_len <= rows * columns * 2) by (nonlinear_arith)
        requires
            token_id + 1 <= rows,
            row_len == columns * 2,
            0 <= columns,
    ;
}

/// The pair of a head that a value belongs to: its thread, and the two places
/// that the thread reads and writes.
proof fn lemma_pair(heads: int, head_dim: int, head: int, d: int)
    requires
        head_dim > 0,
        head_dim % 2 == 0,
        0 <= head < heads,
        0 <= d < head_dim,
    ensures
        ({
            let pairs = head_dim / 2;
            let place = head * pairs + d / 2;
            &&& 0 <= place < heads * pairs
            &&& place / pairs == head
            &&& place % pairs == d / 2
        }),
{
    let pairs = head_dim / 2;
    let place = head * pairs + d / 2;
    assert(0 <= head * pairs && head * pairs + pairs <= heads * pairs) by (nonlinear_arith)
        requires
            0 <= head,
            head + 1 <= heads,
            0 < pairs,
    ;
    let rest = d / 2;
    assert(place / pairs == head && place % pairs == rest) by (nonlinear_arith)
        requires
            place == head * pairs + rest,
            0 <= rest < pairs,
    ;
}

/// Whether a launch rotates heads to a position: each value is made of the two
/// values of its pair, which are neighbours in its head.
pub open spec fn rotates_heads(
    launch: Dispatch,
    limit: u64,
    heads: int,
    head_dim: int,
    position: int,
    theta: u32,
    head: int,
    d: int,
    index: int,
) -> bool {
    &&& model::fills(launch, limit, 0, heads * head_dim)
    &&& model::numbers(launch.constants)[1] == head_dim
    &&& model::numbers(launch.constants)[2] == position
    &&& model::numbers(launch.constants)[3] == theta
    &&& model::reads_from(launch, limit, 0, head * head_dim + d, Source::Input, index) <==> head
        * head_dim + d / 2 * 2 <= index <= head * head_dim + d / 2 * 2 + 1
}

pub proof fn lemma_rotates_heads(
    launch: Dispatch,
    limit: u64,
    heads: int,
    head_dim: int,
    position: int,
    theta: u32,
    head: int,
    d: int,
    index: int,
)
    requires
        launch.kernel == Kernel::Rope,
        model::numbers(launch.constants) == seq![heads, head_dim, position, theta as int],
        model::positions(launch, limit) == heads * (head_dim / 2),
        head_dim > 0,
        head_dim % 2 == 0,
        0 <= head < heads,
        0 <= d < head_dim,
    ensures
        rotates_heads(launch, limit, heads, head_dim, position, theta, head, d, index),
{
    let pairs = head_dim / 2;
    let values = heads * head_dim;
    assert(values == heads * pairs * 2) by (nonlinear_arith)
        requires
            values == heads * head_dim,
            head_dim == pairs * 2,
    ;
    assert forall|place: int, element: int|
        0 <= place < heads * pairs implies (#[trigger] model::place_writes(
        launch,
        limit,
        place,
        0,
        element,
    ) <==> model::in_part(place, 2, element)) by {
        let first = (place / pairs) * head_dim + (place % pairs) * 2;
        assert(first == place * 2) by (nonlinear_arith)
            requires
                first == (place / pairs) * head_dim + (place % pairs) * 2,
                head_dim == pairs * 2,
                pairs > 0,
        ;
    }
    lemma_fills_parts(launch, limit, 0, heads * pairs, 2);
    lemma_pair(heads, head_dim, head, d);
    let place = head * pairs + d / 2;
    let element = head * head_dim + d;
    assert(place * 2 == head * head_dim + d / 2 * 2) by (nonlinear_arith)
        requires
            place == head * pairs + d / 2,
            head_dim == pairs * 2,
    ;
    assert(model::place_writes(launch, limit, place, 0, element));
    model::lemma_reads_from(launch, limit, 0, values, place, element, 0, index);
}

/// A rotation puts out as many values as it is given.
pub proof fn law_rope(
    input: usize,
    heads: usize,
    head_dim: usize,
    position: usize,
    theta: u32,
    limit: u64,
    head: int,
    d: int,
    index: int,
)
    requires
        is_launched(norm::rope_plan(input, heads, head_dim, position, theta)),
        heads <= u32::MAX,
        head_dim <= u32::MAX,
        position <= u32::MAX,
        0 <= head < heads,
        0 <= d < head_dim,
    ensures
        ({
            let plan = norm::rope_plan(input, heads, head_dim, position, theta);
            &&& fills_only_output(plan->Ok_0, limit, input as int)
            &&& input == heads * head_dim
            &&& rotates_heads(
                launch_of(plan, 0),
                limit,
                heads as int,
                head_dim as int,
                position as int,
                theta,
                head,
                d,
                index,
            )
        }),
{
    let plan = norm::rope_plan(input, heads, head_dim, position, theta);
    let half = head_dim as int / 2;
    assert(0 <= heads * half <= 0xffff_ffff * 0x7fff_ffff) by (nonlinear_arith)
        requires
            0 <= heads <= 0xffff_ffff,
            0 <= half <= 0x7fff_ffff,
    ;
    lemma_rotates_heads(
        launch_of(plan, 0),
        limit,
        heads as int,
        head_dim as int,
        position as int,
        theta,
        head,
        d,
        index,
    );
}

/// Whether a step has one launch that puts out values and updates the state
/// that it is given; both are read back.
pub open spec fn updates_state(plan: PlanView, limit: u64, values: usize, state: usize) -> bool {
    let launch = plan.command->Ok_0[0];
    let place = wiring::output_place(plan.wiring, 1, state as int);
    &&& plan.command is Ok
    &&& plan.command->Ok_0.len() == 1
    &&& model::fills(launch, limit, 0, values as int)
    &&& model::fills(launch, limit, 1, state as int)
    &&& plan.outputs == seq![values, state]
    &&& plan.buffers == seq![plan::value_bytes(values as int)]
    &&& wiring::output_place(plan.wiring, 0, values as int) == (Slot::Buffer(0), 0int)
    &&& place.1 == 0
    &&& place.0 matches Slot::Operand(operand) && operand < wiring::operand_count(launch.kernel)
        && wiring::kernel_sources(launch.kernel)[operand as int] == Source::State
}

proof fn lemma_causal_conv(
    launch: Dispatch,
    limit: u64,
    channels: int,
    kernel_size: int,
    channel: int,
    tap: int,
    index: int,
)
    requires
        launch.kernel == Kernel::CausalConv1dStep,
        model::numbers(launch.constants) == seq![channels, kernel_size],
        model::positions(launch, limit) == channels,
        kernel_size >= 2,
        0 <= channel < channels,
        0 <= tap < kernel_size - 1,
    ensures
        model::fills(launch, limit, 0, channels),
        model::fills(launch, limit, 1, channels * (kernel_size - 1)),
        convolves(launch, limit, kernel_size, channel, tap, index),
{
    let older = kernel_size - 1;
    lemma_fills_parts(launch, limit, 0, channels, 1);
    lemma_fills_parts(launch, limit, 1, channels, older);
    assert(model::place_writes(launch, limit, channel, 0, channel));
    model::lemma_reads_from(launch, limit, 0, channels, channel, channel, 0, index);
    model::lemma_reads_from(launch, limit, 0, channels, channel, channel, 1, index);
    model::lemma_reads_from(launch, limit, 0, channels, channel, channel, 2, index);
    let element = channel * older + tap;
    assert(model::in_part(channel, older, element)) by (nonlinear_arith)
        requires
            element == channel * older + tap,
            0 <= tap < older,
    ;
    assert((channel + 1) * older == channel * older + older) by (nonlinear_arith);
    assert(model::place_writes(launch, limit, channel, 1, element));
    let state = channels * older;
    model::lemma_reads_from(launch, limit, 1, state, channel, element, 0, index);
    model::lemma_reads_from(launch, limit, 1, state, channel, element, 1, index);
    model::lemma_reads_from(launch, limit, 1, state, channel, element, 2, index);
}

/// Whether a launch is one step of a causal convolution for a channel. The
/// channel's output is made of its input, its older inputs and its weights.
/// Its older inputs move on by one place: the input becomes the last of them.
pub open spec fn convolves(
    launch: Dispatch,
    limit: u64,
    kernel_size: int,
    channel: int,
    tap: int,
    index: int,
) -> bool {
    let older = kernel_size - 1;
    let element = channel * older + tap;
    &&& model::reads_from(launch, limit, 0, channel, Source::Input, index) <==> index == channel
    &&& model::reads_from(launch, limit, 0, channel, Source::Weights(0), index) <==> channel
        * kernel_size <= index < (channel + 1) * kernel_size
    &&& model::reads_from(launch, limit, 0, channel, Source::State, index) <==> channel * older
        <= index < (channel + 1) * older
    &&& model::reads_from(launch, limit, 1, element, Source::State, index) <==> tap + 1 < older
        && index == element + 1
    &&& model::reads_from(launch, limit, 1, element, Source::Input, index) <==> tap + 1 == older
        && index == channel
    &&& !model::reads_from(launch, limit, 1, element, Source::Weights(0), index)
}

/// A convolution step puts out a value for each channel and updates the state
/// of each, as `convolves` says. Every value of the state and every weight
/// belongs to one channel, the one that its place names.
pub proof fn law_causal_conv(
    input: usize,
    state: usize,
    weights: usize,
    channels: usize,
    kernel_size: usize,
    limit: u64,
    channel: int,
    tap: int,
    index: int,
)
    requires
        is_launched(recurrent::causal_conv_plan(input, state, weights, channels, kernel_size)),
        0 <= channel < channels,
        0 <= tap < kernel_size - 1,
    ensures
        ({
            let plan = recurrent::causal_conv_plan(input, state, weights, channels, kernel_size);
            let launch = launch_of(plan, 0);
            let size = kernel_size as int;
            let older = size - 1;
            &&& updates_state(plan->Ok_0, limit, channels, state)
            &&& input == channels
            &&& state == channels * older
            &&& weights == channels * kernel_size
            &&& convolves(launch, limit, kernel_size as int, channel, tap, index)
            &&& 0 <= index < weights ==> 0 <= index / size < channels && (model::reads_from(
                launch,
                limit,
                0,
                channel,
                Source::Weights(0),
                index,
            ) <==> channel == index / size)
            &&& 0 <= index < state ==> 0 <= index / older < channels && (model::reads_from(
                launch,
                limit,
                0,
                channel,
                Source::State,
                index,
            ) <==> channel == index / older)
        }),
{
    let plan = recurrent::causal_conv_plan(input, state, weights, channels, kernel_size);
    let launch = launch_of(plan, 0);
    let size = kernel_size as int;
    lemma_causal_conv(launch, limit, channels as int, size, channel, tap, index);
    lemma_part(channel, size, index);
    lemma_part(channel, size - 1, index);
    lemma_parts(channels as int, size, index);
    lemma_parts(channels as int, size - 1, index);
    assert(wiring::kernel_sources(launch.kernel)[2] == Source::State);
}

/// The matrix of a head starts at a multiple of the values.
proof fn lemma_column(key_dim: int, value_dim: int, head: int, index: int)
    requires
        value_dim > 0,
    ensures
        (index - head * (key_dim * value_dim)) % value_dim == index % value_dim,
{
    let rows = head * key_dim;
    assert(head * (key_dim * value_dim) == rows * value_dim) by (nonlinear_arith)
        requires
            rows == head * key_dim,
    ;
    assert(index - rows * value_dim == (-rows) * value_dim + index) by (nonlinear_arith);
    vstd::arithmetic::div_mod::lemma_mod_multiples_vanish(-rows, index, value_dim);
    assert(value_dim * (-rows) + index == (-rows) * value_dim + index) by (nonlinear_arith);
}

/// The place of a value in the matrix of its head.
proof fn lemma_matrix_place(key_dim: int, value_dim: int, head: int, key: int, value: int)
    requires
        0 <= key < key_dim,
        0 <= value < value_dim,
    ensures
        ({
            let matrix = key_dim * value_dim;
            let element = head * matrix + key * value_dim + value;
            &&& matrix > 0
            &&& model::in_part(head, matrix, element)
            &&& (element - head * matrix) % value_dim == value
            &&& element % value_dim == value
        }),
{
    let matrix = key_dim * value_dim;
    let element = head * matrix + key * value_dim + value;
    assert(0 <= key * value_dim && key * value_dim + value_dim <= matrix) by (nonlinear_arith)
        requires
            0 <= key,
            key + 1 <= key_dim,
            0 < value_dim,
            matrix == key_dim * value_dim,
    ;
    assert((head + 1) * matrix == head * matrix + matrix) by (nonlinear_arith);
    let rest = key * value_dim + value;
    assert(rest % value_dim == value) by (nonlinear_arith)
        requires
            rest == key * value_dim + value,
            0 <= value < value_dim,
    ;
    lemma_column(key_dim, value_dim, head, element);
}

/// A thread for each head writes the values of the head and its matrix.
proof fn lemma_serial_update(launch: Dispatch, limit: u64, heads: int, key_dim: int, value_dim: int)
    requires
        launch.kernel == Kernel::GatedDeltaStep,
        model::numbers(launch.constants) == seq![heads, key_dim, value_dim],
        model::positions(launch, limit) == heads,
        key_dim > 0,
        0 < value_dim <= 256,
    ensures
        model::fills(launch, limit, 0, heads * value_dim),
        model::fills(launch, limit, 1, heads * (key_dim * value_dim)),
{
    assert(key_dim * value_dim > 0) by (nonlinear_arith)
        requires
            key_dim > 0,
            value_dim > 0,
    ;
    lemma_fills_parts(launch, limit, 0, heads, value_dim);
    lemma_fills_parts(launch, limit, 1, heads, key_dim * value_dim);
}

/// The thread for a value of a head, where each value has one.
proof fn lemma_value_place(heads: int, value_dim: int, head: int, value: int)
    requires
        0 <= head < heads,
        0 <= value < value_dim,
    ensures
        0 <= head * value_dim + value < heads * value_dim,
        (head * value_dim + value) / value_dim == head,
        (head * value_dim + value) % value_dim == value,
{
    let place = head * value_dim + value;
    assert(0 <= head * value_dim && head * value_dim + value_dim <= heads * value_dim)
        by (nonlinear_arith)
        requires
            0 <= head,
            head + 1 <= heads,
            0 < value_dim,
    ;
    assert(place / value_dim == head && place % value_dim == value) by (nonlinear_arith)
        requires
            place == head * value_dim + value,
            0 <= value < value_dim,
    ;
}

/// A thread for each value of each head writes that value and its column of
/// the head's matrix.
proof fn lemma_parallel_update(
    launch: Dispatch,
    limit: u64,
    heads: int,
    key_dim: int,
    value_dim: int,
)
    requires
        launch.kernel == Kernel::GatedDeltaStepParallel,
        model::numbers(launch.constants) == seq![heads, key_dim, value_dim],
        model::width(launch, limit) == value_dim,
        model::positions(launch, limit) == heads * value_dim,
        key_dim > 0,
        value_dim > 0,
        heads > 0,
    ensures
        model::fills(launch, limit, 0, heads * value_dim),
        model::fills(launch, limit, 1, heads * (key_dim * value_dim)),
{
    let places = heads * value_dim;
    let matrix = key_dim * value_dim;
    assert(matrix > 0) by (nonlinear_arith)
        requires
            key_dim > 0,
            value_dim > 0,
            matrix == key_dim * value_dim,
    ;
    assert forall|place: int, element: int|
        0 <= place < places implies (#[trigger] model::place_writes(
        launch,
        limit,
        place,
        0,
        element,
    ) <==> model::in_part(place, 1, element)) by {
        let head = place / value_dim;
        let value = place % value_dim;
        lemma_parts(heads, value_dim, place);
        lemma_part(head, value_dim, place);
        assert(place == head * value_dim + value) by (nonlinear_arith)
            requires
                head == place / value_dim,
                value == place % value_dim,
                value_dim > 0,
        ;
    }
    lemma_fills_parts(launch, limit, 0, places, 1);
    assert forall|element: int| #[trigger]
        model::writes(launch, limit, 1, element) <==> 0 <= element < heads * matrix by {
        lemma_parts(heads, matrix, element);
        let head = element / matrix;
        lemma_part(head, matrix, element);
        if 0 <= element < heads * matrix {
            let value = (element - head * matrix) % value_dim;
            vstd::arithmetic::div_mod::lemma_mod_bound(element - head * matrix, value_dim);
            lemma_value_place(heads, value_dim, head, value);
            let place = head * value_dim + value;
            assert(model::place_writes(launch, limit, place, 1, element));
        }
        if model::writes(launch, limit, 1, element) {
            let place = choose|place: int|
                0 <= place < places && #[trigger] model::place_writes(
                    launch,
                    limit,
                    place,
                    1,
                    element,
                );
            lemma_part(place / value_dim, matrix, element);
            lemma_parts(heads, value_dim, place);
        }
    }
    assert forall|element: int, first: int, second: int|
        0 <= first < places && 0 <= second < places && #[trigger] model::place_writes(
            launch,
            limit,
            first,
            1,
            element,
        ) && #[trigger] model::place_writes(launch, limit, second, 1, element) implies first
        == second by {
        lemma_part(first / value_dim, matrix, element);
        lemma_part(second / value_dim, matrix, element);
        vstd::arithmetic::div_mod::lemma_fundamental_div_mod(first, value_dim);
        vstd::arithmetic::div_mod::lemma_fundamental_div_mod(second, value_dim);
    }
}

/// Whether a launch is one recurrent update for a value of a head. The value is
/// made of the head's query, key, gate and rate, of the new value in its
/// place and of its column of the head's matrix, and so is the new column, but
/// for the query.
pub open spec fn updates_head(
    launch: Dispatch,
    limit: u64,
    key_dim: int,
    value_dim: int,
    head: int,
    key: int,
    value: int,
    index: int,
) -> bool {
    let matrix = key_dim * value_dim;
    let output = head * value_dim + value;
    let element = head * matrix + key * value_dim + value;
    let column = head * matrix <= index < (head + 1) * matrix && index % value_dim == value;
    &&& model::reads_from(launch, limit, 0, output, Source::Queries, index) <==> head * key_dim
        <= index < (head + 1) * key_dim
    &&& model::reads_from(launch, limit, 0, output, Source::Keys, index) <==> head * key_dim
        <= index < (head + 1) * key_dim
    &&& model::reads_from(launch, limit, 0, output, Source::Values, index) <==> index == output
    &&& model::reads_from(launch, limit, 0, output, Source::Gate, index) <==> index == head
    &&& model::reads_from(launch, limit, 0, output, Source::Beta, index) <==> index == head
    &&& model::reads_from(launch, limit, 0, output, Source::State, index) <==> column
    &&& !model::reads_from(launch, limit, 1, element, Source::Queries, index)
    &&& model::reads_from(launch, limit, 1, element, Source::Keys, index) <==> head * key_dim
        <= index < (head + 1) * key_dim
    &&& model::reads_from(launch, limit, 1, element, Source::Values, index) <==> index == output
    &&& model::reads_from(launch, limit, 1, element, Source::Gate, index) <==> index == head
    &&& model::reads_from(launch, limit, 1, element, Source::Beta, index) <==> index == head
    &&& model::reads_from(launch, limit, 1, element, Source::State, index) <==> column
}

proof fn lemma_updates_head(
    launch: Dispatch,
    limit: u64,
    heads: int,
    key_dim: int,
    value_dim: int,
    head: int,
    key: int,
    value: int,
    index: int,
)
    requires
        launch.kernel == Kernel::GatedDeltaStep && value_dim <= 256 && model::positions(
            launch,
            limit,
        ) == heads || launch.kernel == Kernel::GatedDeltaStepParallel && model::width(launch, limit)
            == value_dim && model::positions(launch, limit) == heads * value_dim,
        model::numbers(launch.constants) == seq![heads, key_dim, value_dim],
        0 <= head < heads,
        0 <= key < key_dim,
        0 <= value < value_dim,
    ensures
        model::fills(launch, limit, 0, heads * value_dim),
        model::fills(launch, limit, 1, heads * (key_dim * value_dim)),
        updates_head(launch, limit, key_dim, value_dim, head, key, value, index),
{
    let matrix = key_dim * value_dim;
    let output = head * value_dim + value;
    let element = head * matrix + key * value_dim + value;
    if launch.kernel == Kernel::GatedDeltaStep {
        lemma_serial_update(launch, limit, heads, key_dim, value_dim);
    } else {
        lemma_parallel_update(launch, limit, heads, key_dim, value_dim);
    }
    lemma_value_place(heads, value_dim, head, value);
    lemma_part(head, value_dim, output);
    lemma_matrix_place(key_dim, value_dim, head, key, value);
    lemma_column(key_dim, value_dim, head, index);
    let place = if launch.kernel == Kernel::GatedDeltaStep {
        head
    } else {
        output
    };
    let values = heads * value_dim;
    let state = heads * matrix;
    assert(model::place_writes(launch, limit, place, 0, output));
    assert(model::place_writes(launch, limit, place, 1, element));
    lemma_six_sources(launch, limit, 0, values, place, output, index);
    lemma_six_sources(launch, limit, 1, state, place, element, index);
}

/// What a recurrent update reads is what its thread reads.
proof fn lemma_six_sources(
    launch: Dispatch,
    limit: u64,
    result: int,
    values: int,
    place: int,
    element: int,
    index: int,
)
    requires
        launch.kernel == Kernel::GatedDeltaStep || launch.kernel == Kernel::GatedDeltaStepParallel,
        model::fills(launch, limit, result, values),
        0 <= place < model::positions(launch, limit),
        model::place_writes(launch, limit, place, result, element),
    ensures
        model::reads_from(launch, limit, result, element, Source::Queries, index)
            <==> model::place_reads(launch, limit, place, result, element, 0, index),
        model::reads_from(launch, limit, result, element, Source::Keys, index)
            <==> model::place_reads(launch, limit, place, result, element, 1, index),
        model::reads_from(launch, limit, result, element, Source::Values, index)
            <==> model::place_reads(launch, limit, place, result, element, 2, index),
        model::reads_from(launch, limit, result, element, Source::Gate, index)
            <==> model::place_reads(launch, limit, place, result, element, 3, index),
        model::reads_from(launch, limit, result, element, Source::Beta, index)
            <==> model::place_reads(launch, limit, place, result, element, 4, index),
        model::reads_from(launch, limit, result, element, Source::State, index)
            <==> model::place_reads(launch, limit, place, result, element, 5, index),
{
    model::lemma_reads_from(launch, limit, result, values, place, element, 0, index);
    model::lemma_reads_from(launch, limit, result, values, place, element, 1, index);
    model::lemma_reads_from(launch, limit, result, values, place, element, 2, index);
    model::lemma_reads_from(launch, limit, result, values, place, element, 3, index);
    model::lemma_reads_from(launch, limit, result, values, place, element, 4, index);
    model::lemma_reads_from(launch, limit, result, values, place, element, 5, index);
}

/// A recurrent update puts out every value of every head and updates all of
/// the state, as `updates_head` says, whether the values of a head are updated
/// in parallel or not. They are where that is asked for and a group of threads
/// may have as many threads as a head has values.
pub proof fn law_gated_delta(
    input: GatedDeltaInput,
    switches: Switches,
    limit: u64,
    pipeline: u64,
    head: int,
    key: int,
    value: int,
    index: int,
)
    requires
        is_launched(recurrent::gated_delta_plan(input, switches, limit)),
        0 <= head < input.heads,
        0 <= key < input.key_dim,
        0 <= value < input.value_dim,
    ensures
        ({
            let plan = recurrent::gated_delta_plan(input, switches, limit);
            let launch = launch_of(plan, 0);
            &&& updates_state(plan->Ok_0, pipeline, input.value, input.state)
            &&& input.query == input.heads * input.key_dim
            &&& input.key == input.heads * input.key_dim
            &&& input.value == input.heads * input.value_dim
            &&& input.gate == input.heads
            &&& input.beta == input.heads
            &&& input.state == input.heads * (input.key_dim * input.value_dim)
            &&& updates_head(
                launch,
                pipeline,
                input.key_dim as int,
                input.value_dim as int,
                head,
                key,
                value,
                index,
            )
            &&& launch.kernel == Kernel::GatedDeltaStepParallel <==> switches.gdn_parallel
                && input.value_dim <= limit
            &&& launch.kernel == Kernel::GatedDeltaStepParallel ==> model::width(launch, pipeline)
                <= limit
        }),
{
    let plan = recurrent::gated_delta_plan(input, switches, limit);
    let launch = launch_of(plan, 0);
    let heads = input.heads as int;
    let key_dim = input.key_dim as int;
    let value_dim = input.value_dim as int;
    assert(heads * key_dim * value_dim == heads * (key_dim * value_dim)) by (nonlinear_arith);
    lemma_updates_head(launch, pipeline, heads, key_dim, value_dim, head, key, value, index);
    assert(wiring::kernel_sources(launch.kernel)[5] == Source::State);
}

/// Whether a launch attends for a value of a query head. The value is made of
/// the head's query, of all keys of the tokens that are cached for the head
/// that it shares with others, where a cache of this shape holds them, of that
/// head's new key, and of the values of the same tokens in the value's place.
pub open spec fn attends(
    launch: Dispatch,
    limit: u64,
    cache: CacheState,
    shared: int,
    head: int,
    d: int,
    index: int,
) -> bool {
    let dim = cache.dim;
    let element = head * dim + d;
    &&& 0 <= shared < cache.heads
    &&& model::reads_from(launch, limit, 0, element, Source::Queries, index) <==> head * dim
        <= index < (head + 1) * dim
    &&& model::reads_from(launch, limit, 0, element, Source::KeyCache, index) <==> exists|
        token: int,
        k: int,
    |
        0 <= token < cache.cached && 0 <= k < dim && index == #[trigger] cache.place(
            shared,
            token,
            k,
        )
    &&& model::reads_from(launch, limit, 0, element, Source::ValueCache, index) <==> exists|
        token: int,
    |
        0 <= token < cache.cached && index == #[trigger] cache.place(shared, token, d)
    &&& model::reads_from(launch, limit, 0, element, Source::Keys, index) <==> shared * dim <= index
        < (shared + 1) * dim
    &&& model::reads_from(launch, limit, 0, element, Source::Values, index) <==> index == shared
        * dim + d
}

/// The cache that a decoding step reads, with these values in its storage.
pub open spec fn cache_of(input: AttentionDecodeInput, keys: Seq<u32>, values: Seq<u32>) -> CacheState {
    CacheState {
        heads: input.key_value_heads as int,
        dim: input.head_dim as int,
        capacity: input.cache_capacity_tokens as int,
        cached: input.cached_tokens as int,
        keys,
        values,
    }
}

/// The head that a query head shares with others: each has as many query heads.
proof fn lemma_shared_head(query_heads: int, key_value_heads: int, head: int)
    requires
        query_heads > 0,
        key_value_heads > 0,
        query_heads % key_value_heads == 0,
        0 <= head < query_heads,
    ensures
        query_heads / key_value_heads > 0,
        0 <= head / (query_heads / key_value_heads) < key_value_heads,
{
    let size = query_heads / key_value_heads;
    assert(query_heads == key_value_heads * size) by {
        vstd::arithmetic::div_mod::lemma_fundamental_div_mod(query_heads, key_value_heads);
    }
    assert(size > 0) by (nonlinear_arith)
        requires
            query_heads == key_value_heads * size,
            query_heads > 0,
            key_value_heads > 0,
    ;
    lemma_parts(key_value_heads, size, head);
}

proof fn lemma_attends(
    launch: Dispatch,
    limit: u64,
    cache: CacheState,
    query_heads: int,
    head: int,
    d: int,
    index: int,
)
    requires
        launch.kernel == Kernel::AttentionDecode,
        model::numbers(launch.constants) == seq![
            query_heads,
            cache.heads,
            cache.dim,
            cache.cached,
            cache.capacity,
        ],
        model::positions(launch, limit) == query_heads,
        query_heads > 0,
        cache.heads > 0,
        query_heads % cache.heads == 0,
        cache.dim > 0,
        0 <= head < query_heads,
        0 <= d < cache.dim,
    ensures
        model::fills(launch, limit, 0, query_heads * cache.dim),
        attends(launch, limit, cache, head / (query_heads / cache.heads), head, d, index),
{
    let dim = cache.dim;
    let capacity = cache.capacity;
    let element = head * dim + d;
    let values = query_heads * dim;
    let shared = head / (query_heads / cache.heads);
    lemma_shared_head(query_heads, cache.heads, head);
    lemma_fills_parts(launch, limit, 0, query_heads, dim);
    assert(model::in_part(head, dim, element)) by (nonlinear_arith)
        requires
            element == head * dim + d,
            0 <= d < dim,
    ;
    assert(model::place_writes(launch, limit, head, 0, element));
    model::lemma_reads_from(launch, limit, 0, values, head, element, 0, index);
    model::lemma_reads_from(launch, limit, 0, values, head, element, 1, index);
    model::lemma_reads_from(launch, limit, 0, values, head, element, 2, index);
    model::lemma_reads_from(launch, limit, 0, values, head, element, 3, index);
    model::lemma_reads_from(launch, limit, 0, values, head, element, 4, index);
    let keys_read = model::place_reads(launch, limit, head, 0, element, 1, index);
    let keys_held = exists|token: int, k: int|
        0 <= token < cache.cached && 0 <= k < dim && index == #[trigger] cache.place(
            shared,
            token,
            k,
        );
    if keys_read {
        let token = choose|token: int|
            0 <= token < cache.cached && model::in_part(
                #[trigger] model::token_place(shared, capacity, token),
                dim,
                index,
            );
        let at = model::token_place(shared, capacity, token);
        assert((at + 1) * dim == at * dim + dim) by (nonlinear_arith);
        assert(index == cache.place(shared, token, index - at * dim));
    }
    if keys_held {
        let (token, k) = choose|token: int, k: int|
            0 <= token < cache.cached && 0 <= k < dim && index == #[trigger] cache.place(
                shared,
                token,
                k,
            );
        let at = model::token_place(shared, capacity, token);
        assert((at + 1) * dim == at * dim + dim) by (nonlinear_arith);
        assert(model::in_part(at, dim, index));
    }
    assert(keys_read <==> keys_held);
    let values_read = model::place_reads(launch, limit, head, 0, element, 2, index);
    let values_held = exists|token: int|
        0 <= token < cache.cached && index == #[trigger] cache.place(shared, token, d);
    if values_read {
        let token = choose|token: int|
            0 <= token < cache.cached && index == #[trigger] model::token_place(
                shared,
                capacity,
                token,
            ) * dim + d;
        assert(index == cache.place(shared, token, d));
    }
    if values_held {
        let token = choose|token: int|
            0 <= token < cache.cached && index == #[trigger] cache.place(shared, token, d);
        assert(index == model::token_place(shared, capacity, token) * dim + d);
    }
    assert(values_read <==> values_held);
}

/// A decoding step puts out a value for each value of its queries. It reads
/// the keys and values of the cached tokens where a cache of its shape holds
/// them, and those of the new token.
pub proof fn law_attention_decode(
    input: AttentionDecodeInput,
    keys: Seq<u32>,
    values: Seq<u32>,
    limit: u64,
    head: int,
    d: int,
    index: int,
)
    requires
        is_launched(attention::attention_decode_plan(input)),
        0 <= head < input.query_heads,
        0 <= d < input.head_dim,
    ensures
        ({
            let plan = attention::attention_decode_plan(input);
            let group_size = input.query_heads as int / input.key_value_heads as int;
            &&& fills_only_output(plan->Ok_0, limit, input.query as int)
            &&& input.query == input.query_heads * input.head_dim
            &&& input.new_keys == input.key_value_heads * input.head_dim
            &&& input.new_values == input.key_value_heads * input.head_dim
            &&& input.key_cache == input.key_value_heads * input.head_dim
                * input.cache_capacity_tokens
            &&& input.value_cache == input.key_cache
            &&& input.cached_tokens <= input.cache_capacity_tokens
            &&& attends(
                launch_of(plan, 0),
                limit,
                cache_of(input, keys, values),
                head / group_size,
                head,
                d,
                index,
            )
        }),
{
    let plan = attention::attention_decode_plan(input);
    lemma_attends(
        launch_of(plan, 0),
        limit,
        cache_of(input, keys, values),
        input.query_heads as int,
        head,
        d,
        index,
    );
}

/// The cache that a chained attention step reads, with these values in its storage.
pub open spec fn chained_cache(
    request: ChainedAttentionBufferRequest,
    keys: Seq<u32>,
    values: Seq<u32>,
) -> CacheState {
    CacheState {
        heads: request.config.key_value_heads as int,
        dim: request.config.head_dim as int,
        capacity: request.config.cache_capacity_tokens as int,
        cached: request.config.cached_tokens as int,
        keys,
        values,
    }
}

/// Attention in a chained step puts out a value for each value of the queries.
/// It reads the keys and values of the cached tokens where a cache of its
/// shape holds them, and those of the new token.
pub proof fn law_chained_attention(
    request: ChainedAttentionBufferRequest,
    keys: Seq<u32>,
    values: Seq<u32>,
    limit: u64,
    head: int,
    d: int,
    index: int,
)
    requires
        is_launched(attention::chained_plan(request)),
        0 <= head < request.config.query_heads,
        0 <= d < request.config.head_dim,
    ensures
        ({
            let plan = attention::chained_plan(request);
            let config = request.config;
            let query_heads = config.query_heads as int;
            let queries = query_heads * config.head_dim;
            let cached = config.key_value_heads * config.head_dim * config.cache_capacity_tokens;
            &&& plan->Ok_0.command->Ok_0.len() == 7
            &&& model::fills(launch_of(plan, 5), limit, 0, queries)
            &&& plan->Ok_0.buffers[7] == plan::value_bytes(queries)
            &&& request.key_cache == cached
            &&& request.value_cache == cached
            &&& config.cached_tokens < config.cache_capacity_tokens
            &&& attends(
                launch_of(plan, 5),
                limit,
                chained_cache(request, keys, values),
                head / (query_heads / config.key_value_heads as int),
                head,
                d,
                index,
            )
        }),
{
    let launches = attention::chained_launches(request);
    let plan = attention::chained_plan(request);
    text::lemma_collected_values(launches);
    assert(launches[5] == Ok::<Dispatch, Seq<char>>(launch_of(plan, 5)));
    lemma_attends(
        launch_of(plan, 5),
        limit,
        chained_cache(request, keys, values),
        request.config.query_heads as int,
        head,
        d,
        index,
    );
}

/// The other launches of a chained step: the projection puts out queries, keys
/// and values, both normalizations and both rotations put out as many values
/// as they are given, and the last projection puts out as many values as the
/// step is given. All of them fill the buffers that the next launch reads.
pub proof fn law_chained_projections(
    request: ChainedAttentionBufferRequest,
    limit: u64,
    head: int,
    d: int,
    index: int,
)
    requires
        is_launched(attention::chained_plan(request)),
        request.config.head_dim % 2 == 0,
        0 <= head < request.config.key_value_heads,
        0 <= d < request.config.head_dim,
    ensures
        ({
            let plan = attention::chained_plan(request)->Ok_0;
            let command = plan.command->Ok_0;
            let config = request.config;
            let queries = config.query_heads * config.head_dim;
            let keys = config.key_value_heads * config.head_dim;
            let columns = request.input;
            let query_bytes = plan::value_bytes(queries);
            let key_bytes = plan::value_bytes(keys);
            &&& command.len() == 7
            &&& model::is_product(
                command[0],
                limit,
                0,
                products::numbered(0, request.q.1, columns),
                1,
            )
            &&& model::is_product(
                command[0],
                limit,
                1,
                products::numbered(1, request.k.1, columns),
                1,
            )
            &&& model::is_product(
                command[0],
                limit,
                2,
                products::numbered(2, request.v.1, columns),
                1,
            )
            &&& request.q.1 == queries
            &&& request.k.1 == keys
            &&& request.v.1 == keys
            &&& model::fills(command[1], limit, 0, queries)
            &&& model::fills(command[2], limit, 0, keys)
            &&& model::fills(command[3], limit, 0, queries)
            &&& model::fills(command[4], limit, 0, keys)
            &&& model::numbers(command[1].constants)[2] == config.epsilon
            &&& model::numbers(command[2].constants)[2] == config.epsilon
            &&& rotates_heads(
                command[3],
                limit,
                config.query_heads as int,
                config.head_dim as int,
                config.position as int,
                config.rope_theta,
                head,
                d,
                index,
            )
            &&& rotates_heads(
                command[4],
                limit,
                config.key_value_heads as int,
                config.head_dim as int,
                config.position as int,
                config.rope_theta,
                head,
                d,
                index,
            )
            &&& model::is_product(
                command[6],
                limit,
                0,
                products::only(request.o.1, request.o.2),
                1,
            )
            &&& request.o.1 == request.input
            &&& request.o.2 == queries
            &&& plan.buffers == seq![
                query_bytes,
                key_bytes,
                key_bytes,
                query_bytes,
                key_bytes,
                query_bytes,
                key_bytes,
                query_bytes,
                plan::value_bytes(request.input as int),
            ]
            &&& plan.outputs == seq![request.input, keys as usize, keys as usize]
        }),
{
    attention::law_chained_is_separate_steps(request);
    let launches = attention::chained_launches(request);
    text::lemma_collected_values(launches);
    let plan = attention::chained_plan(request)->Ok_0;
    let command = plan.command->Ok_0;
    let config = request.config;
    let matrices = seq![request.q, request.k, request.v];
    products::law_fused_products(FusedProjection::Qkv, matrices, request.input, limit, 0);
    products::law_fused_products(FusedProjection::Qkv, matrices, request.input, limit, 1);
    products::law_fused_products(FusedProjection::Qkv, matrices, request.input, limit, 2);
    products::law_bf16_product(request.o.0, request.o.1, request.o.2, request.q.1, limit);
    assert(launches[3] == Ok::<Dispatch, Seq<char>>(command[3]));
    assert(launches[4] == Ok::<Dispatch, Seq<char>>(command[4]));
    let query_heads = config.query_heads as int;
    assert(head < query_heads) by {
        lemma_fewer_heads(query_heads, config.key_value_heads as int);
    }
    law_bf16_heads_norm(
        request.q.1,
        request.q_norm_bytes as nat,
        config.query_heads,
        config.head_dim,
        config.epsilon,
        limit,
        head,
        d,
        index,
    );
    law_bf16_heads_norm(
        request.k.1,
        request.k_norm_bytes as nat,
        config.key_value_heads,
        config.head_dim,
        config.epsilon,
        limit,
        head,
        d,
        index,
    );
    law_rope(
        request.q.1,
        config.query_heads,
        config.head_dim,
        config.position,
        config.rope_theta,
        limit,
        head,
        d,
        index,
    );
    law_rope(
        request.k.1,
        config.key_value_heads,
        config.head_dim,
        config.position,
        config.rope_theta,
        limit,
        head,
        d,
        index,
    );
}

/// There are at least as many query heads as heads of keys and values.
proof fn lemma_fewer_heads(query_heads: int, key_value_heads: int)
    requires
        query_heads > 0,
        key_value_heads > 0,
        query_heads % key_value_heads == 0,
    ensures
        key_value_heads <= query_heads,
{
    if query_heads < key_value_heads {
        vstd::arithmetic::div_mod::lemma_small_mod(query_heads as nat, key_value_heads as nat);
    }
}

} // verus!
