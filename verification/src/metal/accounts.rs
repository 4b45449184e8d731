//! The memory that steps are known to take: what they are given, once each,
//! and what they allocate.
use vstd::prelude::*;

use super::attention;
use super::attention::AttentionDecodeInput;
use super::context;
use super::context::ContextState;
use super::embedding;
use super::group;
use super::kernel::{Kernel, Switches};
use super::matvec;
use super::norm;
use super::plan;
use super::plan::{PlanView, Profile};
use super::quantized;
use super::quantized::BatchMessages;
use super::quantized_groups;
use super::recurrent;
use super::recurrent::GatedDeltaInput;
use super::weights;
use super::weights::{Bf16Weight, QuantWeight};
use crate::quant::Quant;

verus! {

/// The bytes of all parts, where they fit.
pub open spec fn sum_of(parts: Seq<int>) -> int
    decreases parts.len(),
{
    if parts.len() == 0 {
        0
    } else {
        sum_of(parts.drop_last()) + parts.last()
    }
}

/// The bytes of the buffers that a step allocates.
pub open spec fn allocated(plan: PlanView) -> int {
    sum_of(plan.buffers.map_values(|bytes: u64| bytes as int))
}

/// Whether a step counts these bytes of weights and of state, and for the rest
/// what else it is given and what it allocates.
pub open spec fn accounts_for(plan: PlanView, weights: int, state: int, inputs: int) -> bool {
    &&& plan.profile.weights == weights
    &&& plan.profile.state == state
    &&& plan.profile.scratch == inputs + allocated(plan)
}

proof fn lemma_one_buffer(plan: PlanView)
    requires
        plan.buffers.len() == 1,
    ensures
        allocated(plan) == plan.buffers[0],
{
    reveal_with_fuel(sum_of, 2);
}

/// A normalization counts its input, its weights and its output.
pub proof fn law_rms_norm_memory(input: usize, weight: usize, epsilon: u32)
    requires
        norm::rms_norm_plan(input, weight, epsilon) is Ok,
        12 * input <= u64::MAX,
    ensures
        accounts_for(
            norm::rms_norm_plan(input, weight, epsilon)->Ok_0,
            0,
            0,
            4 * input + 4 * weight,
        ),
{
    lemma_one_buffer(norm::rms_norm_plan(input, weight, epsilon)->Ok_0);
}

/// A normalization of heads with a BF16 scale counts the scale as weights.
pub proof fn law_bf16_heads_norm_memory(
    input: usize,
    weight_bytes: nat,
    heads: usize,
    head_dim: usize,
    epsilon: u32,
)
    requires
        norm::rms_norm_bf16_heads_plan(input, weight_bytes, heads, head_dim, epsilon) is Ok,
        weight_bytes <= u64::MAX,
        8 * input <= u64::MAX,
    ensures
        accounts_for(
            norm::rms_norm_bf16_heads_plan(
                input,
                weight_bytes,
                heads,
                head_dim,
                epsilon,
            )->Ok_0,
            weight_bytes as int,
            0,
            4 * input,
        ),
{
    lemma_one_buffer(
        norm::rms_norm_bf16_heads_plan(input, weight_bytes, heads, head_dim, epsilon)->Ok_0,
    );
}

/// A normalization of heads counts its scale as weights.
pub proof fn law_heads_norm_memory(
    input: usize,
    weight: usize,
    heads: usize,
    head_dim: usize,
    epsilon: u32,
)
    requires
        norm::rms_norm_heads_plan(input, weight, heads, head_dim, epsilon) is Ok,
        4 * weight + 8 * input <= u64::MAX,
    ensures
        accounts_for(
            norm::rms_norm_heads_plan(input, weight, heads, head_dim, epsilon)->Ok_0,
            4 * weight,
            0,
            4 * input,
        ),
        norm::rms_norm_heads_plan(input, weight, heads, head_dim, epsilon)->Ok_0.profile.mapped,
{
    lemma_one_buffer(norm::rms_norm_heads_plan(input, weight, heads, head_dim, epsilon)->Ok_0);
}

/// A gated normalization counts its scale as weights, and its gate beside its input.
pub proof fn law_gated_norm_memory(
    input: usize,
    gate: usize,
    weight: usize,
    heads: usize,
    head_dim: usize,
    epsilon: u32,
)
    requires
        norm::rms_norm_gated_plan(input, gate, weight, heads, head_dim, epsilon) is Ok,
        4 * weight + 12 * input <= u64::MAX,
    ensures
        accounts_for(
            norm::rms_norm_gated_plan(input, gate, weight, heads, head_dim, epsilon)->Ok_0,
            4 * weight,
            0,
            4 * input + 4 * gate,
        ),
        norm::rms_norm_gated_plan(
            input,
            gate,
            weight,
            heads,
            head_dim,
            epsilon,
        )->Ok_0.profile.mapped,
{
    lemma_one_buffer(
        norm::rms_norm_gated_plan(input, gate, weight, heads, head_dim, epsilon)->Ok_0,
    );
}

/// A rotation counts its input and its output.
pub proof fn law_rope_memory(
    input: usize,
    heads: usize,
    head_dim: usize,
    position: usize,
    theta: u32,
)
    requires
        norm::rope_plan(input, heads, head_dim, position, theta) is Ok,
        8 * input <= u64::MAX,
    ensures
        accounts_for(
            norm::rope_plan(input, heads, head_dim, position, theta)->Ok_0,
            0,
            0,
            4 * input,
        ),
{
    lemma_one_buffer(norm::rope_plan(input, heads, head_dim, position, theta)->Ok_0);
}

/// The values that the device holds for a cache.
pub open spec fn held(values: usize) -> int {
    if values == 0 {
        1
    } else {
        values as int
    }
}

/// Attention counts both caches as state, and its queries and new keys and
/// values as inputs.
pub proof fn law_attention_memory(input: AttentionDecodeInput)
    requires
        attention::attention_decode_plan(input) is Ok,
        4 * (held(input.key_cache) + held(input.value_cache)) <= u64::MAX,
        4 * (2 * input.query + input.new_keys + input.new_values) <= u64::MAX,
    ensures
        accounts_for(
            attention::attention_decode_plan(input)->Ok_0,
            0,
            4 * (held(input.key_cache) + held(input.value_cache)),
            4 * (input.query + input.new_keys + input.new_values),
        ),
{
    let plan = attention::attention_decode_plan(input)->Ok_0;
    lemma_one_buffer(plan);
    reveal_with_fuel(plan::total, 5);
}

/// A convolution counts its weights, its state, its input and its output.
pub proof fn law_causal_conv_memory(
    input: usize,
    state: usize,
    weights: usize,
    channels: usize,
    kernel_size: usize,
)
    requires
        recurrent::causal_conv_plan(input, state, weights, channels, kernel_size) is Ok,
        4 * weights <= u64::MAX,
        4 * state <= u64::MAX,
        8 * input <= u64::MAX,
    ensures
        accounts_for(
            recurrent::causal_conv_plan(input, state, weights, channels, kernel_size)->Ok_0,
            4 * weights,
            4 * state,
            4 * input,
        ),
        recurrent::causal_conv_plan(
            input,
            state,
            weights,
            channels,
            kernel_size,
        )->Ok_0.profile.mapped,
{
    lemma_one_buffer(
        recurrent::causal_conv_plan(input, state, weights, channels, kernel_size)->Ok_0,
    );
}

/// A recurrent update counts its state, and all that it reads as inputs.
pub proof fn law_gated_delta_memory(input: GatedDeltaInput, switches: Switches, limit: u64)
    requires
        recurrent::gated_delta_plan(input, switches, limit) is Ok,
        4 * input.state <= u64::MAX,
        4 * (input.query + input.key + 2 * input.value + input.gate + input.beta) <= u64::MAX,
    ensures
        accounts_for(
            recurrent::gated_delta_plan(input, switches, limit)->Ok_0,
            0,
            4 * input.state,
            4 * (input.query + input.key + input.value + input.gate + input.beta),
        ),
{
    let plan = recurrent::gated_delta_plan(input, switches, limit)->Ok_0;
    lemma_one_buffer(plan);
    reveal_with_fuel(plan::total, 7);
}

/// A product with an F32 matrix counts the matrix, the vector and the output.
pub proof fn law_f32_product_memory(values: nat, rows: usize, columns: usize, input: usize)
    requires
        matvec::f32_matvec_plan(values, rows, columns, input) is Ok,
        4 * values <= u64::MAX,
        4 * (input + rows) <= u64::MAX,
    ensures
        accounts_for(
            matvec::f32_matvec_plan(values, rows, columns, input)->Ok_0,
            (4 * values) as int,
            0,
            4 * input,
        ),
        matvec::f32_matvec_plan(values, rows, columns, input)->Ok_0.profile.mapped,
{
    lemma_one_buffer(matvec::f32_matvec_plan(values, rows, columns, input)->Ok_0);
}

/// A product with a packed matrix counts the packed bytes and the offsets.
pub proof fn law_packed_product_memory(
    packed_len: nat,
    offsets: Seq<u32>,
    rows: usize,
    columns: usize,
    tile_rows: usize,
    input: usize,
    enabled: bool,
)
    requires
        matvec::bf16_bitpack_matvec_plan(
            packed_len,
            offsets,
            rows,
            columns,
            tile_rows,
            input,
            enabled,
        ) is Ok,
        packed_len + 4 * offsets.len() <= u64::MAX,
        4 * (input + rows) <= u64::MAX,
    ensures
        accounts_for(
            matvec::bf16_bitpack_matvec_plan(
                packed_len,
                offsets,
                rows,
                columns,
                tile_rows,
                input,
                enabled,
            )->Ok_0,
            (packed_len + 4 * offsets.len()) as int,
            0,
            4 * input,
        ),
{
    lemma_one_buffer(
        matvec::bf16_bitpack_matvec_plan(
            packed_len,
            offsets,
            rows,
            columns,
            tile_rows,
            input,
            enabled,
        )->Ok_0,
    );
}

/// A product with mapped block-quantized bytes counts the bytes, the vector
/// and the output.
pub proof fn law_quantized_product_memory(
    format: Quant,
    kernel: Kernel,
    weight_len: nat,
    rows: usize,
    columns: usize,
    input: usize,
    rows4: bool,
    switches: Switches,
)
    requires
        quantized::quant_bytes_plan(
            format,
            kernel,
            weight_len,
            rows,
            columns,
            input,
            rows4,
            switches,
        ) is Ok,
        weight_len <= u64::MAX,
        4 * (input + rows) <= u64::MAX,
    ensures
        ({
            let plan = quantized::quant_bytes_plan(
                format,
                kernel,
                weight_len,
                rows,
                columns,
                input,
                rows4,
                switches,
            )->Ok_0;
            accounts_for(plan, weight_len as int, 0, 4 * input) && plan.profile.mapped
        }),
{
    lemma_one_buffer(
        quantized::quant_bytes_plan(
            format,
            kernel,
            weight_len,
            rows,
            columns,
            input,
            rows4,
            switches,
        )->Ok_0,
    );
}

/// A product with a retained matrix counts the vector and the output alone.
pub proof fn law_retained_product_memory(
    weight: QuantWeight,
    rows: usize,
    columns: usize,
    input: usize,
    switches: Switches,
)
    requires
        quantized::gguf_quant_matvec_weight_plan(weight, rows, columns, input, switches) is Ok,
        4 * (input + rows) <= u64::MAX,
    ensures
        accounts_for(
            quantized::gguf_quant_matvec_weight_plan(
                weight,
                rows,
                columns,
                input,
                switches,
            )->Ok_0,
            0,
            0,
            4 * input,
        ),
{
    lemma_one_buffer(
        quantized::gguf_quant_matvec_weight_plan(weight, rows, columns, input, switches)->Ok_0,
    );
}

/// A batched product counts the matrix once, unless it is retained, and the
/// vectors and the outputs of the whole batch.
pub proof fn law_quantized_batch_memory(
    ggml_type: u32,
    weight_bytes: nat,
    retained: bool,
    rows: usize,
    columns: usize,
    batch: usize,
    inputs: usize,
    messages: BatchMessages,
)
    requires
        quantized::matmul_many_plan(
            ggml_type,
            weight_bytes,
            retained,
            rows,
            columns,
            batch,
            inputs,
            messages,
        ) is Ok,
        weight_bytes <= u64::MAX,
        4 * (inputs + batch * rows) <= u64::MAX,
    ensures
        ({
            let plan = quantized::matmul_many_plan(
                ggml_type,
                weight_bytes,
                retained,
                rows,
                columns,
                batch,
                inputs,
                messages,
            )->Ok_0;
            &&& accounts_for(
                plan,
                if retained {
                    0
                } else {
                    weight_bytes as int
                },
                0,
                4 * inputs,
            )
            &&& plan.profile.mapped == !retained
        }),
{
    lemma_one_buffer(
        quantized::matmul_many_plan(
            ggml_type,
            weight_bytes,
            retained,
            rows,
            columns,
            batch,
            inputs,
            messages,
        )->Ok_0,
    );
    assert(0 <= batch * rows) by (nonlinear_arith);
}

/// A batched product with a BF16 matrix counts the matrix once, unless it
/// persists outside a mapping.
pub proof fn law_bf16_batch_memory(
    weight: Bf16Weight,
    rows: usize,
    columns: usize,
    batch: usize,
    inputs: usize,
    limit: Option<u64>,
)
    requires
        matvec::bf16_matmul_many_plan(weight, rows, columns, batch, inputs, limit) is Ok,
        4 * (inputs + batch * rows) <= u64::MAX,
    ensures
        accounts_for(
            matvec::bf16_matmul_many_plan(weight, rows, columns, batch, inputs, limit)->Ok_0,
            if weight.persistent && !weight.mapped {
                0
            } else {
                weight.bytes as int
            },
            0,
            4 * inputs,
        ),
{
    lemma_one_buffer(
        matvec::bf16_matmul_many_plan(weight, rows, columns, batch, inputs, limit)->Ok_0,
    );
    assert(0 <= batch * rows) by (nonlinear_arith);
}

/// A fused gate/up step counts both matrices, the vector and one output.
pub proof fn law_gated_product_memory(
    gate_len: nat,
    up_len: nat,
    rows: usize,
    columns: usize,
    input: usize,
    switches: Switches,
)
    requires
        quantized_groups::q4_k_fused_gate_up_plan(
            gate_len,
            up_len,
            rows,
            columns,
            input,
            switches,
        ) is Ok,
        gate_len + up_len <= u64::MAX,
        4 * (input + rows) <= u64::MAX,
    ensures
        accounts_for(
            quantized_groups::q4_k_fused_gate_up_plan(
                gate_len,
                up_len,
                rows,
                columns,
                input,
                switches,
            )->Ok_0,
            (gate_len + up_len) as int,
            0,
            4 * input,
        ),
{
    lemma_one_buffer(
        quantized_groups::q4_k_fused_gate_up_plan(
            gate_len,
            up_len,
            rows,
            columns,
            input,
            switches,
        )->Ok_0,
    );
}

/// A fused MLP with retained matrices counts the vector, the gated values and
/// the output.
pub proof fn law_mlp_memory(
    gate: QuantWeight,
    up: QuantWeight,
    down: QuantWeight,
    gate_rows: usize,
    columns: usize,
    down_rows: usize,
    input: usize,
    switches: Switches,
)
    requires
        quantized_groups::fused_mlp_plan(
            gate,
            up,
            down,
            gate_rows,
            columns,
            down_rows,
            input,
            switches,
        ) is Ok,
        4 * (input + gate_rows + down_rows) <= u64::MAX,
    ensures
        accounts_for(
            quantized_groups::fused_mlp_plan(
                gate,
                up,
                down,
                gate_rows,
                columns,
                down_rows,
                input,
                switches,
            )->Ok_0,
            0,
            0,
            4 * input,
        ),
{
    reveal_with_fuel(plan::total, 4);
    reveal_with_fuel(sum_of, 3);
}

/// A decoded row counts the row and its values.
pub proof fn law_embedding_memory(row_len: nat, columns: usize)
    requires
        row_len <= u64::MAX,
        4 * columns <= u64::MAX,
    ensures
        embedding::q4_k_embedding_row_plan(row_len, columns) matches Ok(plan) ==> accounts_for(
            plan,
            row_len as int,
            0,
            0,
        ),
        embedding::bf16_embedding_row_plan(row_len, columns) matches Ok(plan) ==> accounts_for(
            plan,
            row_len as int,
            0,
            0,
        ),
{
    if let Ok(plan) = embedding::q4_k_embedding_row_plan(row_len, columns) {
        lemma_one_buffer(plan);
    }
    if let Ok(plan) = embedding::bf16_embedding_row_plan(row_len, columns) {
        lemma_one_buffer(plan);
    }
}

/// The bytes of parts that fit a counter are their sum.
proof fn lemma_total(parts: Seq<u64>)
    requires
        sum_of(parts.map_values(|bytes: u64| bytes as int)) <= u64::MAX,
    ensures
        plan::total(parts) == sum_of(parts.map_values(|bytes: u64| bytes as int)),
        0 <= sum_of(parts.map_values(|bytes: u64| bytes as int)),
    decreases parts.len(),
{
    let all = parts.map_values(|bytes: u64| bytes as int);
    if parts.len() > 0 {
        let shorter = parts.drop_last();
        assert(all.drop_last() =~= shorter.map_values(|bytes: u64| bytes as int));
        lemma_total_not_negative(shorter);
        lemma_total(shorter);
    }
}

proof fn lemma_total_not_negative(parts: Seq<u64>)
    ensures
        0 <= sum_of(parts.map_values(|bytes: u64| bytes as int)),
    decreases parts.len(),
{
    let all = parts.map_values(|bytes: u64| bytes as int);
    if parts.len() > 0 {
        assert(all.drop_last() =~= parts.drop_last().map_values(|bytes: u64| bytes as int));
        lemma_total_not_negative(parts.drop_last());
    }
}

/// A group of products counts the vector once and all its outputs, and of its
/// matrices the bytes that it reads from a mapping.
pub proof fn law_group_memory(members: Seq<group::Member>, shared: group::Group)
    requires
        4 * shared.columns + sum_of(
            group::row_bytes(group::member_rows(members)).map_values(|bytes: u64| bytes as int),
        ) <= u64::MAX,
        sum_of(group::member_bytes(members).map_values(|bytes: u64| bytes as int)) <= u64::MAX,
    ensures
        ({
            let plan = group::group_plan(members, shared);
            &&& accounts_for(
                plan,
                if shared.mapped {
                    sum_of(group::member_bytes(members).map_values(|bytes: u64| bytes as int))
                } else {
                    0
                },
                0,
                4 * shared.columns,
            )
            &&& plan.profile.mapped == shared.mapped
        }),
{
    let outputs = group::row_bytes(group::member_rows(members));
    lemma_total(group::member_bytes(members));
    lemma_total_behind(plan::value_bytes(shared.columns as int), outputs);
    lemma_total_not_negative(outputs);
}

/// The bytes of a part and of others behind it.
proof fn lemma_total_behind(first: u64, parts: Seq<u64>)
    requires
        first + sum_of(parts.map_values(|bytes: u64| bytes as int)) <= u64::MAX,
    ensures
        plan::total(seq![first] + parts) == first + sum_of(
            parts.map_values(|bytes: u64| bytes as int),
        ),
    decreases parts.len(),
{
    let all = seq![first] + parts;
    if parts.len() == 0 {
        assert(all =~= seq![first]);
        assert(all.drop_last() =~= Seq::empty());
        assert(plan::total(all.drop_last()) == 0);
    } else {
        let shorter = parts.drop_last();
        assert(parts.map_values(|bytes: u64| bytes as int).drop_last() =~= shorter.map_values(
            |bytes: u64| bytes as int,
        ));
        assert(all.drop_last() =~= seq![first] + shorter);
        lemma_total_behind(first, shorter);
        lemma_total_not_negative(shorter);
    }
}

/// What a step with several BF16 weights counts: all of them that do not
/// persist, or where some are mapped, these.
pub proof fn law_weights_are_counted(bound: Seq<Bf16Weight>, scratch: u64, index: int)
    requires
        0 <= index < bound.len(),
        sum_of(bound.map_values(|weight: Bf16Weight| weight.bytes as int)) <= u64::MAX,
    ensures
        ({
            let profile = weights::weights_profile(bound, scratch);
            let weight = bound[index];
            &&& profile.scratch == scratch
            &&& profile.state == 0
            &&& profile.weights <= sum_of(
                bound.map_values(|weight: Bf16Weight| weight.bytes as int),
            )
            &&& weight.mapped && !weight.persistent && weight.bytes > 0 ==> profile.mapped
            &&& (profile.mapped ==> weight.mapped) && !weight.persistent ==> profile.weights
                >= weight.bytes
            &&& (forall|i: int| 0 <= i < bound.len() ==> !(#[trigger] bound[i]).persistent
                && !bound[i].mapped) ==> profile.weights == sum_of(
                bound.map_values(|weight: Bf16Weight| weight.bytes as int),
            ) && !profile.mapped
            &&& (forall|i: int| 0 <= i < bound.len() ==> (#[trigger] bound[i]).persistent)
                ==> profile.weights == 0 && !profile.mapped
        }),
{
    let bytes = bound.map_values(|weight: Bf16Weight| weight.bytes as int);
    let mapped = bound.map_values(|weight: Bf16Weight| weights::mapped_bytes(weight));
    let active = bound.map_values(|weight: Bf16Weight| weights::active_bytes(weight));
    lemma_parts_below(mapped, bytes, index);
    lemma_parts_below(active, bytes, index);
    if forall|i: int| 0 <= i < bound.len() ==> !(#[trigger] bound[i]).persistent && !bound[i].mapped {
        assert(active.map_values(|part: u64| part as int) =~= bytes);
        lemma_total(active);
        assert forall|i: int| 0 <= i < mapped.len() implies (#[trigger] mapped[i]) == 0 by {
            assert(!bound[i].mapped);
        }
        plan::lemma_total_above_zero(mapped);
    }
    if forall|i: int| 0 <= i < bound.len() ==> (#[trigger] bound[i]).persistent {
        assert forall|i: int| 0 <= i < mapped.len() implies (#[trigger] mapped[i]) == 0
            && active[i] == 0 by {
            assert(bound[i].persistent);
        }
        plan::lemma_total_above_zero(mapped);
        plan::lemma_total_above_zero(active);
    }
}

/// Parts that are no greater than others have no greater sum, and a sum is no
/// less than any of its parts.
proof fn lemma_parts_below(parts: Seq<u64>, others: Seq<int>, index: int)
    requires
        parts.len() == others.len(),
        0 <= index < parts.len(),
        forall|i: int| 0 <= i < parts.len() ==> (#[trigger] parts[i]) <= others[i],
        sum_of(others) <= u64::MAX,
    ensures
        plan::total(parts) <= sum_of(others),
        parts[index] <= plan::total(parts),
    decreases parts.len(),
{
    let shorter = parts.drop_last();
    let rest = others.drop_last();
    assert(forall|i: int| 0 <= i < shorter.len() ==> shorter[i] == #[trigger] parts[i]);
    assert(forall|i: int| 0 <= i < rest.len() ==> rest[i] == #[trigger] others[i]);
    assert forall|i: int| 0 <= i < shorter.len() implies (#[trigger] shorter[i]) <= rest[i] by {
        assert(parts[i] <= others[i]);
    }
    assert(parts[parts.len() - 1] <= others[parts.len() - 1]);
    if parts.len() > 1 {
        let at = if index < shorter.len() {
            index
        } else {
            0
        };
        lemma_parts_below(shorter, rest, at);
    } else {
        assert(shorter =~= Seq::empty());
        assert(rest =~= Seq::empty());
    }
}

/// A peak is what it was before or what the step takes, whichever is more. A
/// step takes its own weights, unless they are mapped, beside those that
/// persist, and its state and its scratch memory.
pub proof fn law_peaks_are_exact(state: ContextState, profile: Profile)
    requires
        state.resident == 0,
        state.persistent + profile.weights + profile.state + profile.scratch <= u64::MAX,
    ensures
        ({
            let after = context::profiled(state, profile);
            let used = state.persistent + profile.weights;
            let own = if profile.mapped {
                state.persistent as int
            } else {
                used
            };
            let step = own + profile.state + profile.scratch;
            &&& after.peak_weights == (if used > state.peak_weights {
                used
            } else {
                state.peak_weights as int
            })
            &&& after.peak_allocated == (if step > state.peak_allocated {
                step
            } else {
                state.peak_allocated as int
            })
            &&& after.peak_state == (if profile.state > state.peak_state {
                profile.state
            } else {
                state.peak_state
            })
            &&& after.peak_scratch == (if profile.scratch > state.peak_scratch {
                profile.scratch
            } else {
                state.peak_scratch
            })
        }),
{
}

} // verus!
