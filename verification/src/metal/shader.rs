//! The source of the compute kernels in the Metal shading language.
use vstd::prelude::*;

verus! {

pub const PRELUDE: &'static str = r#"
#include <metal_stdlib>
using namespace metal;
"#;

pub const RMS_NORM: &'static str = r#"
kernel void si_rms_norm(
    device const float* input [[buffer(0)]],
    device const float* weight [[buffer(1)]],
    device float* output [[buffer(2)]],
    constant uint& length [[buffer(3)]],
    constant float& epsilon [[buffer(4)]],
    uint3 thread_id [[thread_position_in_grid]]) {
    if (thread_id.x != 0) {
        return;
    }
    float sum = 0.0f;
    for (uint index = 0; index < length; ++index) {
        sum += input[index] * input[index];
    }
    float inverse_rms = rsqrt(sum / static_cast<float>(length) + epsilon);
    for (uint index = 0; index < length; ++index) {
        output[index] = input[index] * inverse_rms * weight[index];
    }
}
"#;

pub const RMS_NORM_BF16_HEADS: &'static str = r#"
kernel void si_rms_norm_bf16_heads(
    device const float* input [[buffer(0)]],
    device const ushort* weight [[buffer(1)]],
    device float* output [[buffer(2)]],
    constant uint& heads [[buffer(3)]],
    constant uint& head_dim [[buffer(4)]],
    constant float& epsilon [[buffer(5)]],
    uint3 thread_id [[thread_position_in_grid]]) {
    uint head = thread_id.x;
    if (head >= heads) {
        return;
    }
    uint base = head * head_dim;
    float sum = 0.0f;
    for (uint index = 0; index < head_dim; ++index) {
        float value = input[base + index];
        sum += value * value;
    }
    float inverse_rms = rsqrt(sum / static_cast<float>(head_dim) + epsilon);
    for (uint index = 0; index < head_dim; ++index) {
        uint bits = uint(weight[index]) << 16;
        output[base + index] = input[base + index] * inverse_rms * as_type<float>(bits);
    }
}
"#;

pub const RMS_NORM_GATED: &'static str = r#"
kernel void si_rms_norm_gated(
    device const float* input [[buffer(0)]],
    device const float* gate [[buffer(1)]],
    device const float* weight [[buffer(2)]],
    device float* output [[buffer(3)]],
    constant uint& heads [[buffer(4)]],
    constant uint& head_dim [[buffer(5)]],
    constant float& epsilon [[buffer(6)]],
    uint3 thread_id [[thread_position_in_grid]]) {
    uint head = thread_id.x;
    if (head >= heads) {
        return;
    }
    uint base = head * head_dim;
    float sum = 0.0f;
    for (uint index = 0u; index < head_dim; ++index) {
        float value = input[base + index];
        sum += value * value;
    }
    float inverse_rms = rsqrt(sum / static_cast<float>(head_dim) + epsilon);
    for (uint index = 0u; index < head_dim; ++index) {
        float gate_value = gate[base + index];
        float silu = gate_value / (1.0f + exp(-gate_value));
        output[base + index] = input[base + index] * inverse_rms * weight[index] * silu;
    }
}
"#;

pub const RMS_NORM_HEADS: &'static str = r#"
kernel void si_rms_norm_heads(
    device const float* input [[buffer(0)]],
    device const float* weight [[buffer(1)]],
    device float* output [[buffer(2)]],
    constant uint& heads [[buffer(3)]],
    constant uint& head_dim [[buffer(4)]],
    constant float& epsilon [[buffer(5)]],
    uint3 thread_id [[thread_position_in_grid]]) {
    uint head = thread_id.x;
    if (head >= heads) {
        return;
    }
    uint base = head * head_dim;
    float sum = 0.0f;
    for (uint index = 0u; index < head_dim; ++index) {
        float value = input[base + index];
        sum += value * value;
    }
    float inverse_rms = rsqrt(sum / static_cast<float>(head_dim) + epsilon);
    for (uint index = 0u; index < head_dim; ++index) {
        output[base + index] = input[base + index] * inverse_rms * (1.0f + weight[index]);
    }
}
"#;

pub const BF16_MATVEC: &'static str = r#"
kernel void si_bf16_matvec(
    device const ushort* weights [[buffer(0)]],
    device const float* input [[buffer(1)]],
    device float* output [[buffer(2)]],
    constant uint& columns [[buffer(3)]],
    constant uint& rows [[buffer(4)]],
    uint3 threadgroup_id [[threadgroup_position_in_grid]],
    uint3 thread_id [[thread_position_in_threadgroup]],
    uint3 threads_per_group [[threads_per_threadgroup]],
    uint simd_lane [[thread_index_in_simdgroup]],
    uint simdgroup_id [[simdgroup_index_in_threadgroup]]) {
    uint row = threadgroup_id.x;
    if (row >= rows) {
        return;
    }
    float sum = 0.0f;
    if ((columns & 3u) == 0u) {
        uint vector_columns = columns / 4u;
        device const ushort4* vector_weights = reinterpret_cast<device const ushort4*>(weights);
        device const float4* vector_input = reinterpret_cast<device const float4*>(input);
        for (uint index = thread_id.x; index < vector_columns; index += threads_per_group.x) {
            uint4 bits = uint4(vector_weights[row * vector_columns + index]) << 16;
            sum += dot(as_type<float4>(bits), vector_input[index]);
        }
    } else {
        for (uint column = thread_id.x; column < columns; column += threads_per_group.x) {
            uint bits = uint(weights[row * columns + column]) << 16;
            sum += as_type<float>(bits) * input[column];
        }
    }
    float simd_total = simd_sum(sum);
    threadgroup float partials[32];
    if (simd_lane == 0) {
        partials[simdgroup_id] = simd_total;
    }
    threadgroup_barrier(mem_flags::mem_threadgroup);
    if (thread_id.x == 0) {
        float total = 0.0f;
        uint simdgroups = (threads_per_group.x + 31u) / 32u;
        for (uint index = 0; index < simdgroups; ++index) {
            total += partials[index];
        }
        output[row] = total;
    }
}
"#;

pub const F32_MATVEC: &'static str = r#"
kernel void si_f32_matvec(
    device const float* weights [[buffer(0)]],
    device const float* input [[buffer(1)]],
    device float* output [[buffer(2)]],
    constant uint& columns [[buffer(3)]],
    constant uint& rows [[buffer(4)]],
    uint3 threadgroup_id [[threadgroup_position_in_grid]],
    uint3 thread_id [[thread_position_in_threadgroup]],
    uint3 threads_per_group [[threads_per_threadgroup]],
    uint simd_lane [[thread_index_in_simdgroup]],
    uint simdgroup_id [[simdgroup_index_in_threadgroup]]) {
    uint row = threadgroup_id.x;
    if (row >= rows) {
        return;
    }
    float sum = 0.0f;
    if ((columns & 3u) == 0u) {
        uint vector_columns = columns / 4u;
        device const float4* vector_weights = reinterpret_cast<device const float4*>(weights);
        device const float4* vector_input = reinterpret_cast<device const float4*>(input);
        for (uint index = thread_id.x; index < vector_columns; index += threads_per_group.x) {
            sum += dot(vector_weights[row * vector_columns + index], vector_input[index]);
        }
    } else {
        for (uint column = thread_id.x; column < columns; column += threads_per_group.x) {
            sum += weights[row * columns + column] * input[column];
        }
    }
    float simd_total = simd_sum(sum);
    threadgroup float partials[32];
    if (simd_lane == 0) {
        partials[simdgroup_id] = simd_total;
    }
    threadgroup_barrier(mem_flags::mem_threadgroup);
    if (thread_id.x == 0) {
        float total = 0.0f;
        uint simdgroups = (threads_per_group.x + 31u) / 32u;
        for (uint index = 0; index < simdgroups; ++index) {
            total += partials[index];
        }
        output[row] = total;
    }
}
"#;

pub const Q4_K_MATVEC: &'static str = r#"
// Exact GGML Q4_K matvec. The 144-byte block is decoded in registers while
// the input vector is consumed, so no expanded FP32/BF16 weight allocation is
// needed on the device.
kernel void si_q4_k_matvec(
    device const uchar* weights [[buffer(0)]],
    device const float* input [[buffer(1)]],
    device float* output [[buffer(2)]],
    constant uint& columns [[buffer(3)]],
    constant uint& rows [[buffer(4)]],
    uint3 threadgroup_id [[threadgroup_position_in_grid]],
    uint3 thread_id [[thread_position_in_threadgroup]],
    uint3 threads_per_group [[threads_per_threadgroup]],
    uint simd_lane [[thread_index_in_simdgroup]],
    uint simdgroup_id [[simdgroup_index_in_threadgroup]]) {
    uint row = threadgroup_id.x;
    if (row >= rows) {
        return;
    }
    uint blocks_per_row = columns / 256u;
    float sum = 0.0f;
    for (uint column = thread_id.x; column < columns; column += threads_per_group.x) {
        uint local = column & 255u;
        uint group = local / 64u;
        uint within_group = local & 63u;
        uint quant_byte = within_group & 31u;
        uint block = column / 256u;
        uint block_base = (row * blocks_per_row + block) * 144u;
        ushort d_bits = ushort(weights[block_base]) |
            (ushort(weights[block_base + 1u]) << 8);
        ushort min_bits = ushort(weights[block_base + 2u]) |
            (ushort(weights[block_base + 3u]) << 8);
        float d = float(as_type<half>(d_bits));
        float min = float(as_type<half>(min_bits));
        uint scale_index = group * 2u + (within_group >= 32u ? 1u : 0u);
        uint scale_byte = block_base + 4u + scale_index;
        uint scale;
        uint minimum;
        if (scale_index < 4u) {
            scale = uint(weights[scale_byte] & 0x3fu);
            minimum = uint(weights[block_base + 8u + scale_index] & 0x3fu);
        } else {
            uint packed_scale = block_base + 8u + scale_index;
            scale = uint(weights[packed_scale] & 0x0fu) |
                (uint(weights[block_base + scale_index]) >> 6u << 4u);
            minimum = uint(weights[packed_scale] >> 4u) |
                (uint(weights[block_base + 4u + scale_index]) >> 6u << 4u);
        }
        uchar packed = weights[block_base + 16u + group * 32u + quant_byte];
        uint quant = within_group >= 32u ? uint(packed >> 4u) : uint(packed & 0x0fu);
        float value = d * float(scale) * float(quant) - min * float(minimum);
        sum += value * input[column];
    }
    float simd_total = simd_sum(sum);
    threadgroup float partials[32];
    if (simd_lane == 0) {
        partials[simdgroup_id] = simd_total;
    }
    threadgroup_barrier(mem_flags::mem_threadgroup);
    if (thread_id.x == 0) {
        float total = 0.0f;
        uint simdgroups = (threads_per_group.x + 31u) / 32u;
        for (uint index = 0; index < simdgroups; ++index) {
            total += partials[index];
        }
        output[row] = total;
    }
}
"#;

pub const Q4_K_MATVEC_ROWS4: &'static str = r#"
// Q4_K row-blocked variant. Four SIMD groups share one threadgroup, with one
// SIMD group owning one output row. This removes the cross-SIMD partial buffer
// and the barrier from the ordinary one-row dispatch while preserving the
// exact decode and FP32 accumulation order within each row.
kernel void si_q4_k_matvec_rows4(
    device const uchar* weights [[buffer(0)]],
    device const float* input [[buffer(1)]],
    device float* output [[buffer(2)]],
    constant uint& columns [[buffer(3)]],
    constant uint& rows [[buffer(4)]],
    uint3 threadgroup_id [[threadgroup_position_in_grid]],
    uint simd_lane [[thread_index_in_simdgroup]],
    uint simdgroup_id [[simdgroup_index_in_threadgroup]]) {
    uint row = threadgroup_id.x * 4u + simdgroup_id;
    if (row >= rows) {
        return;
    }
    uint blocks_per_row = columns / 256u;
    float sum = 0.0f;
    for (uint column = simd_lane; column < columns; column += 32u) {
        uint local = column & 255u;
        uint group = local / 64u;
        uint within_group = local & 63u;
        uint quant_byte = within_group & 31u;
        uint block = column / 256u;
        uint block_base = (row * blocks_per_row + block) * 144u;
        ushort d_bits = ushort(weights[block_base]) |
            (ushort(weights[block_base + 1u]) << 8);
        ushort min_bits = ushort(weights[block_base + 2u]) |
            (ushort(weights[block_base + 3u]) << 8);
        float d = float(as_type<half>(d_bits));
        float min = float(as_type<half>(min_bits));
        uint scale_index = group * 2u + (within_group >= 32u ? 1u : 0u);
        uint scale;
        uint minimum;
        if (scale_index < 4u) {
            scale = uint(weights[block_base + 4u + scale_index] & 0x3fu);
            minimum = uint(weights[block_base + 8u + scale_index] & 0x3fu);
        } else {
            uint packed_scale = block_base + 8u + scale_index;
            scale = uint(weights[packed_scale] & 0x0fu) |
                (uint(weights[block_base + scale_index]) >> 6u << 4u);
            minimum = uint(weights[packed_scale] >> 4u) |
                (uint(weights[block_base + 4u + scale_index]) >> 6u << 4u);
        }
        uchar packed = weights[block_base + 16u + group * 32u + quant_byte];
        uint quant = within_group >= 32u ? uint(packed >> 4u) : uint(packed & 0x0fu);
        float value = d * float(scale) * float(quant) - min * float(minimum);
        sum += value * input[column];
    }
    float total = simd_sum(sum);
    if (simd_lane == 0u) {
        output[row] = total;
    }
}
"#;

pub const Q4_K_MATVEC_ROWS4X128: &'static str = r#"
// Four rows per threadgroup, four SIMD groups per row. This is the high
// occupancy variant: 512 threads perform the same per-row reduction as the
// ordinary kernel while amortizing dispatch and input-cache overhead across
// four output rows.
kernel void si_q4_k_matvec_rows4x128(
    device const uchar* weights [[buffer(0)]],
    device const float* input [[buffer(1)]],
    device float* output [[buffer(2)]],
    constant uint& columns [[buffer(3)]],
    constant uint& rows [[buffer(4)]],
    uint3 threadgroup_id [[threadgroup_position_in_grid]],
    uint simd_lane [[thread_index_in_simdgroup]],
    uint simdgroup_id [[simdgroup_index_in_threadgroup]]) {
    uint local_row = simdgroup_id / 4u;
    uint row = threadgroup_id.x * 4u + local_row;
    uint local_simd = simdgroup_id & 3u;
    float sum = 0.0f;
    if (row < rows) {
        uint blocks_per_row = columns / 256u;
        for (uint column = local_simd * 32u + simd_lane;
             column < columns;
             column += 128u) {
            uint local = column & 255u;
            uint group = local / 64u;
            uint within_group = local & 63u;
            uint quant_byte = within_group & 31u;
            uint block = column / 256u;
            uint block_base = (row * blocks_per_row + block) * 144u;
            ushort d_bits = ushort(weights[block_base]) |
                (ushort(weights[block_base + 1u]) << 8u);
            ushort min_bits = ushort(weights[block_base + 2u]) |
                (ushort(weights[block_base + 3u]) << 8u);
            float d = float(as_type<half>(d_bits));
            float min = float(as_type<half>(min_bits));
            uint scale_index = group * 2u + (within_group >= 32u ? 1u : 0u);
            uint scale;
            uint minimum;
            if (scale_index < 4u) {
                scale = uint(weights[block_base + 4u + scale_index] & 0x3fu);
                minimum = uint(weights[block_base + 8u + scale_index] & 0x3fu);
            } else {
                uint packed_scale = block_base + 8u + scale_index;
                scale = uint(weights[packed_scale] & 0x0fu) |
                    (uint(weights[block_base + scale_index]) >> 6u << 4u);
                minimum = uint(weights[packed_scale] >> 4u) |
                    (uint(weights[block_base + 4u + scale_index]) >> 6u << 4u);
            }
            uchar packed = weights[block_base + 16u + group * 32u + quant_byte];
            uint quant = within_group >= 32u ? uint(packed >> 4u) : uint(packed & 0x0fu);
            float value = d * float(scale) * float(quant) - min * float(minimum);
            sum += value * input[column];
        }
    }
    float total = simd_sum(sum);
    threadgroup float partials[4][4];
    if (simd_lane == 0u) {
        partials[local_row][local_simd] = total;
    }
    threadgroup_barrier(mem_flags::mem_threadgroup);
    if (simd_lane == 0u && local_simd == 0u && row < rows) {
        output[row] = partials[local_row][0] + partials[local_row][1]
            + partials[local_row][2] + partials[local_row][3];
    }
}
"#;

pub const Q4_K_FUSED_GATE_UP: &'static str = r#"
// Exact Q4_K fused SwiGLU input projections. Both matrices are decoded in
// registers during one dispatch; only the activated product is written out.
kernel void si_q4_k_fused_gate_up(
    device const uchar* gate_weights [[buffer(0)]],
    device const uchar* up_weights [[buffer(1)]],
    device const float* input [[buffer(2)]],
    device float* output [[buffer(3)]],
    constant uint& columns [[buffer(4)]],
    constant uint& rows [[buffer(5)]],
    uint3 threadgroup_id [[threadgroup_position_in_grid]],
    uint3 thread_id [[thread_position_in_threadgroup]],
    uint3 threads_per_group [[threads_per_threadgroup]],
    uint simd_lane [[thread_index_in_simdgroup]],
    uint simdgroup_id [[simdgroup_index_in_threadgroup]]) {
    uint row = threadgroup_id.x;
    if (row >= rows) {
        return;
    }
    uint blocks_per_row = columns / 256u;
    float gate_sum = 0.0f;
    float up_sum = 0.0f;
    for (uint column = thread_id.x; column < columns; column += threads_per_group.x) {
        uint local = column & 255u;
        uint group = local / 64u;
        uint within_group = local & 63u;
        uint quant_byte = within_group & 31u;
        uint block = column / 256u;
        uint gate_base = (row * blocks_per_row + block) * 144u;
        uint up_base = gate_base;
        ushort gate_d_bits = ushort(gate_weights[gate_base]) |
            (ushort(gate_weights[gate_base + 1u]) << 8);
        ushort gate_min_bits = ushort(gate_weights[gate_base + 2u]) |
            (ushort(gate_weights[gate_base + 3u]) << 8);
        ushort up_d_bits = ushort(up_weights[up_base]) |
            (ushort(up_weights[up_base + 1u]) << 8);
        ushort up_min_bits = ushort(up_weights[up_base + 2u]) |
            (ushort(up_weights[up_base + 3u]) << 8);
        float gate_d = float(as_type<half>(gate_d_bits));
        float gate_min = float(as_type<half>(gate_min_bits));
        float up_d = float(as_type<half>(up_d_bits));
        float up_min = float(as_type<half>(up_min_bits));
        uint scale_index = group * 2u + (within_group >= 32u ? 1u : 0u);
        uint gate_scale;
        uint gate_minimum;
        uint up_scale;
        uint up_minimum;
        if (scale_index < 4u) {
            gate_scale = uint(gate_weights[gate_base + 4u + scale_index] & 0x3fu);
            gate_minimum = uint(gate_weights[gate_base + 8u + scale_index] & 0x3fu);
            up_scale = uint(up_weights[up_base + 4u + scale_index] & 0x3fu);
            up_minimum = uint(up_weights[up_base + 8u + scale_index] & 0x3fu);
        } else {
            uint gate_packed = gate_base + 8u + scale_index;
            uint up_packed = up_base + 8u + scale_index;
            gate_scale = uint(gate_weights[gate_packed] & 0x0fu) |
                (uint(gate_weights[gate_base + scale_index]) >> 6u << 4u);
            gate_minimum = uint(gate_weights[gate_packed] >> 4u) |
                (uint(gate_weights[gate_base + 4u + scale_index]) >> 6u << 4u);
            up_scale = uint(up_weights[up_packed] & 0x0fu) |
                (uint(up_weights[up_base + scale_index]) >> 6u << 4u);
            up_minimum = uint(up_weights[up_packed] >> 4u) |
                (uint(up_weights[up_base + 4u + scale_index]) >> 6u << 4u);
        }
        uchar gate_packed = gate_weights[gate_base + 16u + group * 32u + quant_byte];
        uchar up_packed = up_weights[up_base + 16u + group * 32u + quant_byte];
        uint gate_quant = within_group >= 32u ? uint(gate_packed >> 4u) : uint(gate_packed & 0x0fu);
        uint up_quant = within_group >= 32u ? uint(up_packed >> 4u) : uint(up_packed & 0x0fu);
        float gate_value = gate_d * float(gate_scale) * float(gate_quant) - gate_min * float(gate_minimum);
        float up_value = up_d * float(up_scale) * float(up_quant) - up_min * float(up_minimum);
        gate_sum += gate_value * input[column];
        up_sum += up_value * input[column];
    }
    float gate_simd_total = simd_sum(gate_sum);
    float up_simd_total = simd_sum(up_sum);
    threadgroup float gate_partials[32];
    threadgroup float up_partials[32];
    if (simd_lane == 0) {
        gate_partials[simdgroup_id] = gate_simd_total;
        up_partials[simdgroup_id] = up_simd_total;
    }
    threadgroup_barrier(mem_flags::mem_threadgroup);
    if (thread_id.x == 0) {
        float gate_total = 0.0f;
        float up_total = 0.0f;
        uint simdgroups = (threads_per_group.x + 31u) / 32u;
        for (uint index = 0; index < simdgroups; ++index) {
            gate_total += gate_partials[index];
            up_total += up_partials[index];
        }
        output[row] = gate_total / (1.0f + exp(-gate_total)) * up_total;
    }
}
"#;

pub const Q4_K_EMBEDDING_ROW: &'static str = r#"
kernel void si_q4_k_embedding_row(
    device const uchar* weights [[buffer(0)]],
    device float* output [[buffer(1)]],
    constant uint& length [[buffer(2)]],
    uint3 thread_id [[thread_position_in_grid]]) {
    uint column = thread_id.x;
    if (column >= length) {
        return;
    }
    uint local = column & 255u;
    uint group = local / 64u;
    uint within_group = local & 63u;
    uint quant_byte = within_group & 31u;
    uint block_base = (column / 256u) * 144u;
    ushort d_bits = ushort(weights[block_base]) |
        (ushort(weights[block_base + 1u]) << 8);
    ushort min_bits = ushort(weights[block_base + 2u]) |
        (ushort(weights[block_base + 3u]) << 8);
    float d = float(as_type<half>(d_bits));
    float min = float(as_type<half>(min_bits));
    uint scale_index = group * 2u + (within_group >= 32u ? 1u : 0u);
    uint scale;
    uint minimum;
    if (scale_index < 4u) {
        scale = uint(weights[block_base + 4u + scale_index] & 0x3fu);
        minimum = uint(weights[block_base + 8u + scale_index] & 0x3fu);
    } else {
        uint packed_scale = block_base + 8u + scale_index;
        scale = uint(weights[packed_scale] & 0x0fu) |
            (uint(weights[block_base + scale_index]) >> 6u << 4u);
        minimum = uint(weights[packed_scale] >> 4u) |
            (uint(weights[block_base + 4u + scale_index]) >> 6u << 4u);
    }
    uchar packed = weights[block_base + 16u + group * 32u + quant_byte];
    uint quant = within_group >= 32u ? uint(packed >> 4u) : uint(packed & 0x0fu);
    output[column] = d * float(scale) * float(quant) - min * float(minimum);
}
"#;

pub const GATED_DELTA_STEP: &'static str = r#"
// Correctness-first recurrent Gated DeltaNet update. One thread owns one
// head, so state updates are disjoint; the state layout is
// [head][key_dim][value_dim].
kernel void si_gated_delta_step(
    device const float* query [[buffer(0)]],
    device const float* key [[buffer(1)]],
    device const float* value [[buffer(2)]],
    device const float* gate [[buffer(3)]],
    device const float* beta [[buffer(4)]],
    device float* state [[buffer(5)]],
    device float* output [[buffer(6)]],
    constant uint& heads [[buffer(7)]],
    constant uint& key_dim [[buffer(8)]],
    constant uint& value_dim [[buffer(9)]],
    uint3 thread_id [[thread_position_in_grid]]) {
    uint head = thread_id.x;
    if (head >= heads || value_dim > 256u) {
        return;
    }
    float memory[256];
    float delta[256];
    uint key_base = head * key_dim;
    uint value_base = head * value_dim;
    uint state_base = head * key_dim * value_dim;
    float decay = exp(gate[head]);
    for (uint key_index = 0u; key_index < key_dim; ++key_index) {
        uint row_base = state_base + key_index * value_dim;
        for (uint value_index = 0u; value_index < value_dim; ++value_index) {
            state[row_base + value_index] *= decay;
        }
    }
    for (uint value_index = 0u; value_index < value_dim; ++value_index) {
        memory[value_index] = 0.0f;
    }
    for (uint key_index = 0u; key_index < key_dim; ++key_index) {
        uint row_base = state_base + key_index * value_dim;
        float key_value = key[key_base + key_index];
        for (uint value_index = 0u; value_index < value_dim; ++value_index) {
            memory[value_index] += state[row_base + value_index] * key_value;
        }
    }
    for (uint value_index = 0u; value_index < value_dim; ++value_index) {
        delta[value_index] = (value[value_base + value_index] - memory[value_index]) * beta[head];
    }
    for (uint key_index = 0u; key_index < key_dim; ++key_index) {
        uint row_base = state_base + key_index * value_dim;
        float key_value = key[key_base + key_index];
        for (uint value_index = 0u; value_index < value_dim; ++value_index) {
            state[row_base + value_index] += key_value * delta[value_index];
        }
    }
    for (uint value_index = 0u; value_index < value_dim; ++value_index) {
        float result = 0.0f;
        for (uint key_index = 0u; key_index < key_dim; ++key_index) {
            result += state[state_base + key_index * value_dim + value_index]
                * query[key_base + key_index];
        }
        output[value_base + value_index] = result;
    }
}
"#;

pub const GATED_DELTA_STEP_PARALLEL: &'static str = r#"
// Parallel Gated DeltaNet update. One thread owns one [head][value] column;
// it performs the same decay, memory read, delta update, and output dot
// product as si_gated_delta_step, but exposes value_dim-way parallelism per
// head instead of serializing the whole recurrent matrix on one thread.
kernel void si_gated_delta_step_parallel(
    device const float* query [[buffer(0)]],
    device const float* key [[buffer(1)]],
    device const float* value [[buffer(2)]],
    device const float* gate [[buffer(3)]],
    device const float* beta [[buffer(4)]],
    device float* state [[buffer(5)]],
    device float* output [[buffer(6)]],
    constant uint& heads [[buffer(7)]],
    constant uint& key_dim [[buffer(8)]],
    constant uint& value_dim [[buffer(9)]],
    uint3 threadgroup_id [[threadgroup_position_in_grid]],
    uint3 thread_id [[thread_position_in_threadgroup]]) {
    uint head = threadgroup_id.x;
    uint value_index = thread_id.x;
    if (head >= heads || value_index >= value_dim) {
        return;
    }
    threadgroup float key_query_dot;
    if (value_index == 0u) {
        float dot = 0.0f;
        uint key_base = head * key_dim;
        for (uint key_index = 0u; key_index < key_dim; ++key_index) {
            dot += key[key_base + key_index] * query[key_base + key_index];
        }
        key_query_dot = dot;
    }
    threadgroup_barrier(mem_flags::mem_threadgroup);

    uint key_base = head * key_dim;
    uint value_base = head * value_dim;
    uint state_base = head * key_dim * value_dim + value_index;
    float decay = exp(gate[head]);
    float memory = 0.0f;
    float query_sum = 0.0f;
    for (uint key_index = 0u; key_index < key_dim; ++key_index) {
        uint index = state_base + key_index * value_dim;
        float old_value = state[index] * decay;
        state[index] = old_value;
        memory += old_value * key[key_base + key_index];
        query_sum += old_value * query[key_base + key_index];
    }
    float delta = (value[value_base + value_index] - memory) * beta[head];
    for (uint key_index = 0u; key_index < key_dim; ++key_index) {
        uint index = state_base + key_index * value_dim;
        state[index] += key[key_base + key_index] * delta;
    }
    output[value_base + value_index] = query_sum + delta * key_query_dot;
}
"#;

pub const CAUSAL_CONV1D_STEP: &'static str = r#"
// Exact single-token depthwise causal convolution update used by Qwen3.5/3.6
// Gated DeltaNet. State is [channel][kernel_size - 1] in chronological order;
// weights are [channel][kernel_size].
kernel void si_causal_conv1d_step(
    device const float* input [[buffer(0)]],
    device const float* weights [[buffer(1)]],
    device float* state [[buffer(2)]],
    device float* output [[buffer(3)]],
    constant uint& channels [[buffer(4)]],
    constant uint& kernel_size [[buffer(5)]],
    uint3 thread_id [[thread_position_in_grid]]) {
    uint channel = thread_id.x;
    if (channel >= channels || kernel_size < 2u) {
        return;
    }
    uint state_base = channel * (kernel_size - 1u);
    uint weight_base = channel * kernel_size;
    float value = input[channel] * weights[weight_base + kernel_size - 1u];
    for (uint tap = 0u; tap + 1u < kernel_size; ++tap) {
        value += state[state_base + tap] * weights[weight_base + tap];
    }
    output[channel] = value / (1.0f + exp(-value));
    for (uint tap = 0u; tap + 1u < kernel_size - 1u; ++tap) {
        state[state_base + tap] = state[state_base + tap + 1u];
    }
    state[state_base + kernel_size - 2u] = input[channel];
}
"#;

pub const Q5_K_MATVEC: &'static str = r#"
kernel void si_q5_k_matvec(
    device const uchar* weights [[buffer(0)]],
    device const float* input [[buffer(1)]],
    device float* output [[buffer(2)]],
    constant uint& columns [[buffer(3)]],
    constant uint& rows [[buffer(4)]],
    uint3 threadgroup_id [[threadgroup_position_in_grid]],
    uint3 thread_id [[thread_position_in_threadgroup]],
    uint3 threads_per_group [[threads_per_threadgroup]],
    uint simd_lane [[thread_index_in_simdgroup]],
    uint simdgroup_id [[simdgroup_index_in_threadgroup]]) {
    uint row = threadgroup_id.x;
    if (row >= rows) {
        return;
    }
    uint blocks_per_row = columns / 256u;
    float sum = 0.0f;
    for (uint column = thread_id.x; column < columns; column += threads_per_group.x) {
        uint local = column & 255u;
        uint group = local / 64u;
        uint within_group = local & 63u;
        uint quant_byte = within_group & 31u;
        uint block = column / 256u;
        uint block_base = (row * blocks_per_row + block) * 176u;
        ushort d_bits = ushort(weights[block_base]) |
            (ushort(weights[block_base + 1u]) << 8);
        ushort min_bits = ushort(weights[block_base + 2u]) |
            (ushort(weights[block_base + 3u]) << 8);
        float d = float(as_type<half>(d_bits));
        float min = float(as_type<half>(min_bits));
        uint scale_index = group * 2u + (within_group >= 32u ? 1u : 0u);
        uint scale;
        uint minimum;
        if (scale_index < 4u) {
            scale = uint(weights[block_base + 4u + scale_index] & 0x3fu);
            minimum = uint(weights[block_base + 8u + scale_index] & 0x3fu);
        } else {
            uint packed_scale = block_base + 8u + scale_index;
            scale = uint(weights[packed_scale] & 0x0fu) |
                (uint(weights[block_base + scale_index]) >> 6u << 4u);
            minimum = uint(weights[packed_scale] >> 4u) |
                (uint(weights[block_base + 4u + scale_index]) >> 6u << 4u);
        }
        uchar packed = weights[block_base + 48u + group * 32u + quant_byte];
        uint high_mask = within_group >= 32u ? (2u << (group * 2u)) : (1u << (group * 2u));
        uint quant = within_group >= 32u ? uint(packed >> 4u) : uint(packed & 0x0fu);
        if ((uint(weights[block_base + 16u + quant_byte]) & high_mask) != 0u) {
            quant += 16u;
        }
        float value = d * float(scale) * float(quant) - min * float(minimum);
        sum += value * input[column];
    }
    float simd_total = simd_sum(sum);
    threadgroup float partials[32];
    if (simd_lane == 0) {
        partials[simdgroup_id] = simd_total;
    }
    threadgroup_barrier(mem_flags::mem_threadgroup);
    if (thread_id.x == 0) {
        float total = 0.0f;
        uint simdgroups = (threads_per_group.x + 31u) / 32u;
        for (uint index = 0; index < simdgroups; ++index) {
            total += partials[index];
        }
        output[row] = total;
    }
}
"#;

pub const Q5_K_MATVEC_ROWS4: &'static str = r#"
// Q5_K row-blocked variant; one SIMD group computes one output row.
kernel void si_q5_k_matvec_rows4(
    device const uchar* weights [[buffer(0)]],
    device const float* input [[buffer(1)]],
    device float* output [[buffer(2)]],
    constant uint& columns [[buffer(3)]],
    constant uint& rows [[buffer(4)]],
    uint3 threadgroup_id [[threadgroup_position_in_grid]],
    uint simd_lane [[thread_index_in_simdgroup]],
    uint simdgroup_id [[simdgroup_index_in_threadgroup]]) {
    uint row = threadgroup_id.x * 4u + simdgroup_id;
    if (row >= rows) {
        return;
    }
    uint blocks_per_row = columns / 256u;
    float sum = 0.0f;
    for (uint column = simd_lane; column < columns; column += 32u) {
        uint local = column & 255u;
        uint group = local / 64u;
        uint within_group = local & 63u;
        uint quant_byte = within_group & 31u;
        uint block = column / 256u;
        uint block_base = (row * blocks_per_row + block) * 176u;
        ushort d_bits = ushort(weights[block_base]) |
            (ushort(weights[block_base + 1u]) << 8);
        ushort min_bits = ushort(weights[block_base + 2u]) |
            (ushort(weights[block_base + 3u]) << 8);
        float d = float(as_type<half>(d_bits));
        float min = float(as_type<half>(min_bits));
        uint scale_index = group * 2u + (within_group >= 32u ? 1u : 0u);
        uint scale;
        uint minimum;
        if (scale_index < 4u) {
            scale = uint(weights[block_base + 4u + scale_index] & 0x3fu);
            minimum = uint(weights[block_base + 8u + scale_index] & 0x3fu);
        } else {
            uint packed_scale = block_base + 8u + scale_index;
            scale = uint(weights[packed_scale] & 0x0fu) |
                (uint(weights[block_base + scale_index]) >> 6u << 4u);
            minimum = uint(weights[packed_scale] >> 4u) |
                (uint(weights[block_base + 4u + scale_index]) >> 6u << 4u);
        }
        uchar packed = weights[block_base + 48u + group * 32u + quant_byte];
        uint high_mask = within_group >= 32u ? (2u << (group * 2u)) : (1u << (group * 2u));
        uint quant = within_group >= 32u ? uint(packed >> 4u) : uint(packed & 0x0fu);
        if ((uint(weights[block_base + 16u + quant_byte]) & high_mask) != 0u) {
            quant += 16u;
        }
        float value = d * float(scale) * float(quant) - min * float(minimum);
        sum += value * input[column];
    }
    float total = simd_sum(sum);
    if (simd_lane == 0u) {
        output[row] = total;
    }
}
"#;

pub const Q6_K_MATVEC: &'static str = r#"
kernel void si_q6_k_matvec(
    device const uchar* weights [[buffer(0)]],
    device const float* input [[buffer(1)]],
    device float* output [[buffer(2)]],
    constant uint& columns [[buffer(3)]],
    constant uint& rows [[buffer(4)]],
    uint3 threadgroup_id [[threadgroup_position_in_grid]],
    uint3 thread_id [[thread_position_in_threadgroup]],
    uint3 threads_per_group [[threads_per_threadgroup]],
    uint simd_lane [[thread_index_in_simdgroup]],
    uint simdgroup_id [[simdgroup_index_in_threadgroup]]) {
    uint row = threadgroup_id.x;
    if (row >= rows) {
        return;
    }
    uint blocks_per_row = columns / 256u;
    float sum = 0.0f;
    for (uint column = thread_id.x; column < columns; column += threads_per_group.x) {
        uint local = column & 255u;
        uint block_half = local / 128u;
        uint within_half = local & 127u;
        uint quartet = within_half / 32u;
        uint index = within_half & 31u;
        uint block = column / 256u;
        uint block_base = (row * blocks_per_row + block) * 210u;
        uint ql_base = block_base + block_half * 64u;
        uint qh_base = block_base + 128u + block_half * 32u;
        uchar packed = weights[ql_base + (quartet & 1u) * 32u + index];
        uint nibble = quartet >= 2u ? uint(packed >> 4u) : uint(packed & 0x0fu);
        uint high_bits = (uint(weights[qh_base + index]) >> (quartet * 2u)) & 0x03u;
        int quant = int(nibble | (high_bits << 4u)) - 32;
        uint scale_index = (index / 16u) + quartet * 2u;
        int scale = int(weights[block_base + 192u + block_half * 8u + scale_index]);
        if (scale > 127) {
            scale -= 256;
        }
        ushort d_bits = ushort(weights[block_base + 208u]) |
            (ushort(weights[block_base + 209u]) << 8);
        float d = float(as_type<half>(d_bits));
        sum += d * float(scale) * float(quant) * input[column];
    }
    float simd_total = simd_sum(sum);
    threadgroup float partials[32];
    if (simd_lane == 0) {
        partials[simdgroup_id] = simd_total;
    }
    threadgroup_barrier(mem_flags::mem_threadgroup);
    if (thread_id.x == 0) {
        float total = 0.0f;
        uint simdgroups = (threads_per_group.x + 31u) / 32u;
        for (uint index = 0; index < simdgroups; ++index) {
            total += partials[index];
        }
        output[row] = total;
    }
}
"#;

pub const Q6_K_MATVEC_ROWS4: &'static str = r#"
// Q6_K row-blocked variant. Four SIMD groups share one threadgroup; each
// group performs one row reduction, avoiding a threadgroup partial array and
// barrier while keeping the quantized bytes and FP32 math unchanged.
kernel void si_q6_k_matvec_rows4(
    device const uchar* weights [[buffer(0)]],
    device const float* input [[buffer(1)]],
    device float* output [[buffer(2)]],
    constant uint& columns [[buffer(3)]],
    constant uint& rows [[buffer(4)]],
    uint3 threadgroup_id [[threadgroup_position_in_grid]],
    uint simd_lane [[thread_index_in_simdgroup]],
    uint simdgroup_id [[simdgroup_index_in_threadgroup]]) {
    uint row = threadgroup_id.x * 4u + simdgroup_id;
    if (row >= rows) {
        return;
    }
    uint blocks_per_row = columns / 256u;
    float sum = 0.0f;
    for (uint column = simd_lane; column < columns; column += 32u) {
        uint local = column & 255u;
        uint block_half = local / 128u;
        uint within_half = local & 127u;
        uint quartet = within_half / 32u;
        uint index = within_half & 31u;
        uint block = column / 256u;
        uint block_base = (row * blocks_per_row + block) * 210u;
        uint ql_base = block_base + block_half * 64u;
        uint qh_base = block_base + 128u + block_half * 32u;
        uchar packed = weights[ql_base + (quartet & 1u) * 32u + index];
        uint nibble = quartet >= 2u ? uint(packed >> 4u) : uint(packed & 0x0fu);
        uint high_bits = (uint(weights[qh_base + index]) >> (quartet * 2u)) & 0x03u;
        int quant = int(nibble | (high_bits << 4u)) - 32;
        uint scale_index = (index / 16u) + quartet * 2u;
        int scale = int(weights[block_base + 192u + block_half * 8u + scale_index]);
        if (scale > 127) {
            scale -= 256;
        }
        ushort d_bits = ushort(weights[block_base + 208u]) |
            (ushort(weights[block_base + 209u]) << 8);
        float d = float(as_type<half>(d_bits));
        sum += d * float(scale) * float(quant) * input[column];
    }
    float total = simd_sum(sum);
    if (simd_lane == 0u) {
        output[row] = total;
    }
}
"#;

pub const Q6_K_MATVEC_ROWS4X128: &'static str = r#"
kernel void si_q6_k_matvec_rows4x128(
    device const uchar* weights [[buffer(0)]],
    device const float* input [[buffer(1)]],
    device float* output [[buffer(2)]],
    constant uint& columns [[buffer(3)]],
    constant uint& rows [[buffer(4)]],
    uint3 threadgroup_id [[threadgroup_position_in_grid]],
    uint simd_lane [[thread_index_in_simdgroup]],
    uint simdgroup_id [[simdgroup_index_in_threadgroup]]) {
    uint local_row = simdgroup_id / 4u;
    uint row = threadgroup_id.x * 4u + local_row;
    uint local_simd = simdgroup_id & 3u;
    float sum = 0.0f;
    if (row < rows) {
        uint blocks_per_row = columns / 256u;
        for (uint column = local_simd * 32u + simd_lane;
             column < columns;
             column += 128u) {
            uint local = column & 255u;
            uint block_half = local / 128u;
            uint within_half = local & 127u;
            uint quartet = within_half / 32u;
            uint index = within_half & 31u;
            uint block = column / 256u;
            uint block_base = (row * blocks_per_row + block) * 210u;
            uint ql_base = block_base + block_half * 64u;
            uint qh_base = block_base + 128u + block_half * 32u;
            uchar packed = weights[ql_base + (quartet & 1u) * 32u + index];
            uint nibble = quartet >= 2u ? uint(packed >> 4u) : uint(packed & 0x0fu);
            uint high_bits = (uint(weights[qh_base + index]) >> (quartet * 2u)) & 0x03u;
            int quant = int(nibble | (high_bits << 4u)) - 32;
            uint scale_index = (index / 16u) + quartet * 2u;
            int scale = int(weights[block_base + 192u + block_half * 8u + scale_index]);
            if (scale > 127) scale -= 256;
            ushort d_bits = ushort(weights[block_base + 208u]) |
                (ushort(weights[block_base + 209u]) << 8u);
            float d = float(as_type<half>(d_bits));
            sum += d * float(scale) * float(quant) * input[column];
        }
    }
    float total = simd_sum(sum);
    threadgroup float partials[4][4];
    if (simd_lane == 0u) {
        partials[local_row][local_simd] = total;
    }
    threadgroup_barrier(mem_flags::mem_threadgroup);
    if (simd_lane == 0u && local_simd == 0u && row < rows) {
        output[row] = partials[local_row][0] + partials[local_row][1]
            + partials[local_row][2] + partials[local_row][3];
    }
}
"#;

pub const Q4_K_VALUE: &'static str = r#"
// Batched quantized matvecs used by the GGUF verifier.  One threadgroup still
// owns one output row, but each decoded weight value is reused across up to
// eight candidate input vectors before the next quant block is fetched.
inline float si_q4_k_value(device const uchar* weights, uint block_base, uint local) {
    uint group = local / 64u;
    uint within_group = local & 63u;
    uint quant_byte = within_group & 31u;
    ushort d_bits = ushort(weights[block_base]) |
        (ushort(weights[block_base + 1u]) << 8);
    ushort min_bits = ushort(weights[block_base + 2u]) |
        (ushort(weights[block_base + 3u]) << 8);
    float d = float(as_type<half>(d_bits));
    float min = float(as_type<half>(min_bits));
    uint scale_index = group * 2u + (within_group >= 32u ? 1u : 0u);
    uint scale;
    uint minimum;
    if (scale_index < 4u) {
        scale = uint(weights[block_base + 4u + scale_index] & 0x3fu);
        minimum = uint(weights[block_base + 8u + scale_index] & 0x3fu);
    } else {
        uint packed_scale = block_base + 8u + scale_index;
        scale = uint(weights[packed_scale] & 0x0fu) |
            (uint(weights[block_base + scale_index]) >> 6u << 4u);
        minimum = uint(weights[packed_scale] >> 4u) |
            (uint(weights[block_base + 4u + scale_index]) >> 6u << 4u);
    }
    uchar packed = weights[block_base + 16u + group * 32u + quant_byte];
    uint quant = within_group >= 32u ? uint(packed >> 4u) : uint(packed & 0x0fu);
    return d * float(scale) * float(quant) - min * float(minimum);
}
"#;

pub const Q4_K_MATMUL_MANY: &'static str = r#"
kernel void si_q4_k_matmul_many(
    device const uchar* weights [[buffer(0)]],
    device const float* inputs [[buffer(1)]],
    device float* outputs [[buffer(2)]],
    constant uint& columns [[buffer(3)]],
    constant uint& rows [[buffer(4)]],
    constant uint& batch [[buffer(5)]],
    uint3 threadgroup_id [[threadgroup_position_in_grid]],
    uint3 thread_id [[thread_position_in_threadgroup]],
    uint3 threads_per_group [[threads_per_threadgroup]],
    uint simd_lane [[thread_index_in_simdgroup]],
    uint simdgroup_id [[simdgroup_index_in_threadgroup]]) {
    uint row = threadgroup_id.x;
    if (row >= rows || batch == 0u || batch > 8u) {
        return;
    }
    float sums[8];
    for (uint candidate = 0u; candidate < 8u; ++candidate) {
        sums[candidate] = 0.0f;
    }
    uint blocks_per_row = columns / 256u;
    for (uint column = thread_id.x; column < columns; column += threads_per_group.x) {
        uint block = column / 256u;
        float value = si_q4_k_value(weights, (row * blocks_per_row + block) * 144u, column & 255u);
        for (uint candidate = 0u; candidate < batch; ++candidate) {
            sums[candidate] += value * inputs[candidate * columns + column];
        }
    }
    threadgroup float partials[8][32];
    for (uint candidate = 0u; candidate < batch; ++candidate) {
        float total = simd_sum(sums[candidate]);
        if (simd_lane == 0u) {
            partials[candidate][simdgroup_id] = total;
        }
    }
    threadgroup_barrier(mem_flags::mem_threadgroup);
    if (thread_id.x == 0u) {
        uint simdgroups = (threads_per_group.x + 31u) / 32u;
        for (uint candidate = 0u; candidate < batch; ++candidate) {
            float total = 0.0f;
            for (uint index = 0u; index < simdgroups; ++index) {
                total += partials[candidate][index];
            }
            outputs[candidate * rows + row] = total;
        }
    }
}
"#;

pub const Q5_K_VALUE: &'static str = r#"
inline float si_q5_k_value(device const uchar* weights, uint block_base, uint local) {
    uint group = local / 64u;
    uint within_group = local & 63u;
    uint quant_byte = within_group & 31u;
    ushort d_bits = ushort(weights[block_base]) |
        (ushort(weights[block_base + 1u]) << 8);
    ushort min_bits = ushort(weights[block_base + 2u]) |
        (ushort(weights[block_base + 3u]) << 8);
    float d = float(as_type<half>(d_bits));
    float min = float(as_type<half>(min_bits));
    uint scale_index = group * 2u + (within_group >= 32u ? 1u : 0u);
    uint scale;
    uint minimum;
    if (scale_index < 4u) {
        scale = uint(weights[block_base + 4u + scale_index] & 0x3fu);
        minimum = uint(weights[block_base + 8u + scale_index] & 0x3fu);
    } else {
        uint packed_scale = block_base + 8u + scale_index;
        scale = uint(weights[packed_scale] & 0x0fu) |
            (uint(weights[block_base + scale_index]) >> 6u << 4u);
        minimum = uint(weights[packed_scale] >> 4u) |
            (uint(weights[block_base + 4u + scale_index]) >> 6u << 4u);
    }
    uchar packed = weights[block_base + 48u + group * 32u + quant_byte];
    uint high_mask = within_group >= 32u ? (2u << (group * 2u)) : (1u << (group * 2u));
    uint quant = within_group >= 32u ? uint(packed >> 4u) : uint(packed & 0x0fu);
    if ((uint(weights[block_base + 16u + quant_byte]) & high_mask) != 0u) {
        quant += 16u;
    }
    return d * float(scale) * float(quant) - min * float(minimum);
}
"#;

pub const Q5_K_MATMUL_MANY: &'static str = r#"
kernel void si_q5_k_matmul_many(
    device const uchar* weights [[buffer(0)]],
    device const float* inputs [[buffer(1)]],
    device float* outputs [[buffer(2)]],
    constant uint& columns [[buffer(3)]],
    constant uint& rows [[buffer(4)]],
    constant uint& batch [[buffer(5)]],
    uint3 threadgroup_id [[threadgroup_position_in_grid]],
    uint3 thread_id [[thread_position_in_threadgroup]],
    uint3 threads_per_group [[threads_per_threadgroup]],
    uint simd_lane [[thread_index_in_simdgroup]],
    uint simdgroup_id [[simdgroup_index_in_threadgroup]]) {
    uint row = threadgroup_id.x;
    if (row >= rows || batch == 0u || batch > 8u) {
        return;
    }
    float sums[8];
    for (uint candidate = 0u; candidate < 8u; ++candidate) sums[candidate] = 0.0f;
    uint blocks_per_row = columns / 256u;
    for (uint column = thread_id.x; column < columns; column += threads_per_group.x) {
        float value = si_q5_k_value(weights, (row * blocks_per_row + column / 256u) * 176u, column & 255u);
        for (uint candidate = 0u; candidate < batch; ++candidate) {
            sums[candidate] += value * inputs[candidate * columns + column];
        }
    }
    threadgroup float partials[8][32];
    for (uint candidate = 0u; candidate < batch; ++candidate) {
        float total = simd_sum(sums[candidate]);
        if (simd_lane == 0u) partials[candidate][simdgroup_id] = total;
    }
    threadgroup_barrier(mem_flags::mem_threadgroup);
    if (thread_id.x == 0u) {
        uint simdgroups = (threads_per_group.x + 31u) / 32u;
        for (uint candidate = 0u; candidate < batch; ++candidate) {
            float total = 0.0f;
            for (uint index = 0u; index < simdgroups; ++index) total += partials[candidate][index];
            outputs[candidate * rows + row] = total;
        }
    }
}
"#;

pub const Q6_K_VALUE: &'static str = r#"
inline float si_q6_k_value(device const uchar* weights, uint block_base, uint local) {
    uint block_half = local / 128u;
    uint within_half = local & 127u;
    uint quartet = within_half / 32u;
    uint index = within_half & 31u;
    uint ql_base = block_base + block_half * 64u;
    uint qh_base = block_base + 128u + block_half * 32u;
    uchar packed = weights[ql_base + (quartet & 1u) * 32u + index];
    uint nibble = quartet >= 2u ? uint(packed >> 4u) : uint(packed & 0x0fu);
    uint high_bits = (uint(weights[qh_base + index]) >> (quartet * 2u)) & 0x03u;
    int quant = int(nibble | (high_bits << 4u)) - 32;
    uint scale_index = (index / 16u) + quartet * 2u;
    int scale = int(weights[block_base + 192u + block_half * 8u + scale_index]);
    if (scale > 127) scale -= 256;
    ushort d_bits = ushort(weights[block_base + 208u]) |
        (ushort(weights[block_base + 209u]) << 8);
    return float(as_type<half>(d_bits)) * float(scale) * float(quant);
}
"#;

pub const Q6_K_MATMUL_MANY: &'static str = r#"
kernel void si_q6_k_matmul_many(
    device const uchar* weights [[buffer(0)]],
    device const float* inputs [[buffer(1)]],
    device float* outputs [[buffer(2)]],
    constant uint& columns [[buffer(3)]],
    constant uint& rows [[buffer(4)]],
    constant uint& batch [[buffer(5)]],
    uint3 threadgroup_id [[threadgroup_position_in_grid]],
    uint3 thread_id [[thread_position_in_threadgroup]],
    uint3 threads_per_group [[threads_per_threadgroup]],
    uint simd_lane [[thread_index_in_simdgroup]],
    uint simdgroup_id [[simdgroup_index_in_threadgroup]]) {
    uint row = threadgroup_id.x;
    if (row >= rows || batch == 0u || batch > 8u) {
        return;
    }
    float sums[8];
    for (uint candidate = 0u; candidate < 8u; ++candidate) sums[candidate] = 0.0f;
    uint blocks_per_row = columns / 256u;
    for (uint column = thread_id.x; column < columns; column += threads_per_group.x) {
        float value = si_q6_k_value(weights, (row * blocks_per_row + column / 256u) * 210u, column & 255u);
        for (uint candidate = 0u; candidate < batch; ++candidate) {
            sums[candidate] += value * inputs[candidate * columns + column];
        }
    }
    threadgroup float partials[8][32];
    for (uint candidate = 0u; candidate < batch; ++candidate) {
        float total = simd_sum(sums[candidate]);
        if (simd_lane == 0u) partials[candidate][simdgroup_id] = total;
    }
    threadgroup_barrier(mem_flags::mem_threadgroup);
    if (thread_id.x == 0u) {
        uint simdgroups = (threads_per_group.x + 31u) / 32u;
        for (uint candidate = 0u; candidate < batch; ++candidate) {
            float total = 0.0f;
            for (uint index = 0u; index < simdgroups; ++index) total += partials[candidate][index];
            outputs[candidate * rows + row] = total;
        }
    }
}
"#;

pub const BF16_BITPACK_MATVEC: &'static str = r#"
// Exact row-aligned invariant-bit-packed BF16 matvec. Each tile stores a
// four-byte header (invariant mask and constants) followed by LSB-first
// variable-bit payloads. Values are reconstructed in registers immediately
// before multiplication, so no decompressed BF16 weight buffer is allocated.
kernel void si_bf16_bitpack_matvec(
    device const uchar* packed [[buffer(0)]],
    device const uint* offsets [[buffer(1)]],
    device const float* input [[buffer(2)]],
    device float* output [[buffer(3)]],
    constant uint& rows [[buffer(4)]],
    constant uint& columns [[buffer(5)]],
    constant uint& tile_rows [[buffer(6)]],
    uint3 threadgroup_id [[threadgroup_position_in_grid]],
    uint3 thread_id [[thread_position_in_threadgroup]],
    uint3 threads_per_group [[threads_per_threadgroup]],
    uint simd_lane [[thread_index_in_simdgroup]],
    uint simdgroup_id [[simdgroup_index_in_threadgroup]]) {
    uint row = threadgroup_id.x;
    if (row >= rows || tile_rows == 0u) {
        return;
    }
    uint tile = row / tile_rows;
    uint local_row = row - tile * tile_rows;
    uint tile_offset = offsets[tile];
    ushort invariant_mask = ushort(packed[tile_offset])
        | (ushort(packed[tile_offset + 1u]) << 8);
    ushort constants = ushort(packed[tile_offset + 2u])
        | (ushort(packed[tile_offset + 3u]) << 8);
    uint variable_bits = 16u - popcount(uint(invariant_mask));
    uint payload_offset = tile_offset + 4u;
    uint tile_end = offsets[tile + 1u];
    float sum = 0.0f;
    for (uint column = thread_id.x; column < columns; column += threads_per_group.x) {
        uint value_index = local_row * columns + column;
        uint cursor = value_index * variable_bits;
        uint byte_index = cursor >> 3u;
        uint payload_index = payload_offset + byte_index;
        uint packed_value = 0u;
        if (payload_index < tile_end) {
            packed_value = uint(packed[payload_index]);
        }
        if (payload_index + 1u < tile_end) {
            packed_value |= uint(packed[payload_index + 1u]) << 8u;
        }
        if (payload_index + 2u < tile_end) {
            packed_value |= uint(packed[payload_index + 2u]) << 16u;
        }
        uint variable_value = (packed_value >> (cursor & 7u))
            & ((1u << variable_bits) - 1u);
        ushort value = constants;
        uint variable_index = 0u;
        for (uint bit = 0u; bit < 16u; ++bit) {
            ushort mask = ushort(1u << bit);
            if ((invariant_mask & mask) != 0u) {
                continue;
            }
            if ((variable_value & (1u << variable_index)) != 0u) {
                value |= mask;
            }
            variable_index += 1u;
        }
        uint bits = uint(value) << 16;
        sum += as_type<float>(bits) * input[column];
    }
    float simd_total = simd_sum(sum);
    threadgroup float partials[32];
    if (simd_lane == 0u) {
        partials[simdgroup_id] = simd_total;
    }
    threadgroup_barrier(mem_flags::mem_threadgroup);
    if (thread_id.x == 0u) {
        float total = 0.0f;
        uint simdgroups = (threads_per_group.x + 31u) / 32u;
        for (uint index = 0u; index < simdgroups; ++index) {
            total += partials[index];
        }
        output[row] = total;
    }
}
"#;

pub const BF16_MATMUL_MANY: &'static str = r#"
// Exact batched matrix-vector primitive. Inputs are batch-major [K, columns]
// and outputs are batch-major [K, rows]. Each SIMD group owns one output row,
// so every BF16 weight is loaded once and reused across up to eight candidates.
kernel void si_bf16_matmul_many(
    device const ushort* weights [[buffer(0)]],
    device const float* inputs [[buffer(1)]],
    device float* output [[buffer(2)]],
    constant uint& columns [[buffer(3)]],
    constant uint& rows [[buffer(4)]],
    constant uint& batch [[buffer(5)]],
    uint3 threadgroup_id [[threadgroup_position_in_grid]],
    uint simd_lane [[thread_index_in_simdgroup]],
    uint simdgroup_id [[simdgroup_index_in_threadgroup]]) {
    uint row = threadgroup_id.x;
    if (row >= rows || simdgroup_id != 0u) {
        return;
    }
    float sums[8];
    for (uint candidate = 0; candidate < 8u; ++candidate) {
        sums[candidate] = 0.0f;
    }
    for (uint column = simd_lane; column < columns; column += 32u) {
        uint bits = uint(weights[row * columns + column]) << 16;
        float weight = as_type<float>(bits);
        for (uint candidate = 0; candidate < 8u; ++candidate) {
            if (candidate < batch) {
                sums[candidate] += weight * inputs[candidate * columns + column];
            }
        }
    }
    for (uint candidate = 0; candidate < 8u; ++candidate) {
        if (candidate < batch) {
            float total = simd_sum(sums[candidate]);
            if (simd_lane == 0) {
                output[candidate * rows + row] = total;
            }
        }
    }
}
"#;

pub const BF16_FUSED_QKV_MANY: &'static str = r#"
// Exact batched QKV projection. One SIMD group owns one output row across
// the concatenated Q/K/V matrices and reuses that row's BF16 weights for up to
// eight candidate hidden states.
kernel void si_bf16_fused_qkv_many(
    device const ushort* q_weights [[buffer(0)]],
    device const ushort* k_weights [[buffer(1)]],
    device const ushort* v_weights [[buffer(2)]],
    device const float* inputs [[buffer(3)]],
    device float* q_output [[buffer(4)]],
    device float* k_output [[buffer(5)]],
    device float* v_output [[buffer(6)]],
    constant uint& columns [[buffer(7)]],
    constant uint& q_rows [[buffer(8)]],
    constant uint& k_rows [[buffer(9)]],
    constant uint& v_rows [[buffer(10)]],
    constant uint& batch [[buffer(11)]],
    uint3 threadgroup_id [[threadgroup_position_in_grid]],
    uint simd_lane [[thread_index_in_simdgroup]]) {
    uint row = threadgroup_id.x;
    uint total_rows = q_rows + k_rows + v_rows;
    if (row >= total_rows) {
        return;
    }
    device const ushort* weights;
    device float* output;
    uint local_row;
    uint output_rows;
    if (row < q_rows) {
        weights = q_weights;
        output = q_output;
        local_row = row;
        output_rows = q_rows;
    } else if (row < q_rows + k_rows) {
        weights = k_weights;
        output = k_output;
        local_row = row - q_rows;
        output_rows = k_rows;
    } else {
        weights = v_weights;
        output = v_output;
        local_row = row - q_rows - k_rows;
        output_rows = v_rows;
    }
    float sums[8];
    for (uint candidate = 0; candidate < 8u; ++candidate) {
        sums[candidate] = 0.0f;
    }
    device const ushort* row_weights = weights + local_row * columns;
    for (uint column = simd_lane; column < columns; column += 32u) {
        uint bits = uint(row_weights[column]) << 16;
        float weight = as_type<float>(bits);
        for (uint candidate = 0; candidate < 8u; ++candidate) {
            if (candidate < batch) {
                sums[candidate] += weight * inputs[candidate * columns + column];
            }
        }
    }
    for (uint candidate = 0; candidate < 8u; ++candidate) {
        if (candidate < batch) {
            float total = simd_sum(sums[candidate]);
            if (simd_lane == 0) {
                output[candidate * output_rows + local_row] = total;
            }
        }
    }
}
"#;

pub const BF16_FUSED_GATE_UP_MANY: &'static str = r#"
// Exact batched gate/up projection. The layout matches qkv_many: inputs and
// each output are batch-major so the CPU elementwise path needs no transpose.
kernel void si_bf16_fused_gate_up_many(
    device const ushort* gate_weights [[buffer(0)]],
    device const ushort* up_weights [[buffer(1)]],
    device const float* inputs [[buffer(2)]],
    device float* gate_output [[buffer(3)]],
    device float* up_output [[buffer(4)]],
    constant uint& columns [[buffer(5)]],
    constant uint& gate_rows [[buffer(6)]],
    constant uint& up_rows [[buffer(7)]],
    constant uint& batch [[buffer(8)]],
    uint3 threadgroup_id [[threadgroup_position_in_grid]],
    uint simd_lane [[thread_index_in_simdgroup]]) {
    uint row = threadgroup_id.x;
    uint total_rows = gate_rows + up_rows;
    if (row >= total_rows) {
        return;
    }
    device const ushort* weights;
    device float* output;
    uint local_row;
    uint output_rows;
    if (row < gate_rows) {
        weights = gate_weights;
        output = gate_output;
        local_row = row;
        output_rows = gate_rows;
    } else {
        weights = up_weights;
        output = up_output;
        local_row = row - gate_rows;
        output_rows = up_rows;
    }
    float sums[8];
    for (uint candidate = 0; candidate < 8u; ++candidate) {
        sums[candidate] = 0.0f;
    }
    device const ushort* row_weights = weights + local_row * columns;
    for (uint column = simd_lane; column < columns; column += 32u) {
        uint bits = uint(row_weights[column]) << 16;
        float weight = as_type<float>(bits);
        for (uint candidate = 0; candidate < 8u; ++candidate) {
            if (candidate < batch) {
                sums[candidate] += weight * inputs[candidate * columns + column];
            }
        }
    }
    for (uint candidate = 0; candidate < 8u; ++candidate) {
        if (candidate < batch) {
            float total = simd_sum(sums[candidate]);
            if (simd_lane == 0) {
                output[candidate * output_rows + local_row] = total;
            }
        }
    }
}
"#;

pub const BF16_FUSED_QKV: &'static str = r#"
kernel void si_bf16_fused_qkv(
    device const ushort* q_weights [[buffer(0)]],
    device const ushort* k_weights [[buffer(1)]],
    device const ushort* v_weights [[buffer(2)]],
    device const float* input [[buffer(3)]],
    device float* q_output [[buffer(4)]],
    device float* k_output [[buffer(5)]],
    device float* v_output [[buffer(6)]],
    constant uint& columns [[buffer(7)]],
    constant uint& q_rows [[buffer(8)]],
    constant uint& k_rows [[buffer(9)]],
    constant uint& v_rows [[buffer(10)]],
    uint3 threadgroup_id [[threadgroup_position_in_grid]],
    uint3 thread_id [[thread_position_in_threadgroup]],
    uint3 threads_per_group [[threads_per_threadgroup]],
    uint simd_lane [[thread_index_in_simdgroup]],
    uint simdgroup_id [[simdgroup_index_in_threadgroup]]) {
    uint row = threadgroup_id.x;
    uint total_rows = q_rows + k_rows + v_rows;
    if (row >= total_rows) {
        return;
    }
    device const ushort* weights;
    device float* output;
    uint local_row;
    if (row < q_rows) {
        weights = q_weights;
        output = q_output;
        local_row = row;
    } else if (row < q_rows + k_rows) {
        weights = k_weights;
        output = k_output;
        local_row = row - q_rows;
    } else {
        weights = v_weights;
        output = v_output;
        local_row = row - q_rows - k_rows;
    }
    float sum = 0.0f;
    if ((columns & 3u) == 0u) {
        uint vector_columns = columns / 4u;
        device const ushort4* vector_weights = reinterpret_cast<device const ushort4*>(weights + local_row * columns);
        device const float4* vector_input = reinterpret_cast<device const float4*>(input);
        for (uint index = thread_id.x; index < vector_columns; index += threads_per_group.x) {
            uint4 bits = uint4(vector_weights[index]) << 16;
            sum += dot(as_type<float4>(bits), vector_input[index]);
        }
    } else {
        device const ushort* row_weights = weights + local_row * columns;
        for (uint column = thread_id.x; column < columns; column += threads_per_group.x) {
            uint bits = uint(row_weights[column]) << 16;
            sum += as_type<float>(bits) * input[column];
        }
    }
    float simd_total = simd_sum(sum);
    threadgroup float partials[32];
    if (simd_lane == 0) {
        partials[simdgroup_id] = simd_total;
    }
    threadgroup_barrier(mem_flags::mem_threadgroup);
    if (thread_id.x == 0) {
        float total = 0.0f;
        uint simdgroups = (threads_per_group.x + 31u) / 32u;
        for (uint index = 0; index < simdgroups; ++index) {
            total += partials[index];
        }
        output[local_row] = total;
    }
}
"#;

pub const BF16_FUSED_GATE_UP: &'static str = r#"
kernel void si_bf16_fused_gate_up(
    device const ushort* gate_weights [[buffer(0)]],
    device const ushort* up_weights [[buffer(1)]],
    device const float* input [[buffer(2)]],
    device float* gate_output [[buffer(3)]],
    device float* up_output [[buffer(4)]],
    constant uint& columns [[buffer(5)]],
    constant uint& gate_rows [[buffer(6)]],
    constant uint& up_rows [[buffer(7)]],
    uint3 threadgroup_id [[threadgroup_position_in_grid]],
    uint3 thread_id [[thread_position_in_threadgroup]],
    uint3 threads_per_group [[threads_per_threadgroup]],
    uint simd_lane [[thread_index_in_simdgroup]],
    uint simdgroup_id [[simdgroup_index_in_threadgroup]]) {
    uint row = threadgroup_id.x;
    uint total_rows = gate_rows + up_rows;
    if (row >= total_rows) {
        return;
    }
    device const ushort* weights;
    device float* output;
    uint local_row;
    if (row < gate_rows) {
        weights = gate_weights;
        output = gate_output;
        local_row = row;
    } else {
        weights = up_weights;
        output = up_output;
        local_row = row - gate_rows;
    }
    float sum = 0.0f;
    if ((columns & 3u) == 0u) {
        uint vector_columns = columns / 4u;
        device const ushort4* vector_weights = reinterpret_cast<device const ushort4*>(weights + local_row * columns);
        device const float4* vector_input = reinterpret_cast<device const float4*>(input);
        for (uint index = thread_id.x; index < vector_columns; index += threads_per_group.x) {
            uint4 bits = uint4(vector_weights[index]) << 16;
            sum += dot(as_type<float4>(bits), vector_input[index]);
        }
    } else {
        device const ushort* row_weights = weights + local_row * columns;
        for (uint column = thread_id.x; column < columns; column += threads_per_group.x) {
            uint bits = uint(row_weights[column]) << 16;
            sum += as_type<float>(bits) * input[column];
        }
    }
    float simd_total = simd_sum(sum);
    threadgroup float partials[32];
    if (simd_lane == 0) {
        partials[simdgroup_id] = simd_total;
    }
    threadgroup_barrier(mem_flags::mem_threadgroup);
    if (thread_id.x == 0) {
        float total = 0.0f;
        uint simdgroups = (threads_per_group.x + 31u) / 32u;
        for (uint index = 0; index < simdgroups; ++index) {
            total += partials[index];
        }
        output[local_row] = total;
    }
}
"#;

pub const BF16_EMBEDDING_ROW: &'static str = r#"
kernel void si_bf16_embedding_row(
    device const ushort* weights [[buffer(0)]],
    device float* output [[buffer(1)]],
    constant uint& length [[buffer(2)]],
    uint3 thread_id [[thread_position_in_grid]]) {
    uint index = thread_id.x;
    if (index >= length) {
        return;
    }
    uint bits = uint(weights[index]) << 16;
    output[index] = as_type<float>(bits);
}
"#;

pub const ROPE: &'static str = r#"
kernel void si_rope(
    device const float* input [[buffer(0)]],
    device float* output [[buffer(1)]],
    constant uint& heads [[buffer(2)]],
    constant uint& head_dim [[buffer(3)]],
    constant uint& position [[buffer(4)]],
    constant float& theta [[buffer(5)]],
    uint3 thread_id [[thread_position_in_grid]]) {
    uint pairs_per_head = head_dim / 2;
    uint pair = thread_id.x;
    if (pair >= heads * pairs_per_head) {
        return;
    }
    uint head = pair / pairs_per_head;
    uint pair_in_head = pair % pairs_per_head;
    float exponent = (2.0f * static_cast<float>(pair_in_head)) / static_cast<float>(head_dim);
    float angle = static_cast<float>(position) * pow(theta, -exponent);
    float sine = sin(angle);
    float cosine = cos(angle);
    uint offset = head * head_dim + pair_in_head * 2;
    float first = input[offset];
    float second = input[offset + 1];
    output[offset] = first * cosine - second * sine;
    output[offset + 1] = first * sine + second * cosine;
}
"#;

pub const ATTENTION_DECODE: &'static str = r#"
kernel void si_attention_decode(
    device const float* query [[buffer(0)]],
    device const float* key_cache [[buffer(1)]],
    device const float* value_cache [[buffer(2)]],
    device const float* new_keys [[buffer(3)]],
    device const float* new_values [[buffer(4)]],
    device float* output [[buffer(5)]],
    constant uint& query_heads [[buffer(6)]],
    constant uint& key_value_heads [[buffer(7)]],
    constant uint& head_dim [[buffer(8)]],
    constant uint& cached_tokens [[buffer(9)]],
    constant uint& cache_capacity_tokens [[buffer(10)]],
    constant float& scale [[buffer(11)]],
    uint3 thread_id [[thread_position_in_grid]]) {
    uint query_head = thread_id.x;
    uint group_size = query_heads / key_value_heads;
    uint key_value_head = query_head / group_size;
    uint total_tokens = cached_tokens + 1;
    float max_score = -INFINITY;
    for (uint token = 0; token < total_tokens; ++token) {
        float score = 0.0f;
        for (uint dimension = 0; dimension < head_dim; ++dimension) {
            uint query_index = query_head * head_dim + dimension;
            uint key_index;
            float key_value;
            if (token < cached_tokens) {
                key_index = (key_value_head * cache_capacity_tokens + token) * head_dim + dimension;
                key_value = key_cache[key_index];
            } else {
                key_index = key_value_head * head_dim + dimension;
                key_value = new_keys[key_index];
            }
            score += query[query_index] * key_value;
        }
        max_score = max(max_score, score * scale);
    }
    float normalizer = 0.0f;
    for (uint token = 0; token < total_tokens; ++token) {
        float score = 0.0f;
        for (uint dimension = 0; dimension < head_dim; ++dimension) {
            uint query_index = query_head * head_dim + dimension;
            uint key_index;
            float key_value;
            if (token < cached_tokens) {
                key_index = (key_value_head * cache_capacity_tokens + token) * head_dim + dimension;
                key_value = key_cache[key_index];
            } else {
                key_index = key_value_head * head_dim + dimension;
                key_value = new_keys[key_index];
            }
            score += query[query_index] * key_value;
        }
        normalizer += exp(score * scale - max_score);
    }
    for (uint dimension = 0; dimension < head_dim; ++dimension) {
        float result = 0.0f;
        for (uint token = 0; token < total_tokens; ++token) {
            float score = 0.0f;
            for (uint key_dimension = 0; key_dimension < head_dim; ++key_dimension) {
                uint query_index = query_head * head_dim + key_dimension;
                uint key_index;
                float key_value;
                if (token < cached_tokens) {
                    key_index = (key_value_head * cache_capacity_tokens + token) * head_dim + key_dimension;
                    key_value = key_cache[key_index];
                } else {
                    key_index = key_value_head * head_dim + key_dimension;
                    key_value = new_keys[key_index];
                }
                score += query[query_index] * key_value;
            }
            float weight = exp(score * scale - max_score) / normalizer;
            uint value_index;
            float value;
            if (token < cached_tokens) {
                value_index = (key_value_head * cache_capacity_tokens + token) * head_dim + dimension;
                value = value_cache[value_index];
            } else {
                value_index = key_value_head * head_dim + dimension;
                value = new_values[value_index];
            }
            result += weight * value;
        }
        output[query_head * head_dim + dimension] = result;
    }
}"#;

/// The parts of the source in order.
pub open spec fn source_parts() -> Seq<Seq<char>> {
    seq![
        PRELUDE@,
        RMS_NORM@,
        RMS_NORM_BF16_HEADS@,
        RMS_NORM_GATED@,
        RMS_NORM_HEADS@,
        BF16_MATVEC@,
        F32_MATVEC@,
        Q4_K_MATVEC@,
        Q4_K_MATVEC_ROWS4@,
        Q4_K_MATVEC_ROWS4X128@,
        Q4_K_FUSED_GATE_UP@,
        Q4_K_EMBEDDING_ROW@,
        GATED_DELTA_STEP@,
        GATED_DELTA_STEP_PARALLEL@,
        CAUSAL_CONV1D_STEP@,
        Q5_K_MATVEC@,
        Q5_K_MATVEC_ROWS4@,
        Q6_K_MATVEC@,
        Q6_K_MATVEC_ROWS4@,
        Q6_K_MATVEC_ROWS4X128@,
        Q4_K_VALUE@,
        Q4_K_MATMUL_MANY@,
        Q5_K_VALUE@,
        Q5_K_MATMUL_MANY@,
        Q6_K_VALUE@,
        Q6_K_MATMUL_MANY@,
        BF16_BITPACK_MATVEC@,
        BF16_MATMUL_MANY@,
        BF16_FUSED_QKV_MANY@,
        BF16_FUSED_GATE_UP_MANY@,
        BF16_FUSED_QKV@,
        BF16_FUSED_GATE_UP@,
        BF16_EMBEDDING_ROW@,
        ROPE@,
        ATTENTION_DECODE@,
    ]
}

/// Texts one after the other.
pub open spec fn joined(parts: Seq<Seq<char>>) -> Seq<char>
    decreases parts.len(),
{
    if parts.len() == 0 {
        Seq::empty()
    } else {
        joined(parts.drop_last()) + parts.last()
    }
}

/// The source that is compiled for the device.
pub fn shader_source() -> (source: String)
    ensures
        source@ == joined(source_parts()),
{
    let parts: Vec<&'static str> = vec![
        PRELUDE,
        RMS_NORM,
        RMS_NORM_BF16_HEADS,
        RMS_NORM_GATED,
        RMS_NORM_HEADS,
        BF16_MATVEC,
        F32_MATVEC,
        Q4_K_MATVEC,
        Q4_K_MATVEC_ROWS4,
        Q4_K_MATVEC_ROWS4X128,
        Q4_K_FUSED_GATE_UP,
        Q4_K_EMBEDDING_ROW,
        GATED_DELTA_STEP,
        GATED_DELTA_STEP_PARALLEL,
        CAUSAL_CONV1D_STEP,
        Q5_K_MATVEC,
        Q5_K_MATVEC_ROWS4,
        Q6_K_MATVEC,
        Q6_K_MATVEC_ROWS4,
        Q6_K_MATVEC_ROWS4X128,
        Q4_K_VALUE,
        Q4_K_MATMUL_MANY,
        Q5_K_VALUE,
        Q5_K_MATMUL_MANY,
        Q6_K_VALUE,
        Q6_K_MATMUL_MANY,
        BF16_BITPACK_MATVEC,
        BF16_MATMUL_MANY,
        BF16_FUSED_QKV_MANY,
        BF16_FUSED_GATE_UP_MANY,
        BF16_FUSED_QKV,
        BF16_FUSED_GATE_UP,
        BF16_EMBEDDING_ROW,
        ROPE,
        ATTENTION_DECODE,
    ];
    let ghost all = source_parts();
    let mut source = String::new();
    let mut index: usize = 0;
    proof {
        assert(parts@.map_values(|part: &'static str| part@) =~= all);
        assert(all.take(0) =~= Seq::empty());
    }
    while index < parts.len()
        invariant
            index <= parts@.len(),
            parts@.map_values(|part: &'static str| part@) == all,
            source@ == joined(all.take(index as int)),
        decreases parts@.len() - index,
    {
        proof {
            assert(all.take(index + 1).drop_last() =~= all.take(index as int));
            assert(all[index as int] == parts@.map_values(|part: &'static str| part@)[index as int]);
        }
        source.append(parts[index]);
        index += 1;
    }
    proof {
        assert(all.take(index as int) =~= all);
    }
    source
}

} // verus!
