//! Which steps are accepted: those whose lengths are what their dimensions say.
//! Of these, the kernels can take the ones whose dimensions fit 32 bits.
use vstd::prelude::*;

use super::attention;
use super::attention::{AttentionDecodeInput, ChainedAttentionBufferRequest};
use super::embedding;
use super::fused;
use super::fused::FusedProjection;
use super::kernel::Switches;
use super::matvec;
use super::norm;
use super::products::is_launched;
use super::quantized;
use super::quantized::BatchMessages;
use super::quantized_groups;
use super::recurrent;
use super::recurrent::GatedDeltaInput;
use super::validate;
use super::weights::{Bf16Weight, QuantWeight};
use crate::lossless::matrix;
use crate::text;

verus! {

/// Whether a dimension fits a kernel's constant.
pub open spec fn fits(dimension: usize) -> bool {
    dimension <= u32::MAX
}

/// A normalization needs values and as many weights.
pub proof fn law_rms_norm_is_accepted(input: usize, weight: usize, epsilon: u32)
    ensures
        norm::rms_norm_plan(input, weight, epsilon) is Ok <==> input > 0 && weight == input,
        norm::rms_norm_plan(input, weight, epsilon) is Ok ==> is_launched(
            norm::rms_norm_plan(input, weight, epsilon),
        ),
{
}

/// Normalizations of heads need heads with values and one scale for all heads; a
/// gate has as many values as the input, and the plain and gated ones take only
/// a finite positive epsilon.
pub proof fn law_heads_norms_are_accepted(
    input: usize,
    gate: usize,
    weight: usize,
    weight_bytes: nat,
    heads: usize,
    head_dim: usize,
    epsilon: u32,
)
    ensures
        ({
            let shaped = heads > 0 && head_dim > 0 && input == heads * head_dim;
            let positive = 0 < epsilon < 0x7f80_0000;
            let bf16 = norm::rms_norm_bf16_heads_plan(
                input,
                weight_bytes,
                heads,
                head_dim,
                epsilon,
            );
            let gated = norm::rms_norm_gated_plan(input, gate, weight, heads, head_dim, epsilon);
            let plain = norm::rms_norm_heads_plan(input, weight, heads, head_dim, epsilon);
            &&& bf16 is Ok <==> shaped && weight_bytes == 2 * head_dim
            &&& gated is Ok <==> shaped && positive && gate == input && weight == head_dim
            &&& plain is Ok <==> shaped && positive && weight == head_dim
            &&& is_launched(bf16) <==> bf16 is Ok && fits(heads) && fits(head_dim)
            &&& is_launched(gated) <==> gated is Ok && fits(heads) && fits(head_dim)
            &&& is_launched(plain) <==> plain is Ok && fits(heads) && fits(head_dim)
        }),
{
}

/// A rotation needs heads of an even number of values.
pub proof fn law_rope_is_accepted(
    input: usize,
    heads: usize,
    head_dim: usize,
    position: usize,
    theta: u32,
)
    ensures
        norm::rope_plan(input, heads, head_dim, position, theta) is Ok <==> heads > 0 && head_dim > 0
            && head_dim % 2 == 0 && input == heads * head_dim,
        norm::rope_plan(input, heads, head_dim, position, theta) is Ok ==> is_launched(
            norm::rope_plan(input, heads, head_dim, position, theta),
        ),
{
}

/// Attention needs as many query heads for each head of keys and values, caches
/// with room for all tokens that they may hold, and no more cached tokens than that.
pub proof fn law_attention_is_accepted(input: AttentionDecodeInput)
    ensures
        ({
            let plan = attention::attention_decode_plan(input);
            let new = input.key_value_heads * input.head_dim;
            &&& plan is Ok <==> input.query_heads > 0 && input.key_value_heads > 0 && input.head_dim
                > 0 && input.query_heads % input.key_value_heads == 0 && input.query
                == input.query_heads * input.head_dim && input.new_keys == new && input.new_values
                == new && input.cached_tokens <= input.cache_capacity_tokens && input.key_cache
                == new * input.cache_capacity_tokens && input.value_cache == input.key_cache
            &&& is_launched(plan) <==> plan is Ok && fits(input.query_heads) && fits(
                input.key_value_heads,
            ) && fits(input.head_dim) && fits(input.cached_tokens) && fits(
                input.cache_capacity_tokens,
            )
        }),
{
}

/// A convolution needs a kernel of at least two taps, all of its weights, and one
/// value of state for each older tap.
pub proof fn law_causal_conv_is_accepted(
    input: usize,
    state: usize,
    weights: usize,
    channels: usize,
    kernel_size: usize,
)
    ensures
        ({
            let plan = recurrent::causal_conv_plan(input, state, weights, channels, kernel_size);
            &&& plan is Ok <==> channels > 0 && kernel_size >= 2 && input == channels && state
                == channels * (kernel_size - 1) && weights == channels * kernel_size
            &&& is_launched(plan) <==> plan is Ok && fits(channels) && fits(kernel_size)
        }),
{
}

/// A recurrent update needs queries, keys, values, gates and rates for all heads,
/// a matrix of state for each, and at most 256 values in a head.
pub proof fn law_gated_delta_is_accepted(input: GatedDeltaInput, switches: Switches, limit: u64)
    ensures
        ({
            let plan = recurrent::gated_delta_plan(input, switches, limit);
            let keys = input.heads * input.key_dim;
            &&& plan is Ok <==> input.heads > 0 && input.key_dim > 0 && 0 < input.value_dim <= 256
                && input.query == keys && input.key == keys && input.value == input.heads
                * input.value_dim && input.gate == input.heads && input.beta == input.heads
                && input.state == keys * input.value_dim
            &&& is_launched(plan) <==> plan is Ok && fits(input.heads) && fits(input.key_dim)
        }),
{
}

/// A product with a BF16 matrix needs two bytes for each of its weights and a
/// value for each column.
pub proof fn law_bf16_product_is_accepted(
    weight: Bf16Weight,
    rows: usize,
    columns: usize,
    input: usize,
)
    ensures
        ({
            let plan = matvec::bf16_matvec_buffer_plan(weight, rows, columns, input);
            &&& plan is Ok <==> rows > 0 && columns > 0 && input == columns && weight.bytes == rows
                * columns * 2 && rows * columns * 2 <= usize::MAX
            &&& is_launched(plan) <==> plan is Ok && fits(rows) && fits(columns)
        }),
{
    let matrices = seq![(weight, rows, columns)];
    let outcomes = matvec::matrix_rows(matrices, input);
    let launches = matvec::matrix_launches(matrices);
    assert(outcomes[0] == matvec::bf16_matrix(matrices[0], input));
    assert(launches[0] == attention::bf16_matvec_launch(rows as int, columns as int));
    if outcomes[0] is Ok {
        text::lemma_all_collected(outcomes);
    }
    if launches[0] is Ok {
        text::lemma_all_collected(launches);
    }
    if text::collected(outcomes) is Ok {
        text::lemma_collected_values(outcomes);
    }
    if text::collected(launches) is Ok {
        text::lemma_collected_values(launches);
    }
}

/// A batched product with a BF16 matrix needs one to eight vectors and a kernel
/// that is loaded; 32 threads must fit a group.
pub proof fn law_bf16_batch_is_accepted(
    weight: Bf16Weight,
    rows: usize,
    columns: usize,
    batch: usize,
    inputs: usize,
    limit: Option<u64>,
)
    requires
        weight.bytes <= usize::MAX,
        batch * rows * 4 <= usize::MAX,
    ensures
        ({
            let plan = matvec::bf16_matmul_many_plan(weight, rows, columns, batch, inputs, limit);
            &&& plan is Ok <==> rows > 0 && columns > 0 && 1 <= batch <= 8 && weight.bytes == rows
                * columns * 2 && inputs == batch * columns && limit is Some
            &&& is_launched(plan) <==> plan is Ok && limit->Some_0 >= 32 && fits(rows) && fits(
                columns,
            )
        }),
{
    assert(rows * columns >= 0) by (nonlinear_arith);
    assert(batch * rows >= 0) by (nonlinear_arith);
}

/// A product with an F32 matrix needs all its weights and a value for each column.
pub proof fn law_f32_product_is_accepted(values: nat, rows: usize, columns: usize, input: usize)
    requires
        values <= usize::MAX,
    ensures
        ({
            let plan = matvec::f32_matvec_plan(values, rows, columns, input);
            &&& plan is Ok <==> rows > 0 && columns > 0 && input == columns && values == rows
                * columns
            &&& is_launched(plan) <==> plan is Ok && fits(rows) && fits(columns)
        }),
{
}

/// A product with a packed matrix needs an offset for each tile and one for the
/// end; they start at zero, never fall, and end where the packed bytes do.
pub proof fn law_packed_product_is_accepted(
    packed_len: nat,
    offsets: Seq<u32>,
    rows: usize,
    columns: usize,
    tile_rows: usize,
    input: usize,
    enabled: bool,
)
    requires
        rows * 4 <= usize::MAX,
    ensures
        ({
            let plan = matvec::bf16_bitpack_matvec_plan(
                packed_len,
                offsets,
                rows,
                columns,
                tile_rows,
                input,
                enabled,
            );
            &&& plan is Ok <==> rows > 0 && columns > 0 && tile_rows > 0 && input == columns && 4
                <= packed_len <= u32::MAX && offsets.len() == matrix::tile_count(
                rows as int,
                tile_rows as int,
            ) + 1 && offsets[0] == 0 && offsets.last() == packed_len && forall|i: int, j: int|
                0 <= i <= j < offsets.len() ==> offsets[i] <= offsets[j]
            &&& is_launched(plan) <==> plan is Ok && enabled && fits(rows) && fits(columns) && fits(
                tile_rows,
            )
        }),
{
    if rows > 0 && tile_rows > 0 {
        matvec::lemma_tile_count(rows as int, tile_rows as int);
    }
}

/// A product with a block-quantized matrix needs rows of whole blocks, and the
/// bytes that blocks of its type take.
pub proof fn law_quantized_product_is_accepted(
    ggml_type: u32,
    weight_len: nat,
    rows: usize,
    columns: usize,
    input: usize,
    switches: Switches,
)
    requires
        weight_len <= usize::MAX,
        rows * (columns / 256) <= usize::MAX,
    ensures
        ({
            let plan = quantized::gguf_quant_matvec_bytes_plan(
                ggml_type,
                weight_len,
                rows,
                columns,
                input,
                switches,
            );
            let blocks = rows * (columns / 256);
            &&& plan is Ok <==> rows > 0 && columns > 0 && columns % 256 == 0 && input == columns
                && (ggml_type == 12 && weight_len == blocks * 144 || ggml_type == 13 && weight_len
                == blocks * 176 || ggml_type == 14 && weight_len == blocks * 210)
            &&& is_launched(plan) <==> plan is Ok && fits(rows) && fits(columns)
        }),
{
}

/// A product with a retained matrix needs rows of whole blocks, and the bytes that
/// blocks of its type take.
pub proof fn law_retained_product_is_accepted(
    weight: QuantWeight,
    rows: usize,
    columns: usize,
    input: usize,
    switches: Switches,
)
    requires
        weight.bytes <= usize::MAX,
    ensures
        ({
            let plan = quantized::gguf_quant_matvec_weight_plan(
                weight,
                rows,
                columns,
                input,
                switches,
            );
            let blocks = rows * (columns / 256);
            &&& plan is Ok <==> rows > 0 && columns > 0 && columns % 256 == 0 && input == columns
                && (weight.ggml_type == 12 && weight.bytes == blocks * 144 || weight.ggml_type == 13
                && weight.bytes == blocks * 176 || weight.ggml_type == 14 && weight.bytes == blocks
                * 210)
            &&& is_launched(plan) <==> plan is Ok && fits(rows) && fits(columns)
        }),
{
}

/// A batched product with a block-quantized matrix needs one to eight vectors
/// beside that.
pub proof fn law_quantized_batch_is_accepted(
    ggml_type: u32,
    weight_bytes: nat,
    retained: bool,
    rows: usize,
    columns: usize,
    batch: usize,
    inputs: usize,
    messages: BatchMessages,
)
    requires
        weight_bytes <= usize::MAX,
        batch * columns <= usize::MAX,
        batch * rows * 4 <= usize::MAX,
    ensures
        ({
            let plan = quantized::matmul_many_plan(
                ggml_type,
                weight_bytes,
                retained,
                rows,
                columns,
                batch,
                inputs,
                messages,
            );
            let blocks = rows * (columns / 256);
            &&& plan is Ok <==> 1 <= batch <= 8 && rows > 0 && columns > 0 && columns % 256 == 0
                && inputs == batch * columns && (ggml_type == 12 && weight_bytes == blocks * 144
                || ggml_type == 13 && weight_bytes == blocks * 176 || ggml_type == 14
                && weight_bytes == blocks * 210)
            &&& is_launched(plan) <==> plan is Ok && fits(rows) && fits(columns)
        }),
{
    assert(batch * rows >= 0) by (nonlinear_arith);
}

/// A fused gate/up step needs two Q4_K matrices of the same shape, with rows of
/// whole blocks.
pub proof fn law_gated_products_are_accepted(
    gate: QuantWeight,
    up: QuantWeight,
    gate_len: nat,
    up_len: nat,
    rows: usize,
    columns: usize,
    input: usize,
    switches: Switches,
)
    requires
        gate_len <= usize::MAX,
        gate.bytes <= usize::MAX,
        rows * (columns / 256) <= usize::MAX,
    ensures
        ({
            let mapped = quantized_groups::q4_k_fused_gate_up_plan(
                gate_len,
                up_len,
                rows,
                columns,
                input,
                switches,
            );
            let retained = quantized_groups::q4_k_fused_gate_up_weights_plan(
                gate,
                up,
                rows,
                columns,
                input,
                switches,
            );
            let shaped = rows > 0 && columns > 0 && columns % 256 == 0 && input == columns;
            let bytes = rows * (columns / 256) * 144;
            &&& mapped is Ok <==> shaped && gate_len == bytes && up_len == bytes
            &&& retained is Ok <==> shaped && gate.ggml_type == 12 && up.ggml_type == 12
                && gate.bytes == bytes && up.bytes == bytes
            &&& is_launched(mapped) <==> mapped is Ok && fits(rows) && fits(columns)
            &&& is_launched(retained) <==> retained is Ok && fits(rows) && fits(columns)
        }),
{
}

/// A row is decoded where it has the bytes of its columns.
pub proof fn law_embedding_rows_are_accepted(row_len: nat, columns: usize)
    ensures
        ({
            let blocks = embedding::q4_k_embedding_row_plan(row_len, columns);
            let pairs = embedding::bf16_embedding_row_plan(row_len, columns);
            &&& blocks is Ok <==> columns > 0 && columns % 256 == 0 && row_len == columns / 256
                * 144
            &&& pairs is Ok <==> columns > 0 && row_len == columns * 2
            &&& is_launched(blocks) <==> blocks is Ok && fits(columns)
            &&& pairs is Ok ==> is_launched(pairs)
        }),
{
}

/// Whether a fused projection can be made of matrices: they are as many as it
/// takes, none is empty, and all multiply the vector.
pub open spec fn can_be_fused(
    kind: FusedProjection,
    matrices: Seq<(Bf16Weight, usize, usize)>,
    input: int,
) -> bool {
    &&& matrices.len() == (match kind {
        FusedProjection::Qkv => 3nat,
        FusedProjection::GateUp => 2nat,
    })
    &&& forall|i: int|
        0 <= i < matrices.len() ==> (#[trigger] matrices[i]).1 > 0 && matrices[i].2 > 0
            && matrices[i].2 == input && matrices[i].1 * matrices[i].2 * 2 <= usize::MAX
}

/// Shapes are right exactly where each of them is.
proof fn lemma_fused_shapes(matrices: Seq<(Bf16Weight, usize, usize)>, input: int)
    requires
        2 <= matrices.len() <= 3,
    ensures
        validate::fused_shapes(fused::matrix_shapes(matrices), input) is Ok <==> forall|i: int|
            0 <= i < matrices.len() ==> (#[trigger] matrices[i]).1 > 0 && matrices[i].2 > 0
                && matrices[i].2 == input && matrices[i].1 * matrices[i].2 * 2 <= usize::MAX,
{
    let shapes = fused::matrix_shapes(matrices);
    let outcomes = shapes.map_values(|shape: (usize, usize)| validate::fused_shape(shape, input));
    assert forall|i: int| 0 <= i < matrices.len() implies ((#[trigger] outcomes[i]) is Ok
        <==> matrices[i].1 > 0 && matrices[i].2 > 0 && matrices[i].2 == input && matrices[i].1
        * matrices[i].2 * 2 <= usize::MAX) by {
        assert(outcomes[i] == validate::fused_shape((matrices[i].1, matrices[i].2), input));
        assert(matrices[i].1 * matrices[i].2 >= 0) by (nonlinear_arith);
    }
    if text::collected(outcomes) is Ok {
        text::lemma_collected_values(outcomes);
        assert forall|i: int| 0 <= i < matrices.len() implies (#[trigger] matrices[i]).1 > 0
            && matrices[i].2 > 0 && matrices[i].2 == input && matrices[i].1 * matrices[i].2 * 2
            <= usize::MAX by {
            assert(outcomes[i] is Ok);
        }
    }
    if forall|i: int|
        0 <= i < matrices.len() ==> (#[trigger] matrices[i]).1 > 0 && matrices[i].2 > 0
            && matrices[i].2 == input && matrices[i].1 * matrices[i].2 * 2 <= usize::MAX {
        assert forall|i: int| 0 <= i < outcomes.len() implies (#[trigger] outcomes[i]) is Ok by {
            assert(matrices[i].1 > 0);
        }
        text::lemma_all_collected(outcomes);
    }
}

/// A fused projection is accepted exactly where its matrices can be fused.
pub proof fn law_fused_projection_is_accepted(
    kind: FusedProjection,
    matrices: Seq<(Bf16Weight, usize, usize)>,
    input: usize,
)
    ensures
        fused::fused_plan(kind, matrices, input) is Ok <==> can_be_fused(
            kind,
            matrices,
            input as int,
        ),
{
    if 2 <= matrices.len() <= 3 {
        lemma_fused_shapes(matrices, input as int);
    }
}

/// Whether a projection of a chained step has two bytes for each of its weights.
pub open spec fn has_weights(matrix: (Bf16Weight, usize, usize)) -> bool {
    &&& matrix.0.bytes == matrix.1 * matrix.2 * 2
    &&& matrix.1 * matrix.2 * 2 <= usize::MAX
}

/// A chained step needs projections from its input to queries, keys and values
/// and from what is attended back to as many values as its input has, a scale
/// for each normalization, and caches with room for one more token.
pub proof fn law_chained_step_is_accepted(request: ChainedAttentionBufferRequest)
    ensures
        ({
            let config = request.config;
            let queries = config.query_heads * config.head_dim;
            let keys = config.key_value_heads * config.head_dim;
            attention::chained_plan(request) is Ok <==> config.query_heads > 0
                && config.key_value_heads > 0 && config.head_dim > 0 && config.query_heads
                % config.key_value_heads == 0 && config.cached_tokens < config.cache_capacity_tokens
                && request.q_norm_bytes == config.head_dim * 2 && request.k_norm_bytes
                == config.head_dim * 2 && request.key_cache == keys * config.cache_capacity_tokens
                && request.value_cache == request.key_cache && request.input > 0 && request.q.1
                == queries && request.k.1 == keys && request.v.1 == keys && request.o.1
                == request.input && request.q.2 == request.input && request.k.2 == request.input
                && request.v.2 == request.input && request.o.2 == queries && has_weights(request.q)
                && has_weights(request.k) && has_weights(request.v) && has_weights(request.o)
        }),
{
    let config = request.config;
    assert(request.q.1 * request.q.2 >= 0) by (nonlinear_arith);
    assert(request.k.1 * request.k.2 >= 0) by (nonlinear_arith);
    assert(request.v.1 * request.v.2 >= 0) by (nonlinear_arith);
    assert(request.o.1 * request.o.2 >= 0) by (nonlinear_arith);
    if config.query_heads > 0 && config.head_dim > 0 {
        assert(config.query_heads * config.head_dim > 0) by (nonlinear_arith)
            requires
                config.query_heads > 0,
                config.head_dim > 0,
        ;
    }
    if config.key_value_heads > 0 && config.head_dim > 0 {
        assert(config.key_value_heads * config.head_dim > 0) by (nonlinear_arith)
            requires
                config.key_value_heads > 0,
                config.head_dim > 0,
        ;
    }
}

} // verus!
