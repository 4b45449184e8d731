//! Launch plans: memory, launches, outputs and refusals.
use super_inference::cache::KvCache;
use super_inference::metal::attention::{
    AttentionDecodeInput, ChainedAttentionBufferRequest, ChainedAttentionConfig,
    ChainedAttentionTensorRequest,
};
use super_inference::metal::context::{MetalContext, Pipelines};
use super_inference::metal::kernel::{Constants, Dispatch, Grid, Kernel, Switches, Threads};
use super_inference::metal::matvec::RowChunk;
use super_inference::metal::operands::{places_of_matrices, places_of_weights, Operand, Place};
use super_inference::metal::plan::{Plan, Profile, SlicePlan};
use super_inference::metal::recurrent::GatedDeltaInput;
use super_inference::metal::stats::{CommandStatus, Submission};
use super_inference::metal::weights::{map_bf16_weight, Bf16Weight, QuantWeight};
use super_inference::metal::wiring::{Slot, Source, Wiring};
use super_inference::quant::{GGML_TYPE_F32, GGML_TYPE_Q4_K, GGML_TYPE_Q5_K, GGML_TYPE_Q6_K};
use super_inference::tensor::{GgufTensorInfo, GgufTensorView, TensorInfo, TensorView};

const EPSILON: u32 = 0x3727_c5ac;

fn switches() -> Switches {
    Switches {
        lossless_gpu: false,
        verify_many: false,
        lookahead: false,
        rows4: false,
        rows4x128: false,
        rows4x128_q6: false,
        fused_rows4x128: false,
        gdn_parallel: false,
    }
}

fn context() -> MetalContext {
    MetalContext::new(Pipelines {
        bitpack: true,
        batched_matmul: Some(64),
        batched_fused_qkv: Some(64),
        batched_fused_gate_up: Some(16),
        gated_delta_parallel: 128,
    })
}

fn plain_context() -> MetalContext {
    MetalContext::new(Pipelines {
        bitpack: false,
        batched_matmul: None,
        batched_fused_qkv: None,
        batched_fused_gate_up: None,
        gated_delta_parallel: 0,
    })
}

fn launch(kernel: Kernel, constants: Constants, grid: Grid, threads: Threads) -> Dispatch {
    Dispatch { kernel, constants, grid, threads }
}

fn rows_launch(kernel: Kernel, columns: u32, rows: u32, groups: u64, most: u64) -> Dispatch {
    launch(kernel, Constants::Two(columns, rows), Grid::Groups(groups), Threads::AtMost(most))
}

fn profile(weights: u64, state: u64, scratch: u64, mapped: bool) -> Profile {
    Profile { weights, state, scratch, mapped }
}

fn refused(result: Result<Plan, String>) -> String {
    result.expect_err("the plan should be refused")
}

fn refused_slice(result: Result<SlicePlan, String>) -> String {
    result.expect_err("the plan should be refused")
}

fn bf16(bytes: u64) -> Bf16Weight {
    Bf16Weight { buffer: 1, offset: 0, bytes, persistent: false, mapped: false }
}

fn quantized(ggml_type: u32, bytes: u64) -> QuantWeight {
    QuantWeight { buffer: 1, offset: 0, bytes, ggml_type, mapped: false }
}

fn info(dtype: &str, shape: Vec<usize>) -> TensorInfo {
    TensorInfo {
        name: "tensor".to_owned(),
        shard: "shard.safetensors".to_owned(),
        dtype: dtype.to_owned(),
        shape,
        data_start: 0,
        data_end: 0,
    }
}

fn gguf_info(ggml_type: u32, shape: Vec<usize>) -> GgufTensorInfo {
    GgufTensorInfo { name: "tensor".to_owned(), ggml_type, shape }
}

#[test]
fn rms_norm_is_planned_as_one_group() {
    let plan = context().rms_norm(4, 4, EPSILON).unwrap();
    assert_eq!(plan.profile, profile(0, 0, 48, false));
    assert_eq!(
        plan.command.unwrap(),
        vec![launch(Kernel::RmsNorm, Constants::Two(4, EPSILON), Grid::Single, Threads::All)]
    );
    assert_eq!(plan.buffers, vec![16]);
    assert_eq!(plan.outputs, vec![4]);
    assert_eq!(plan.operation, "command");
    let message = "RMSNorm input and weight must have equal non-zero length";
    assert_eq!(refused(context().rms_norm(4, 3, EPSILON)), message);
    assert_eq!(refused(context().rms_norm(0, 0, EPSILON)), message);
}

#[test]
fn head_normalizations_check_their_dimensions() {
    let context = context();
    let plan = context.rms_norm_bf16_heads(6, &[0; 6], 2, 3, EPSILON).unwrap();
    assert_eq!(plan.profile, profile(6, 0, 48, false));
    assert_eq!(
        plan.command.unwrap(),
        vec![launch(
            Kernel::RmsNormBf16Heads,
            Constants::Three(2, 3, EPSILON),
            Grid::Threads(2),
            Threads::AtMost(2),
        )]
    );
    assert_eq!(
        refused(context.rms_norm_bf16_heads(6, &[0; 4], 2, 3, EPSILON)),
        "BF16 RMSNorm dimensions or byte length are invalid"
    );
    assert_eq!(
        refused(context.rms_norm_bf16_heads(6, &[0; 4], usize::MAX, 3, EPSILON)),
        "BF16 RMSNorm dimensions overflow"
    );
    let plan = context.rms_norm_gated(6, 6, 3, 2, 3, EPSILON).unwrap();
    assert_eq!(plan.profile, profile(12, 0, 72, true));
    assert_eq!(plan.unbound, "Metal could not bind mapped gated RMSNorm weights");
    assert_eq!(plan.operation, "gated RMSNorm command");
    assert_eq!(
        refused(context.rms_norm_gated(6, 6, 3, 2, 3, 0)),
        "Gated RMSNorm dimensions are invalid"
    );
    assert_eq!(
        refused(context.rms_norm_gated(6, 6, 3, usize::MAX, 3, EPSILON)),
        "Gated RMSNorm dimensions overflow"
    );
    let plan = context.rms_norm_heads(6, 3, 2, 3, EPSILON).unwrap();
    assert_eq!(plan.profile, profile(12, 0, 48, true));
    assert_eq!(plan.command.unwrap()[0].kernel, Kernel::RmsNormHeads);
    let infinite = f32::INFINITY.to_bits();
    let negative = (-1.0_f32).to_bits();
    for epsilon in [0, infinite, negative, f32::NAN.to_bits()] {
        assert_eq!(
            refused(context.rms_norm_heads(6, 3, 2, 3, epsilon)),
            "head RMSNorm dimensions are invalid"
        );
    }
    assert_eq!(
        refused(context.rms_norm_heads(6, 3, usize::MAX, 3, EPSILON)),
        "head RMSNorm dimensions overflow"
    );
}

#[test]
fn normalization_tensors_are_vectors() {
    let context = context();
    let bytes = [0_u8; 8];
    let vector = info("BF16", vec![4]);
    let vector = TensorView { info: &vector, bytes: &bytes, backing: &bytes };
    let plan = context.rms_norm_bf16_tensor(4, &vector, EPSILON).unwrap();
    assert_eq!(plan.command.unwrap()[0].constants, Constants::Three(1, 4, EPSILON));
    let plan = context.rms_norm_bf16_heads_tensor(8, &vector, 2, 4, EPSILON).unwrap();
    assert_eq!(plan.command.unwrap()[0].constants, Constants::Three(2, 4, EPSILON));
    assert_eq!(
        refused(context.rms_norm_bf16_heads_tensor(6, &vector, 2, 3, EPSILON)),
        "per-head RMSNorm weight has an invalid shape or dtype"
    );
    let matrix = info("BF16", vec![2, 2]);
    let matrix = TensorView { info: &matrix, bytes: &bytes, backing: &bytes };
    assert_eq!(
        refused(context.rms_norm_bf16_tensor(4, &matrix, EPSILON)),
        "RMSNorm weight must be a rank-1 BF16 tensor"
    );
}

#[test]
fn rope_is_planned_by_pairs() {
    let theta = 1_000_000.0_f32.to_bits();
    let plan = context().rope(12, 3, 4, 7, theta).unwrap();
    assert_eq!(plan.profile, profile(0, 0, 96, false));
    assert_eq!(
        plan.command.unwrap(),
        vec![launch(
            Kernel::Rope,
            Constants::Four(3, 4, 7, theta),
            Grid::Threads(6),
            Threads::AtMost(6),
        )]
    );
    for (input, heads, head_dim) in [(9, 3, 3), (11, 3, 4), (0, 0, 4), (0, 3, 0)] {
        assert_eq!(
            refused(context().rope(input, heads, head_dim, 0, theta)),
            "RoPE dimensions are invalid"
        );
    }
}

fn delta_input() -> GatedDeltaInput {
    GatedDeltaInput {
        query: 6,
        key: 6,
        value: 8,
        gate: 2,
        beta: 2,
        state: 24,
        heads: 2,
        key_dim: 3,
        value_dim: 4,
    }
}

#[test]
fn recurrent_steps_put_out_values_and_state() {
    let plan = context().gated_delta_step(delta_input(), &switches()).unwrap();
    assert_eq!(plan.profile, profile(0, 96, 128, false));
    assert_eq!(plan.outputs, vec![8, 24]);
    assert_eq!(plan.buffers, vec![32]);
    assert_eq!(
        plan.command.unwrap(),
        vec![launch(
            Kernel::GatedDeltaStep,
            Constants::Three(2, 3, 4),
            Grid::Threads(2),
            Threads::AtMost(2),
        )]
    );
    let parallel = Switches { gdn_parallel: true, ..switches() };
    let plan = context().gated_delta_step(delta_input(), &parallel).unwrap();
    assert_eq!(
        plan.command.unwrap(),
        vec![launch(
            Kernel::GatedDeltaStepParallel,
            Constants::Three(2, 3, 4),
            Grid::Groups(2),
            Threads::Exactly(4),
        )]
    );
    let plan = plain_context().gated_delta_step(delta_input(), &parallel).unwrap();
    assert_eq!(plan.command.unwrap()[0].kernel, Kernel::GatedDeltaStep);
}

#[test]
fn recurrent_steps_report_each_error() {
    let step = |input| refused(context().gated_delta_step(input, &switches()));
    assert_eq!(
        step(GatedDeltaInput { value_dim: 257, ..delta_input() }),
        "Gated DeltaNet dimensions are invalid"
    );
    assert_eq!(
        step(GatedDeltaInput { key_dim: usize::MAX, ..delta_input() }),
        "Gated DeltaNet query dimensions overflow"
    );
    assert_eq!(
        step(GatedDeltaInput { key_dim: usize::MAX / 2, ..delta_input() }),
        "Gated DeltaNet state dimensions overflow"
    );
    assert_eq!(
        step(GatedDeltaInput { beta: 1, ..delta_input() }),
        "Gated DeltaNet input or state dimensions are invalid"
    );
}

#[test]
fn convolution_steps_check_state_and_weights() {
    let plan = context().causal_conv1d_step(3, 6, 9, 3, 3).unwrap();
    assert_eq!(plan.profile, profile(36, 24, 24, true));
    assert_eq!(plan.outputs, vec![3, 6]);
    assert_eq!(
        plan.command.unwrap(),
        vec![launch(
            Kernel::CausalConv1dStep,
            Constants::Two(3, 3),
            Grid::Threads(3),
            Threads::AtMost(3),
        )]
    );
    let step = |input, state, weights, channels, kernel| {
        refused(context().causal_conv1d_step(input, state, weights, channels, kernel))
    };
    assert_eq!(step(3, 0, 3, 3, 1), "causal convolution dimensions are invalid");
    assert_eq!(
        step(3, 0, 3, 3, usize::MAX),
        "causal convolution state dimensions overflow"
    );
    assert_eq!(
        step(2, 0, 3, 2, usize::MAX / 2 + 1),
        "causal convolution weight dimensions overflow"
    );
    assert_eq!(
        step(3, 5, 9, 3, 3),
        "causal convolution input, state, or weight lengths are invalid"
    );
}

fn decode_input() -> AttentionDecodeInput {
    AttentionDecodeInput {
        query: 8,
        key_cache: 12,
        value_cache: 12,
        new_keys: 4,
        new_values: 4,
        query_heads: 4,
        key_value_heads: 2,
        head_dim: 2,
        cached_tokens: 2,
        cache_capacity_tokens: 3,
    }
}

#[test]
fn attention_reads_a_cache_by_its_capacity() {
    let plan = context().attention_decode(decode_input()).unwrap();
    assert_eq!(plan.profile, profile(0, 96, 96, false));
    assert_eq!(plan.outputs, vec![8]);
    let expected = vec![launch(
        Kernel::AttentionDecode,
        Constants::Five(4, 2, 2, 2, 3),
        Grid::Threads(4),
        Threads::AtMost(4),
    )];
    assert_eq!(plan.command.unwrap(), expected);

    let mut cache = KvCache::new(2, 2, 3).expect("valid cache");
    cache.append_token(&[1, 2, 3, 4], &[5, 6, 7, 8]).expect("first token fits");
    cache.append_token(&[1, 2, 3, 4], &[5, 6, 7, 8]).expect("second token fits");
    let plan = context().attention_decode_kv_cache(8, &cache, 4, 4, 4).unwrap();
    assert_eq!(plan.command.unwrap(), expected);
    assert_eq!(plan.profile, profile(0, 96, 96, false));
}

#[test]
fn an_empty_cache_takes_one_value() {
    let input = AttentionDecodeInput {
        key_cache: 0,
        value_cache: 0,
        cached_tokens: 0,
        cache_capacity_tokens: 0,
        ..decode_input()
    };
    assert_eq!(context().attention_decode(input).unwrap().profile.state, 8);
}

#[test]
fn attention_reports_each_error() {
    let step = |input| refused(context().attention_decode(input));
    assert_eq!(
        step(AttentionDecodeInput { key_value_heads: 3, ..decode_input() }),
        "attention head dimensions are invalid"
    );
    assert_eq!(
        step(AttentionDecodeInput { head_dim: usize::MAX, ..decode_input() }),
        "attention query dimensions overflow"
    );
    assert_eq!(
        step(AttentionDecodeInput { new_values: 3, ..decode_input() }),
        "attention query or new key/value lengths are invalid"
    );
    assert_eq!(
        step(AttentionDecodeInput { cached_tokens: 4, ..decode_input() }),
        "attention cached token count exceeds cache capacity"
    );
    assert_eq!(
        step(AttentionDecodeInput { cache_capacity_tokens: usize::MAX, ..decode_input() }),
        "attention cache dimensions overflow"
    );
    assert_eq!(
        step(AttentionDecodeInput { value_cache: 11, ..decode_input() }),
        "attention cache dimensions are invalid"
    );
}

fn chained_request() -> ChainedAttentionBufferRequest {
    ChainedAttentionBufferRequest {
        q: (bf16(16), 4, 2),
        k: (bf16(8), 2, 2),
        v: (bf16(8), 2, 2),
        o: (bf16(16), 2, 4),
        q_norm_bytes: 4,
        k_norm_bytes: 4,
        input: 2,
        key_cache: 6,
        value_cache: 6,
        config: ChainedAttentionConfig {
            query_heads: 2,
            key_value_heads: 1,
            head_dim: 2,
            cached_tokens: 1,
            cache_capacity_tokens: 3,
            position: 1,
            rope_theta: 9,
            epsilon: EPSILON,
        },
    }
}

#[test]
fn chained_attention_launches_the_separate_steps() {
    let context = context();
    let request = chained_request();
    let plan = context.chained_qkv_attention_o_buffers(request).unwrap();
    assert_eq!(plan.outputs, vec![2, 2, 2]);
    assert_eq!(plan.buffers, vec![16, 8, 8, 16, 8, 16, 8, 16, 8]);
    assert_eq!(plan.profile, profile(48, 0, 8 + 4 + 4 + 24 + 24 + 104, false));
    assert_eq!(plan.operation, "chained attention command");
    let mut separate = Vec::new();
    let steps = [
        context.bf16_fused_qkv_buffer(&[request.q, request.k, request.v], 2),
        context.rms_norm_bf16_heads(4, &[0; 4], 2, 2, EPSILON),
        context.rms_norm_bf16_heads(2, &[0; 4], 1, 2, EPSILON),
        context.rope(4, 2, 2, 1, 9),
        context.rope(2, 1, 2, 1, 9),
        context.attention_decode(AttentionDecodeInput {
            query: 4,
            key_cache: 6,
            value_cache: 6,
            new_keys: 2,
            new_values: 2,
            query_heads: 2,
            key_value_heads: 1,
            head_dim: 2,
            cached_tokens: 1,
            cache_capacity_tokens: 3,
        }),
        context.bf16_matvec_buffer(&request.o.0, 2, 4, 4),
    ];
    for step in steps {
        separate.extend(step.unwrap().command.unwrap());
    }
    assert_eq!(plan.command.unwrap(), separate);
}

#[test]
fn chained_attention_reports_each_error() {
    let step = |request| refused(context().chained_qkv_attention_o_buffers(request));
    let full = ChainedAttentionConfig { cached_tokens: 3, ..chained_request().config };
    assert_eq!(
        step(ChainedAttentionBufferRequest { config: full, ..chained_request() }),
        "chained attention dimensions are invalid"
    );
    assert_eq!(
        step(ChainedAttentionBufferRequest { key_cache: 5, ..chained_request() }),
        "chained cache dimensions are invalid"
    );
    let huge = ChainedAttentionConfig { cache_capacity_tokens: usize::MAX, ..full };
    assert_eq!(
        step(ChainedAttentionBufferRequest { config: huge, ..chained_request() }),
        "chained cache dimensions overflow"
    );
    assert_eq!(
        step(ChainedAttentionBufferRequest { k: (bf16(8), usize::MAX, 2), ..chained_request() }),
        "chained projection dimensions overflow"
    );
    assert_eq!(
        step(ChainedAttentionBufferRequest { v: (bf16(7), 2, 2), ..chained_request() }),
        "chained projection dimensions or byte length are invalid"
    );
    assert_eq!(
        step(ChainedAttentionBufferRequest { o: (bf16(16), usize::MAX, 4), ..chained_request() }),
        "chained output projection dimensions overflow"
    );
    assert_eq!(
        step(ChainedAttentionBufferRequest { o: (bf16(24), 3, 4), ..chained_request() }),
        "chained projection shapes do not match attention dimensions"
    );
}

#[test]
fn chained_attention_takes_bound_tensors() {
    let bytes = [0_u8; 16];
    let tall = info("BF16", vec![4, 2]);
    let square = info("BF16", vec![2, 2]);
    let wide = info("BF16", vec![2, 4]);
    let q = TensorView { info: &tall, bytes: &bytes, backing: &bytes };
    let kv = TensorView { info: &square, bytes: &bytes[..8], backing: &bytes };
    let o = TensorView { info: &wide, bytes: &bytes, backing: &bytes };
    let request = |k_weight: Result<Bf16Weight, String>| ChainedAttentionTensorRequest {
        q_tensor: &q,
        k_tensor: &kv,
        v_tensor: &kv,
        o_tensor: &o,
        q_weight: Ok(bf16(16)),
        k_weight,
        v_weight: Ok(bf16(8)),
        o_weight: Ok(bf16(16)),
        q_norm_bytes: 4,
        k_norm_bytes: 4,
        input: 2,
        key_cache: 6,
        value_cache: 6,
        config: chained_request().config,
    };
    let plan = context().chained_qkv_attention_o_tensors(request(Ok(bf16(8)))).unwrap();
    let buffers = context().chained_qkv_attention_o_buffers(chained_request()).unwrap();
    assert_eq!(plan.command, buffers.command);
    assert_eq!(plan.profile, buffers.profile);
    assert_eq!(
        refused(context().chained_qkv_attention_o_tensors(request(Err("unbound".to_owned())))),
        "unbound"
    );
    let half = info("F16", vec![2, 2]);
    let half = TensorView { info: &half, bytes: &bytes[..8], backing: &bytes };
    let mut wrong = request(Ok(bf16(8)));
    wrong.v_tensor = &half;
    assert_eq!(
        refused(context().chained_qkv_attention_o_tensors(wrong)),
        "chained attention projections require rank-2 BF16 tensors"
    );
}

#[test]
fn bf16_products_are_planned_by_rows() {
    let context = context();
    let plan = context.bf16_matvec(&[0; 12], 2, 3, 3, 1, 12).unwrap();
    assert_eq!(plan.profile, profile(12, 0, 20, true));
    assert_eq!(plan.command.unwrap(), vec![rows_launch(Kernel::Bf16Matvec, 3, 2, 2, 128)]);
    assert_eq!(plan.outputs, vec![2]);
    let mapped = Bf16Weight { mapped: true, ..bf16(12) };
    let plan = context.bf16_matvec_buffer(&mapped, 2, 3, 3).unwrap();
    assert_eq!(plan.profile, profile(12, 0, 20, true));
    let lasting = Bf16Weight { persistent: true, ..bf16(12) };
    let plan = context.bf16_matvec_buffer_async(&lasting, 2, 3, 3).unwrap();
    assert_eq!(plan.profile, profile(0, 0, 20, false));
    assert_eq!(
        refused(context.bf16_matvec(&[0; 10], 2, 3, 3, 1, 10)),
        "BF16 matvec dimensions or byte length are invalid"
    );
    assert_eq!(
        refused(context.bf16_matvec(&[], usize::MAX, 2, 2, 1, 0)),
        "BF16 matrix dimensions overflow"
    );
    assert_eq!(
        refused(context.bf16_matvec(&[0; 12], 2, 3, 3, 1, 11)),
        "Metal could not bind the mapped BF16 weight bytes"
    );
}

#[test]
fn several_bf16_products_share_an_input() {
    let context = context();
    let matrices = [(bf16(12), 2, 3), (bf16(6), 1, 3)];
    let plan = context.bf16_matvec_many_buffer(&matrices, 3).unwrap();
    assert_eq!(plan.profile, profile(18, 0, 24, false));
    assert_eq!(
        plan.command.unwrap(),
        vec![
            rows_launch(Kernel::Bf16Matvec, 3, 2, 2, 128),
            rows_launch(Kernel::Bf16Matvec, 3, 1, 1, 128),
        ]
    );
    assert_eq!(plan.outputs, vec![2, 1]);
    assert_eq!(
        refused(context.bf16_matvec_many_buffer_async(&[], 3)),
        "batched BF16 matvec requires at least one matrix"
    );
    assert_eq!(
        refused(context.bf16_matvec_many_buffer(&[(bf16(12), 2, 3), (bf16(6), 1, 2)], 3)),
        "BF16 matvec dimensions or byte length are invalid"
    );
    let bytes = [0_u8; 12];
    let matrix = info("BF16", vec![2, 3]);
    let tensor = TensorView { info: &matrix, bytes: &bytes, backing: &bytes };
    let bound = [Ok(bf16(12)), Err("second".to_owned())];
    assert_eq!(
        refused(context.bf16_matvec_many_tensors(&[&tensor, &tensor], &bound, 3)),
        "second"
    );
    let plan = context.bf16_matvec_many_tensors_async(&[&tensor], &[Ok(bf16(12))], 3).unwrap();
    assert_eq!(plan.outputs, vec![2]);
    assert_eq!(
        refused(context.bf16_matvec_many_tensors(&[&tensor], &[Ok(bf16(12))], 4)),
        "tensor tensor input length 4 does not match columns 3"
    );
}

#[test]
fn batched_products_need_their_kernel() {
    let plan = context().bf16_matmul_many_buffer(&bf16(12), 2, 3, 2, 6).unwrap();
    assert_eq!(plan.outputs, vec![2, 2]);
    assert_eq!(plan.buffers, vec![16]);
    assert_eq!(plan.profile, profile(12, 0, 40, false));
    assert_eq!(
        plan.command.unwrap(),
        vec![launch(
            Kernel::Bf16MatmulMany,
            Constants::Three(3, 2, 2),
            Grid::Groups(2),
            Threads::Exactly(32),
        )]
    );
    assert_eq!(
        refused(plain_context().bf16_matmul_many_buffer(&bf16(12), 2, 3, 2, 6)),
        "batched matmul is disabled; set SI_VERIFY_MANY=1"
    );
    let narrow = MetalContext::new(Pipelines {
        batched_matmul: Some(31),
        ..context().pipelines()
    });
    assert_eq!(
        narrow.bf16_matmul_many_buffer(&bf16(12), 2, 3, 2, 6).unwrap().command.unwrap_err(),
        "batched matmul requires at least one 32-thread SIMD group"
    );
    let bytes = [0_u8; 12];
    let vector = info("BF16", vec![6]);
    let vector = TensorView { info: &vector, bytes: &bytes, backing: &bytes };
    assert_eq!(
        refused(context().bf16_matmul_many_tensor(&vector, &Ok(bf16(12)), 2, 6)),
        "batched matmul requires a rank-2 BF16 tensor"
    );
}

#[test]
fn packed_products_check_their_offsets() {
    let plan = context().bf16_bitpack_matvec(&[0; 9], &[0, 4, 9], 3, 2, 2, 2).unwrap();
    assert_eq!(plan.profile, profile(21, 0, 20, false));
    assert_eq!(
        plan.command.unwrap(),
        vec![launch(
            Kernel::Bf16BitpackMatvec,
            Constants::Three(3, 2, 2),
            Grid::Groups(3),
            Threads::AtMost(128),
        )]
    );
    let step = |packed: &[u8], offsets: &[u32], tile_rows| {
        refused(context().bf16_bitpack_matvec(packed, offsets, 3, 2, tile_rows, 2))
    };
    assert_eq!(step(&[0; 9], &[0, 4, 9], 0), "BF16 bitpack matvec dimensions are invalid");
    assert_eq!(step(&[0; 3], &[0, 1, 3], 2), "BF16 bitpack payload is too short");
    assert_eq!(
        step(&[0; 9], &[0, 9], 2),
        "BF16 bitpack offset count does not match matrix tiles"
    );
    for offsets in [[1, 4, 9], [0, 10, 9], [0, 4, 8]] {
        assert_eq!(
            step(&[0; 9], &offsets, 2),
            "BF16 bitpack offsets are not monotonic or complete"
        );
    }
    let plan = plain_context().bf16_bitpack_matvec(&[0; 9], &[0, 4, 9], 3, 2, 2, 2).unwrap();
    assert_eq!(
        plan.command.unwrap_err(),
        "BF16 bitpack Metal probe is disabled; set SI_LOSSLESS_GPU=1"
    );
}

#[test]
fn chunks_cover_the_rows_of_a_tensor() {
    let context = context();
    let bytes = [0_u8; 12];
    let matrix = info("BF16", vec![3, 2]);
    let tensor = TensorView { info: &matrix, bytes: &bytes, backing: &bytes };
    assert_eq!(
        context.bf16_matvec_tensor_chunked(&tensor, 2, 2).unwrap(),
        vec![
            RowChunk { row_start: 0, row_count: 2, byte_start: 0, byte_end: 8 },
            RowChunk { row_start: 2, row_count: 1, byte_start: 8, byte_end: 12 },
        ]
    );
    assert_eq!(
        context.bf16_matvec_tensor_chunked(&tensor, 2, 0).unwrap_err(),
        "chunked matvec requires a rank-2 BF16 tensor and non-zero row cap"
    );
    assert_eq!(
        context.bf16_matvec_tensor_chunked(&tensor, 3, 1).unwrap_err(),
        "chunked matvec tensor bytes or input length is invalid"
    );
    let rows = context.bf16_matvec_tensor_rows(&tensor, 2, 1, 2, &Ok(bf16(8))).unwrap();
    assert_eq!((rows.start, rows.end), (4, 12));
    assert_eq!(rows.plan.outputs, vec![2]);
    assert_eq!(
        refused_slice(context.bf16_matvec_tensor_rows(&tensor, 2, 2, 2, &Ok(bf16(8)))),
        "row-range matvec dimensions are invalid"
    );
    let short = TensorView { info: &matrix, bytes: &bytes[..8], backing: &bytes };
    assert_eq!(
        refused_slice(context.bf16_matvec_tensor_rows(&short, 2, 1, 2, &Ok(bf16(8)))),
        "row-range matvec bytes are shorter than requested range"
    );
    let plan = context.bf16_matvec_tensor(&tensor, &Ok(bf16(12)), 2).unwrap();
    assert_eq!(plan.outputs, vec![3]);
    let plan = context.bf16_matvec_tensor_buffer(&tensor, &bf16(12), 2).unwrap();
    assert_eq!(plan.outputs, vec![3]);
}

#[test]
fn f32_products_need_aligned_bytes() {
    let context = context();
    let plan = context.f32_matvec(6, 2, 3, 3).unwrap();
    assert_eq!(plan.profile, profile(24, 0, 20, true));
    assert_eq!(plan.command.unwrap(), vec![rows_launch(Kernel::F32Matvec, 3, 2, 2, 128)]);
    assert_eq!(
        refused(context.f32_matvec(5, 2, 3, 3)),
        "F32 matvec dimensions or byte length are invalid"
    );
    assert_eq!(
        refused(context.f32_matvec_bytes(&[0; 24], 2, 2, 3, 3)),
        "F32 matvec bytes are not 4-byte aligned"
    );
    assert_eq!(
        refused(context.f32_matvec_bytes(&[0; 20], 4, 2, 3, 3)),
        "F32 matvec byte length is invalid"
    );
    assert_eq!(
        refused(context.f32_matvec_bytes(&[], 4, usize::MAX, 3, 3)),
        "F32 matvec byte length overflows"
    );
    let bytes = [0_u8; 24];
    let values = gguf_info(GGML_TYPE_F32, vec![3, 2]);
    let tensor = GgufTensorView { info: &values, bytes: &bytes };
    let rows = context.f32_matvec_tensor_rows(&tensor, 8, 1, 1, 3).unwrap();
    assert_eq!((rows.start, rows.end), (12, 24));
    assert_eq!(
        refused_slice(context.f32_matvec_tensor_rows(&tensor, 8, 1, 2, 3)),
        "F32 row range is invalid"
    );
    assert_eq!(
        refused_slice(context.f32_matvec_tensor_rows(&tensor, 8, 0, 2, 2)),
        "F32 tensor columns or input length is invalid"
    );
    let short = GgufTensorView { info: &values, bytes: &bytes[..20] };
    assert_eq!(
        refused_slice(context.gguf_matvec_tensor_rows(&short, 8, 0, 2, 3, &switches())),
        "F32 tensor payload is shorter than its shape"
    );
    let blocks = gguf_info(GGML_TYPE_Q4_K, vec![3, 2]);
    let blocks = GgufTensorView { info: &blocks, bytes: &bytes };
    assert_eq!(
        refused_slice(context.f32_matvec_tensor_rows(&blocks, 8, 0, 2, 3)),
        "F32 matvec requires a rank-2 F32 tensor"
    );
}

#[test]
fn quantized_products_choose_their_kernel() {
    let context = context();
    let bytes = [0_u8; 5 * 210];
    let rows4 = Switches { rows4: true, ..switches() };
    let wide = Switches { rows4x128: true, ..switches() };
    let wider = Switches { rows4x128_q6: true, ..wide };
    let command = |plan: Result<Plan, String>| plan.unwrap().command.unwrap()[0];
    for (switches, kernel, groups, most) in [
        (switches(), Kernel::Q4KMatvec, 5, 128),
        (rows4, Kernel::Q4KMatvecRows4, 2, 128),
        (wide, Kernel::Q4KMatvecRows4x128, 2, 512),
    ] {
        let plan = context.q4_k_matvec(&bytes[..720], 5, 256, 256, &switches);
        assert_eq!(command(plan), rows_launch(kernel, 256, 5, groups, most));
    }
    for (switches, kernel, groups) in [
        (wide, Kernel::Q5KMatvec, 5),
        (rows4, Kernel::Q5KMatvecRows4, 2),
    ] {
        let plan = context.gguf_quant_matvec_bytes(GGML_TYPE_Q5_K, &bytes[..880], 5, 256, 256, &switches);
        assert_eq!(command(plan), rows_launch(kernel, 256, 5, groups, 128));
    }
    for (switches, kernel, groups, most) in [
        (wide, Kernel::Q6KMatvec, 5, 128),
        (wider, Kernel::Q6KMatvecRows4x128, 2, 512),
        (rows4, Kernel::Q6KMatvecRows4, 2, 128),
    ] {
        let plan = context.gguf_quant_matvec_bytes(GGML_TYPE_Q6_K, &bytes, 5, 256, 256, &switches);
        assert_eq!(command(plan), rows_launch(kernel, 256, 5, groups, most));
    }
    let plan = context.q5_k_matvec(&bytes[..880], 5, 256, 256, &rows4);
    assert_eq!(command(plan), rows_launch(Kernel::Q5KMatvec, 256, 5, 5, 128));
    let plan = context.q6_k_matvec(&bytes, 5, 256, 256, &wider);
    assert_eq!(command(plan), rows_launch(Kernel::Q6KMatvec, 256, 5, 5, 128));
}

#[test]
fn quantized_products_report_each_error() {
    let context = context();
    let bytes = [0_u8; 288];
    let plan = context.q4_k_matvec(&bytes, 2, 256, 256, &switches()).unwrap();
    assert_eq!(plan.profile, profile(288, 0, 1032, true));
    assert_eq!(plan.unbound, "Metal could not bind the mapped Q4_K weight bytes");
    assert_eq!(plan.operation, "Q4_K matvec command");
    assert_eq!(
        refused(context.q4_k_matvec(&bytes, 2, 255, 255, &switches())),
        "Q4_K matvec dimensions are invalid"
    );
    assert_eq!(
        refused(context.q5_k_matvec(&bytes, 2, 256, 256, &switches())),
        "Q5_K matvec byte length is invalid"
    );
    assert_eq!(
        refused(context.q6_k_matvec(&bytes, usize::MAX, 512, 512, &switches())),
        "Q6_K matvec block count overflows"
    );
    assert_eq!(
        refused(context.q6_k_matvec(&bytes, usize::MAX, 256, 256, &switches())),
        "Q6_K matvec byte length overflows"
    );
    assert_eq!(
        refused(context.gguf_quant_matvec_bytes(1, &bytes, 2, 256, 256, &switches())),
        "unsupported staged quantized weight type"
    );
    assert_eq!(
        refused(context.gguf_quant_matvec_weight(&quantized(1, 288), 2, 256, 256, &switches())),
        "unsupported retained quantized weight type"
    );
    let weight = quantized(GGML_TYPE_Q4_K, 288);
    let plan = context.gguf_quant_matvec_weight(&weight, 2, 256, 256, &switches()).unwrap();
    assert_eq!(plan.profile, profile(0, 0, 1032, false));
    assert_eq!(plan.operation, "Q4_K retained matvec command");
    assert_eq!(
        refused(context.gguf_quant_matvec_weight(&weight, 2, 256, 255, &switches())),
        "Q4_K retained matvec dimensions are invalid"
    );
    assert_eq!(
        refused(context.gguf_quant_matvec_weight(&weight, 3, 256, 256, &switches())),
        "Q4_K retained matvec byte length is invalid"
    );
}

#[test]
fn quantized_rows_are_cut_from_their_tensor() {
    let context = context();
    let bytes = [0_u8; 420];
    let q6 = gguf_info(GGML_TYPE_Q6_K, vec![256, 2]);
    let tensor = GgufTensorView { info: &q6, bytes: &bytes };
    let rows = context.q6_k_matvec_tensor_rows(&tensor, 1, 1, 256, &switches()).unwrap();
    assert_eq!((rows.start, rows.end), (210, 420));
    let rows = context.gguf_matvec_tensor_rows(&tensor, 1, 0, 2, 256, &switches()).unwrap();
    assert_eq!((rows.start, rows.end), (0, 420));
    assert_eq!(
        refused_slice(context.q5_k_matvec_tensor_rows(&tensor, 0, 1, 256, &switches())),
        "Q5_K matvec requires a rank-2 Q5_K tensor"
    );
    assert_eq!(
        refused_slice(context.q6_k_matvec_tensor_rows(&tensor, 2, 1, 256, &switches())),
        "Q6_K row range is invalid"
    );
    assert_eq!(
        refused_slice(context.q6_k_matvec_tensor_rows(&tensor, 0, 1, 255, &switches())),
        "Q6_K tensor columns or input length is invalid"
    );
    let short = GgufTensorView { info: &q6, bytes: &bytes[..419] };
    assert_eq!(
        refused_slice(context.q6_k_matvec_tensor_rows(&short, 1, 1, 256, &switches())),
        "Q6_K tensor payload is shorter than its shape"
    );
    let q4 = gguf_info(GGML_TYPE_Q4_K, vec![256, 2]);
    let q4 = GgufTensorView { info: &q4, bytes: &bytes };
    let rows = context.q4_k_matvec_tensor_rows(&q4, 1, 1, 256, &switches()).unwrap();
    assert_eq!((rows.start, rows.end), (144, 288));
    let rows = context.q4_k_matvec_tensor(&q4, 256, &switches()).unwrap();
    assert_eq!((rows.start, rows.end), (0, 288));
    let vector = gguf_info(GGML_TYPE_Q4_K, vec![256]);
    let vector = GgufTensorView { info: &vector, bytes: &bytes };
    assert_eq!(
        refused_slice(context.q4_k_matvec_tensor(&vector, 256, &switches())),
        "Q4_K matvec requires a rank-2 tensor"
    );
    let unknown = gguf_info(30, vec![256, 2]);
    let unknown = GgufTensorView { info: &unknown, bytes: &bytes };
    assert_eq!(
        refused_slice(context.gguf_quant_matvec_tensor_rows(&unknown, 0, 1, 256, &switches())),
        "GGUF tensor tensor has unsupported quantized type 30"
    );
}

#[test]
fn quantized_batches_report_each_error() {
    let context = context();
    let bytes = [0_u8; 288];
    let many = |ggml_type, rows, columns, batch, inputs| {
        context.gguf_quant_matmul_many_bytes(ggml_type, &bytes, rows, columns, batch, inputs)
    };
    let plan = many(GGML_TYPE_Q4_K, 2, 256, 3, 768).unwrap();
    assert_eq!(plan.profile, profile(288, 0, 3072 + 24, true));
    assert_eq!(plan.outputs, vec![2, 2, 2]);
    assert_eq!(
        plan.command.unwrap(),
        vec![launch(
            Kernel::Q4KMatmulMany,
            Constants::Three(256, 2, 3),
            Grid::Groups(2),
            Threads::AtMost(128),
        )]
    );
    assert_eq!(
        refused(many(GGML_TYPE_Q4_K, 2, 256, 9, 2304)),
        "batched quantized matvec dimensions are invalid"
    );
    assert_eq!(
        refused(many(GGML_TYPE_Q4_K, 2, 256, 2, 256)),
        "batched quantized input length is invalid"
    );
    assert_eq!(
        refused(many(7, 2, 256, 1, 256)),
        "unsupported batched quantized weight type"
    );
    assert_eq!(
        refused(many(GGML_TYPE_Q5_K, 2, 256, 1, 256)),
        "batched quantized weight byte length is invalid"
    );
    assert_eq!(
        refused(many(GGML_TYPE_Q5_K, usize::MAX, 256, 1, 256)),
        "batched quantized weight byte length overflows"
    );
    let weight = quantized(GGML_TYPE_Q4_K, 288);
    let plan = context.gguf_quant_matmul_many_weight(&weight, 2, 256, 3, 768).unwrap();
    assert_eq!(plan.profile, profile(0, 0, 3096, false));
    assert_eq!(
        refused(context.gguf_quant_matmul_many_weight(&weight, 2, 256, 0, 0)),
        "batched retained quantized dimensions are invalid"
    );
}

#[test]
fn gated_products_take_two_q4_k_matrices() {
    let context = context();
    let bytes = [0_u8; 288];
    let plan = context.q4_k_fused_gate_up(&bytes, &bytes, 2, 256, 256, &switches()).unwrap();
    assert_eq!(plan.profile, profile(576, 0, 1032, true));
    assert_eq!(
        plan.command.unwrap(),
        vec![rows_launch(Kernel::Q4KFusedGateUp, 256, 2, 2, 128)]
    );
    let wide = Switches { fused_rows4x128: true, ..switches() };
    let gate = quantized(GGML_TYPE_Q4_K, 288);
    let plan = context.q4_k_fused_gate_up_weights(&gate, &gate, 2, 256, 256, &wide).unwrap();
    assert_eq!(
        plan.command.unwrap(),
        vec![rows_launch(Kernel::Q4KFusedGateUp, 256, 2, 2, 512)]
    );
    assert_eq!(
        refused(context.q4_k_fused_gate_up(&bytes, &bytes[..144], 2, 256, 256, &wide)),
        "Q4_K fused gate/up byte length is invalid"
    );
    assert_eq!(
        refused(context.q4_k_fused_gate_up(&bytes, &bytes, 0, 256, 256, &wide)),
        "Q4_K fused gate/up dimensions are invalid"
    );
    let up = quantized(GGML_TYPE_Q6_K, 288);
    assert_eq!(
        refused(context.q4_k_fused_gate_up_weights(&gate, &up, 2, 256, 256, &wide)),
        "retained Q4_K fused gate/up dimensions are invalid"
    );
    assert_eq!(
        refused(context.q4_k_fused_gate_up_weights(&gate, &gate, 3, 256, 256, &wide)),
        "retained Q4_K fused gate/up byte length is invalid"
    );
}

#[test]
fn fused_mlps_are_one_command() {
    let context = context();
    let gate = quantized(GGML_TYPE_Q4_K, 256 * 144);
    let down = quantized(GGML_TYPE_Q6_K, 3 * 210);
    let rows4 = Switches { rows4: true, ..switches() };
    let mlp = |down: &QuantWeight, gate_rows, input, switches: &Switches| {
        context.gguf_quant_fused_mlp_weights(&gate, &gate, down, gate_rows, 256, 3, input, switches)
    };
    let plan = mlp(&down, 256, 256, &rows4).unwrap();
    assert_eq!(plan.profile, profile(0, 0, 1024 + 1024 + 12, false));
    assert_eq!(plan.buffers, vec![1024, 12]);
    assert_eq!(plan.outputs, vec![3]);
    assert_eq!(plan.operation, "fused MLP Q6_K command");
    assert_eq!(
        plan.command.unwrap(),
        vec![
            rows_launch(Kernel::Q4KFusedGateUp, 256, 256, 256, 128),
            rows_launch(Kernel::Q6KMatvecRows4, 256, 3, 1, 128),
        ]
    );
    assert_eq!(
        refused(mlp(&down, 256, 255, &rows4)),
        "fused quantized MLP dimensions are invalid"
    );
    assert_eq!(
        refused(mlp(&down, 255, 256, &rows4)),
        "fused quantized MLP gate byte length is invalid"
    );
    assert_eq!(
        refused(mlp(&quantized(3, 630), 256, 256, &rows4)),
        "unsupported fused quantized MLP down type"
    );
    assert_eq!(
        refused(mlp(&quantized(GGML_TYPE_Q6_K, 631), 256, 256, &rows4)),
        "fused quantized MLP down byte length is invalid"
    );
}

#[test]
fn mapped_groups_read_every_tensor() {
    let context = context();
    let bytes = [0_u8; 420];
    let q4 = gguf_info(GGML_TYPE_Q4_K, vec![256, 2]);
    let q6 = gguf_info(GGML_TYPE_Q6_K, vec![256, 1]);
    let first = GgufTensorView { info: &q4, bytes: &bytes[..288] };
    let second = GgufTensorView { info: &q6, bytes: &bytes[..210] };
    let plan = context.gguf_quant_matvec_many_tensors(&[&first, &second], 256, &[288, 210]).unwrap();
    assert_eq!(plan.profile, profile(498, 0, 1024 + 8 + 4, true));
    assert_eq!(
        plan.command.unwrap(),
        vec![
            rows_launch(Kernel::Q4KMatvec, 256, 2, 2, 128),
            rows_launch(Kernel::Q6KMatvec, 256, 1, 1, 128),
        ]
    );
    let group = |tensors: &[&GgufTensorView<'_>], input, bound: &[u64]| {
        refused(context.gguf_quant_matvec_many_tensors(tensors, input, bound))
    };
    assert_eq!(group(&[], 256, &[]), "quantized matvec group requires at least one tensor");
    assert_eq!(group(&[&first], 255, &[288]), "quantized matvec group input length is invalid");
    assert_eq!(
        group(&[&first, &second], 256, &[288, 209]),
        "Metal could not bind grouped quantized weights"
    );
    let cut = GgufTensorView { info: &q4, bytes: &bytes[..287] };
    assert_eq!(group(&[&cut], 256, &[288]), "quantized matvec group tensor is truncated");
    let values = gguf_info(GGML_TYPE_F32, vec![256, 2]);
    let values = GgufTensorView { info: &values, bytes: &bytes };
    assert_eq!(
        group(&[&first, &values], 256, &[288, 420]),
        "quantized matvec group tensor shapes or types differ"
    );
    let scalar = gguf_info(GGML_TYPE_Q4_K, vec![]);
    let scalar = GgufTensorView { info: &scalar, bytes: &bytes };
    assert_eq!(group(&[&scalar], 256, &[420]), "quantized matvec tensor is not a matrix");
}

#[test]
fn retained_groups_go_by_the_switches() {
    let context = context();
    let weights = [(quantized(GGML_TYPE_Q4_K, 720), 5, 256)];
    let both = Switches { rows4: true, rows4x128: true, ..switches() };
    let wide = Switches { rows4x128: true, ..switches() };
    for (switches, kernel, groups, most) in [
        (switches(), Kernel::Q4KMatvec, 5, 128),
        (wide, Kernel::Q4KMatvecRows4x128, 5, 512),
        (both, Kernel::Q4KMatvecRows4x128, 2, 512),
    ] {
        let plan = context.gguf_quant_matvec_many_weights(&weights, 256, &switches).unwrap();
        assert_eq!(plan.command.unwrap(), vec![rows_launch(kernel, 256, 5, groups, most)]);
        assert_eq!(plan.profile, profile(0, 0, 1044, false));
    }
    let group = |weights: &[(QuantWeight, usize, usize)], input| {
        refused(context.gguf_quant_matvec_many_weights(weights, input, &switches()))
    };
    assert_eq!(group(&[], 256), "retained quantized matvec group requires at least one weight");
    assert_eq!(
        group(&weights, 512),
        "retained quantized matvec group input length is invalid"
    );
    assert_eq!(
        group(&[weights[0], (quantized(GGML_TYPE_Q4_K, 720), 5, 512)], 256),
        "retained quantized matvec group shapes differ"
    );
    assert_eq!(
        group(&[(quantized(2, 720), 5, 256)], 256),
        "unsupported retained quantized matvec group type"
    );
    assert_eq!(
        group(&[(quantized(GGML_TYPE_Q4_K, 721), 5, 256)], 256),
        "retained quantized matvec group byte length is invalid"
    );
}

#[test]
fn staged_groups_are_wide_as_a_whole() {
    let context = context();
    let bytes = [0_u8; 1050];
    let q4: (u32, &[u8], usize, usize) = (GGML_TYPE_Q4_K, &bytes[..720], 5, 256);
    let q5: (u32, &[u8], usize, usize) = (GGML_TYPE_Q5_K, &bytes[..880], 5, 256);
    let wide = Switches { rows4x128: true, ..switches() };
    let plan = context.gguf_quant_matvec_many_bytes(&[q4, q4], 256, &wide, &[720, 720]).unwrap();
    assert_eq!(
        plan.command.unwrap(),
        vec![rows_launch(Kernel::Q4KMatvecRows4x128, 256, 5, 2, 128); 2]
    );
    let plan = context.gguf_quant_matvec_many_bytes(&[q4, q5], 256, &wide, &[720, 880]).unwrap();
    assert_eq!(
        plan.command.unwrap(),
        vec![
            rows_launch(Kernel::Q4KMatvec, 256, 5, 5, 128),
            rows_launch(Kernel::Q5KMatvec, 256, 5, 5, 128),
        ]
    );
    let group = |tensors: &[(u32, &[u8], usize, usize)], input, bound: &[u64]| {
        refused(context.gguf_quant_matvec_many_bytes(tensors, input, &switches(), bound))
    };
    assert_eq!(
        group(&[], 256, &[]),
        "staged quantized matvec group requires at least one tensor"
    );
    assert_eq!(
        group(&[q4], 512, &[720]),
        "staged quantized matvec group input length is invalid"
    );
    assert_eq!(
        group(&[q4, (GGML_TYPE_Q4_K, &bytes, 0, 256)], 256, &[720, 0]),
        "staged quantized matvec group shapes differ"
    );
    assert_eq!(
        group(&[(5, &bytes, 5, 256)], 256, &[720]),
        "unsupported staged quantized tensor type"
    );
    assert_eq!(
        group(&[(GGML_TYPE_Q4_K, &bytes, 5, 256)], 256, &[1050]),
        "staged quantized matvec tensor byte length is invalid"
    );
    assert_eq!(
        group(&[q4], 256, &[719]),
        "Metal could not bind staged grouped quantized weights"
    );
}

#[test]
fn f32_groups_need_whole_tensors() {
    let context = context();
    let bytes = [0_u8; 24];
    let values = gguf_info(GGML_TYPE_F32, vec![3, 2]);
    let tensor = GgufTensorView { info: &values, bytes: &bytes };
    let plan = context.f32_matvec_many_gguf_tensors(&[&tensor, &tensor], 3).unwrap();
    assert_eq!(plan.profile, profile(48, 0, 12 + 8 + 8, true));
    assert_eq!(plan.outputs, vec![2, 2]);
    assert_eq!(
        refused(context.f32_matvec_many_gguf_tensors(&[], 3)),
        "GGUF F32 matvec group requires at least one tensor"
    );
    assert_eq!(
        refused(context.f32_matvec_many_gguf_tensors(&[&tensor], 2)),
        "GGUF F32 matvec group input length is invalid"
    );
    let cut = GgufTensorView { info: &values, bytes: &bytes[..20] };
    assert_eq!(
        refused(context.f32_matvec_many_gguf_tensors(&[&tensor, &cut], 3)),
        "GGUF F32 matvec group tensor is truncated"
    );
    let narrow = gguf_info(GGML_TYPE_F32, vec![2, 2]);
    let narrow = GgufTensorView { info: &narrow, bytes: &bytes[..16] };
    assert_eq!(
        refused(context.f32_matvec_many_gguf_tensors(&[&tensor, &narrow], 3)),
        "GGUF F32 matvec group shapes or types differ"
    );
}

#[test]
fn fused_projections_are_one_launch() {
    let context = context();
    let qkv = [(bf16(48), 6, 4), (bf16(16), 2, 4), (bf16(16), 2, 4)];
    let plan = context.bf16_fused_qkv_buffer(&qkv, 4).unwrap();
    assert_eq!(plan.profile, profile(80, 0, 16 + 40, false));
    assert_eq!(plan.outputs, vec![6, 2, 2]);
    assert_eq!(
        plan.command.unwrap(),
        vec![launch(
            Kernel::Bf16FusedQkv,
            Constants::Four(4, 6, 2, 2),
            Grid::Groups(10),
            Threads::AtMost(128),
        )]
    );
    let plan = context.bf16_fused_gate_up_buffer_async(&qkv[1..], 4).unwrap();
    assert_eq!(
        plan.command.unwrap(),
        vec![launch(
            Kernel::Bf16FusedGateUp,
            Constants::Three(4, 2, 2),
            Grid::Groups(4),
            Threads::AtMost(128),
        )]
    );
    assert_eq!(
        refused(context.bf16_fused_qkv_buffer_async(&qkv[1..], 4)),
        "fused QKV requires exactly three matrices"
    );
    assert_eq!(
        refused(context.bf16_fused_gate_up_buffer(&qkv, 4)),
        "fused gate/up requires exactly two matrices"
    );
    assert_eq!(
        refused(context.bf16_fused_gate_up_buffer(&qkv[1..], 5)),
        "fused projection dimensions or input length are invalid"
    );
}

#[test]
fn fused_projections_take_tensors_and_bytes() {
    let context = context();
    let bytes = [0_u8; 16];
    let matrix = info("BF16", vec![2, 4]);
    let tensor = TensorView { info: &matrix, bytes: &bytes, backing: &bytes };
    let bound = [Ok(bf16(16)), Ok(bf16(16)), Ok(bf16(16))];
    let three = [&tensor, &tensor, &tensor];
    let expected = context
        .bf16_fused_qkv_buffer(&[(bf16(16), 2, 4), (bf16(16), 2, 4), (bf16(16), 2, 4)], 4)
        .unwrap();
    for plan in [
        context.bf16_fused_qkv_tensors(&three, &bound, 4),
        context.bf16_fused_qkv_tensors_async(&three, &bound, 4),
    ] {
        let plan = plan.unwrap();
        assert_eq!(plan.command, expected.command);
        assert_eq!(plan.profile, expected.profile);
    }
    for plan in [
        context.bf16_fused_gate_up_tensors(&three[1..], &bound[1..], 4),
        context.bf16_fused_gate_up_tensors_async(&three[1..], &bound[1..], 4),
    ] {
        assert_eq!(plan.unwrap().outputs, vec![2, 2]);
    }
    assert_eq!(
        refused(context.bf16_fused_qkv_tensors(&three[1..], &bound[1..], 4)),
        "fused QKV requires exactly three tensors"
    );
    assert_eq!(
        refused(context.bf16_fused_gate_up_tensors(&three, &bound, 4)),
        "fused gate/up requires exactly two tensors"
    );
    let unbound = [Ok(bf16(16)), Err("unbound".to_owned())];
    assert_eq!(
        refused(context.bf16_fused_gate_up_tensors(&three[1..], &unbound, 4)),
        "unbound"
    );
    let matrices: [(&[u8], usize, usize); 3] = [(&bytes, 2, 4), (&bytes, 2, 4), (&bytes, 2, 4)];
    let handles = [(1, 16), (2, 16), (3, 16)];
    let plan = context.bf16_fused_qkv_bytes(&matrices, &handles, 4).unwrap();
    assert_eq!(plan.command, expected.command);
    assert_eq!(plan.profile, profile(48, 0, 40, true));
    let plan = context.bf16_fused_gate_up_bytes(&matrices[1..], &handles[1..], 4).unwrap();
    assert_eq!(plan.outputs, vec![2, 2]);
    assert_eq!(
        refused(context.bf16_fused_gate_up_bytes(&matrices[1..], &[(1, 16), (2, 15)], 4)),
        "Metal could not bind the mapped BF16 weight bytes"
    );
    assert_eq!(
        refused(context.bf16_fused_qkv_bytes(&matrices[1..], &handles[1..], 4)),
        "fused QKV requires exactly three matrices"
    );
    assert!(context
        .bf16_fused_gate_up_bytes(&[(&bytes[..0], 2, 4), (&bytes, 2, 4)], &handles[1..], 4)
        .is_err());
    let owned = vec![(vec![1, 2], 1, 1), (vec![3, 4], 1, 1), (vec![5, 6], 1, 1)];
    let owned = context
        .bf16_fused_qkv_owned_bytes_async(owned, &[(1, 2), (2, 2), (3, 2)], 1)
        .unwrap();
    assert_eq!(owned.keepalive, vec![vec![1, 2], vec![3, 4], vec![5, 6]]);
    assert_eq!(owned.plan.outputs, vec![1, 1, 1]);
}

fn bf16_bytes(values: &[f32]) -> Vec<u8> {
    values
        .iter()
        .flat_map(|value| ((value.to_bits() >> 16) as u16).to_le_bytes())
        .collect()
}

#[test]
fn async_matvec_submission_can_be_waited_without_changing_results() {
    let mut context = context();
    let weights = [1.0_f32, 0.5, -1.0, 2.0, -2.0, 1.0, 0.25, 3.0];
    let input = [2.0_f32, -1.0, 0.5, 3.0];
    let weight_bytes = bf16_bytes(&weights);
    let weight = context
        .upload_bf16_weight(&weight_bytes, 1)
        .expect("weight should upload");

    let plan = context
        .bf16_matvec_buffer_async(&weight, 2, 4, input.len())
        .expect("async matvec should submit");
    let outputs = plan.outputs.clone();
    context.accept(plan, true).expect("async matvec should submit");
    let mut pending = context.submit_async(outputs);
    assert_ne!(pending.status(), CommandStatus::NotEnqueued);
    pending.note_status(CommandStatus::Completed);
    let actual = context.wait(pending, 7).expect("async matvec should complete");
    assert_eq!(actual.len(), 1);
    assert_eq!(actual[0], 2);
    assert_eq!(context.command_stats().submitted, 1);
    assert_eq!(context.command_stats().async_submitted, 1);
    assert_eq!(context.command_stats().waited, 1);
}

#[test]
fn async_owned_fused_gate_up_keeps_staged_bytes_alive() {
    let mut context = context();
    let input = [2.0_f32, -1.0, 0.5, 3.0];
    let matrices = [
        vec![1.0_f32, 0.5, -1.0, 2.0, -2.0, 1.0, 0.25, 3.0],
        vec![0.125_f32, -0.5, 2.0, -1.0, 0.25, 1.5, -0.75, 2.5],
    ]
    .into_iter()
    .map(|matrix| (bf16_bytes(&matrix), 2, 4))
    .collect::<Vec<_>>();
    let owned = context
        .bf16_fused_gate_up_owned_bytes_async(matrices.clone(), &[(1, 16), (2, 16)], input.len())
        .expect("owned staged gate/up should submit");
    assert_eq!(owned.keepalive, vec![matrices[0].0.clone(), matrices[1].0.clone()]);
    let outputs = owned.plan.outputs.clone();
    context.accept(owned.plan, true).expect("owned staged gate/up should submit");
    let mut pending = context.submit_async(outputs).with_keepalive(owned.keepalive);
    pending.note_status(CommandStatus::Completed);
    let actual = context
        .wait(pending, 7)
        .expect("owned staged gate/up should complete");
    assert_eq!(actual.len(), 2);
    assert_eq!(actual[0], 2);
    assert_eq!(actual[1], 2);
}

#[test]
fn batched_fused_projections_put_out_each_candidate() {
    let context = context();
    let qkv = [(bf16(48), 6, 4), (bf16(16), 2, 4), (bf16(16), 2, 4)];
    let plan = context.bf16_fused_qkv_many_buffer(&qkv, 2, 8).unwrap();
    assert_eq!(plan.outputs, vec![6, 6, 2, 2, 2, 2]);
    assert_eq!(plan.buffers, vec![48, 16, 16]);
    assert_eq!(plan.profile, profile(80, 0, 32 + 80, false));
    assert_eq!(
        plan.command.unwrap(),
        vec![launch(
            Kernel::Bf16FusedQkvMany,
            Constants::Five(4, 6, 2, 2, 2),
            Grid::Groups(10),
            Threads::Exactly(32),
        )]
    );
    let step = |matrices: &[(Bf16Weight, usize, usize)], batch, inputs| {
        refused(context.bf16_fused_qkv_many_buffer(matrices, batch, inputs))
    };
    assert_eq!(
        step(&qkv[1..], 2, 8),
        "batched fused projection requires exactly 3 matrices"
    );
    assert_eq!(step(&qkv, 2, 7), "batched fused projection input length is invalid");
    assert_eq!(step(&qkv, 0, 0), "batched fused projection input length is invalid");
    let wrong = [(bf16(47), 6, 4), qkv[1], qkv[2]];
    assert_eq!(
        step(&wrong, 2, 8),
        "batched fused projection weight byte length is invalid"
    );
    assert_eq!(
        refused(context.bf16_fused_gate_up_many_buffer(&qkv[1..], 2, 8)),
        "batched fused projection requires one 32-thread SIMD group"
    );
    assert_eq!(
        refused(plain_context().bf16_fused_gate_up_many_buffer(&qkv[1..], 2, 8)),
        "batched fused projection is disabled; set SI_VERIFY_MANY=1"
    );
    let bytes = [0_u8; 16];
    let matrix = info("BF16", vec![2, 4]);
    let tensor = TensorView { info: &matrix, bytes: &bytes, backing: &bytes };
    let bound = [Ok(bf16(16)), Ok(bf16(16)), Ok(bf16(16))];
    let plan = context
        .bf16_fused_qkv_many_tensors(&[&tensor, &tensor, &tensor], &bound, 2, 8)
        .unwrap();
    assert_eq!(plan.outputs, vec![2; 6]);
    assert_eq!(
        refused(context.bf16_fused_qkv_many_tensors(&[&tensor], &bound[1..2], 2, 8)),
        "batched fused QKV requires exactly three tensors"
    );
    assert_eq!(
        refused(context.bf16_fused_gate_up_many_tensors(&[&tensor], &bound[1..2], 2, 8)),
        "batched fused gate/up requires exactly two tensors"
    );
}

#[test]
fn embedding_rows_lie_inside_their_tensor() {
    let context = context();
    let bytes = [0_u8; 288];
    let plan = context.q4_k_embedding_row(&bytes[..144], 256).unwrap();
    assert_eq!(plan.profile, profile(144, 0, 1024, true));
    assert_eq!(
        plan.command.unwrap(),
        vec![launch(
            Kernel::Q4KEmbeddingRow,
            Constants::One(256),
            Grid::Threads(256),
            Threads::AtMost(256),
        )]
    );
    assert_eq!(
        refused(context.q4_k_embedding_row(&bytes, 100)),
        "Q4_K embedding dimension is invalid"
    );
    assert_eq!(
        refused(context.q4_k_embedding_row(&bytes, 256)),
        "Q4_K embedding row byte length is invalid"
    );
    let table = gguf_info(GGML_TYPE_Q4_K, vec![256, 2]);
    let tensor = GgufTensorView { info: &table, bytes: &bytes };
    let row = context.q4_k_embedding_tensor(&tensor, 1).unwrap();
    assert_eq!((row.start, row.end), (144, 288));
    assert_eq!(
        refused_slice(context.q4_k_embedding_tensor(&tensor, 2)),
        "Q4_K embedding token id or dimension is invalid"
    );
    let cut = GgufTensorView { info: &table, bytes: &bytes[..287] };
    assert_eq!(
        refused_slice(context.q4_k_embedding_tensor(&cut, 1)),
        "Q4_K embedding tensor payload is shorter than its shape"
    );
    let other = gguf_info(GGML_TYPE_Q6_K, vec![256, 2]);
    let other = GgufTensorView { info: &other, bytes: &bytes };
    assert_eq!(
        refused_slice(context.q4_k_embedding_tensor(&other, 1)),
        "Q4_K embedding requires a rank-2 Q4_K tensor"
    );
}

#[test]
fn bf16_embedding_rows_lie_inside_their_tensor() {
    let context = context();
    let bytes = [0_u8; 12];
    let plan = context.bf16_embedding_row(&bytes[..6], 3).unwrap();
    assert_eq!(plan.profile, profile(6, 0, 12, false));
    assert_eq!(plan.outputs, vec![3]);
    assert_eq!(
        refused(context.bf16_embedding_row(&bytes, 3)),
        "embedding row dimensions or byte length are invalid"
    );
    let table = info("BF16", vec![2, 3]);
    let tensor = TensorView { info: &table, bytes: &bytes, backing: &bytes };
    let row = context.bf16_embedding_tensor(&tensor, 1).unwrap();
    assert_eq!((row.start, row.end), (6, 12));
    assert_eq!(
        refused_slice(context.bf16_embedding_tensor(&tensor, 2)),
        "embedding token id exceeds vocabulary"
    );
    let cut = TensorView { info: &table, bytes: &bytes[..11], backing: &bytes };
    assert_eq!(
        refused_slice(context.bf16_embedding_tensor(&cut, 1)),
        "embedding tensor bytes are shorter than its shape"
    );
    let row = context.bf16_embedding_tensor_buffer(&tensor, &bf16(12), 1).unwrap();
    assert_eq!((row.start, row.end), (6, 12));
    assert_eq!(
        refused_slice(context.bf16_embedding_tensor_buffer(&tensor, &bf16(11), 1)),
        "resident embedding weight has an invalid byte length"
    );
    let vector = info("BF16", vec![6]);
    let vector = TensorView { info: &vector, bytes: &bytes, backing: &bytes };
    assert_eq!(
        refused_slice(context.bf16_embedding_tensor(&vector, 1)),
        "embedding requires a rank-2 BF16 tensor"
    );
}

#[test]
fn accepted_plans_leave_their_profile() {
    let mut context = context();
    let plan = context.f32_matvec(6, 2, 3, 3).unwrap();
    assert_eq!(
        context.accept(plan, false).unwrap_err(),
        "Metal could not bind the mapped F32 weight values"
    );
    assert_eq!(context.peak_active_weight_bytes(), 0);
    let plan = context.f32_matvec(6, 2, 3, 3).unwrap();
    assert_eq!(context.accept(plan, true).unwrap().len(), 1);
    assert_eq!(context.peak_active_weight_bytes(), 24);
    assert_eq!(context.peak_allocated_bytes(), 20);
    assert_eq!(context.peak_scratch_bytes(), 20);
    assert_eq!(context.finish_command("F32 matvec command", CommandStatus::Completed, 3), Ok(()));
    assert_eq!(
        context.finish_command("F32 matvec command", CommandStatus::Error, 4).unwrap_err(),
        "Metal F32 matvec command failed: Error"
    );
    assert_eq!(context.command_stats().submitted, 2);
    assert_eq!(context.command_stats().wait_nanos, 7);
    let mut pending = context.submit_async(vec![2]);
    pending.note_status(CommandStatus::Completed);
    assert_eq!(context.wait(pending, 5).unwrap(), vec![2]);
    assert_eq!(context.command_stats().async_submitted, 1);
    assert_eq!(context.command_stats().waited, 3);
}

#[test]
fn fused_projections_match_separate_products() {
    let context = context();
    let matrices = [(bf16(48), 6, 4), (bf16(16), 2, 4), (bf16(16), 2, 4)];
    let fused = context.bf16_fused_qkv_buffer(&matrices, 4).unwrap();
    let separate = context.bf16_matvec_many_buffer(&matrices, 4).unwrap();
    assert_eq!(fused.outputs, separate.outputs);
    assert_eq!(fused.buffers, separate.buffers);
    assert_eq!(fused.profile, separate.profile);
}

#[test]
fn bound_bytes_match_the_retained_weight() {
    let context = context();
    let bytes = [0_u8; 12];
    for (rows, columns) in [(2, 3), (3, 2), (2, 2), (usize::MAX, 3), (0, 3)] {
        let weight = map_bf16_weight(&bytes, 1, 12).unwrap();
        let upload = context.bf16_matvec(&bytes, rows, columns, 3, 1, 12);
        let retained = context.bf16_matvec_buffer(&weight, rows, columns, 3);
        match (upload, retained) {
            (Ok(upload), Ok(retained)) => {
                assert_eq!(upload.command, retained.command);
                assert_eq!(upload.profile, retained.profile);
                assert_eq!(upload.outputs, retained.outputs);
            }
            (Err(upload), Err(retained)) => assert_eq!(upload, retained),
            _ => panic!("one was refused and the other was not"),
        }
    }
}

#[test]
fn plans_say_how_they_are_wired() {
    let context = context();
    let chained = context.chained_qkv_attention_o_buffers(chained_request()).unwrap();
    assert_eq!(chained.wiring, Wiring::Chained);
    assert_eq!(chained.command.unwrap().len(), 7);
    let conv = context.causal_conv1d_step(3, 6, 9, 3, 3).unwrap();
    assert_eq!(conv.wiring, Wiring::Stateful(2));
    let delta = context.gated_delta_step(delta_input(), &switches()).unwrap();
    assert_eq!(delta.wiring, Wiring::Stateful(5));
    let matrices = [(bf16(48), 6, 4), (bf16(16), 2, 4), (bf16(16), 2, 4)];
    assert_eq!(context.bf16_fused_qkv_buffer(&matrices, 4).unwrap().wiring, Wiring::Alone);
    assert_eq!(context.bf16_matvec_many_buffer(&matrices, 4).unwrap().wiring, Wiring::Group);
    let many = context.bf16_fused_qkv_many_buffer(&matrices, 2, 8).unwrap();
    assert_eq!(many.wiring, Wiring::Batch(2));
}

#[test]
fn projections_are_submitted_as_pending() {
    let mut context = context();
    let matrices = [(bf16(48), 6, 4), (bf16(16), 2, 4), (bf16(16), 2, 4)];
    let fused = context.bf16_fused_qkv_buffer(&matrices, 4).unwrap();
    assert_eq!(fused.submission, Submission::Pending);
    let separate = context.bf16_matvec_many_buffer(&matrices, 4).unwrap();
    assert_eq!(separate.submission, Submission::Pending);
    let rope = context.rope(12, 3, 4, 7, 9).unwrap();
    assert_eq!(rope.submission, Submission::AtOnce);
    let many = context.bf16_fused_qkv_many_buffer(&matrices, 2, 8).unwrap();
    assert_eq!(many.submission, Submission::AtOnce);
    context
        .finish_plan(fused.submission, &fused.operation, CommandStatus::Completed, 3)
        .unwrap();
    context
        .finish_plan(rope.submission, &rope.operation, CommandStatus::Completed, 4)
        .unwrap();
    assert_eq!(
        context
            .finish_plan(separate.submission, &separate.operation, CommandStatus::Error, 5)
            .unwrap_err(),
        "Metal command failed: Error"
    );
    let stats = context.command_stats();
    assert_eq!((stats.submitted, stats.async_submitted), (3, 2));
    assert_eq!((stats.waited, stats.wait_nanos), (3, 12));
}

#[test]
fn fused_mlps_launch_the_separate_steps() {
    let gate = quantized(GGML_TYPE_Q4_K, 256 * 144);
    let down = quantized(GGML_TYPE_Q6_K, 420);
    let plan = |switches: &Switches| {
        let fused = context()
            .gguf_quant_fused_mlp_weights(&gate, &gate, &down, 256, 256, 2, 256, switches)
            .unwrap();
        let gated = context()
            .q4_k_fused_gate_up_weights(&gate, &gate, 256, 256, 256, switches)
            .unwrap();
        let projected =
            context().gguf_quant_matvec_weight(&down, 2, 256, 256, switches).unwrap();
        assert_eq!(fused.buffers, vec![gated.buffers[0], projected.buffers[0]]);
        assert_eq!(fused.outputs, projected.outputs);
        (fused.command.unwrap(), gated.command.unwrap(), projected.command.unwrap())
    };
    for rows4 in [false, true] {
        let (fused, gated, projected) = plan(&Switches { rows4, ..switches() });
        assert_eq!(fused, vec![gated[0], projected[0]]);
    }
    let wide = Switches { rows4x128: true, rows4x128_q6: true, ..switches() };
    let (fused, gated, projected) = plan(&wide);
    assert_eq!(fused[0], gated[0]);
    assert_eq!(fused[1].kernel, Kernel::Q6KMatvec);
    assert_eq!(projected[0].kernel, Kernel::Q6KMatvecRows4x128);
}

#[test]
fn batched_projections_put_out_the_batched_products() {
    let matrices = [(bf16(12), 2, 3), (bf16(6), 1, 3), (bf16(24), 4, 3)];
    let fused = context().bf16_fused_qkv_many_buffer(&matrices, 2, 6).unwrap();
    let mut weights = 0;
    for (index, (weight, rows, columns)) in matrices.iter().enumerate() {
        let product =
            context().bf16_matmul_many_buffer(weight, *rows, *columns, 2, 6).unwrap();
        assert_eq!(product.buffers, vec![fused.buffers[index]]);
        assert_eq!(product.outputs, fused.outputs[2 * index..2 * index + 2].to_vec());
        weights += product.profile.weights;
        for candidate in 0..2 {
            let (slot, start) = fused.wiring.place(2 * index + candidate, *rows);
            assert_eq!(slot, Slot::Buffer(index));
            assert_eq!(product.wiring.place(candidate, *rows), (Slot::Buffer(0), start));
        }
    }
    assert_eq!(fused.profile, profile(weights, 0, 24 + 16 + 8 + 32, false));
}

fn held(buffer: u64, offset: u64) -> Operand {
    Operand::Held(Place { buffer, offset })
}

#[test]
fn chained_steps_take_their_matrices_first() {
    let mut request = chained_request();
    for (number, matrix) in
        [&mut request.q, &mut request.k, &mut request.v, &mut request.o].into_iter().enumerate()
    {
        matrix.0.buffer = number as u64;
        matrix.0.offset = 10 * number as u64;
    }
    let plan = context().chained_qkv_attention_o_buffers(request).unwrap();
    assert_eq!(
        plan.operands(&request.places()),
        vec![
            held(0, 0),
            held(1, 10),
            held(2, 20),
            held(3, 30),
            Operand::Host(Source::Weights(4)),
            Operand::Host(Source::Weights(5)),
            Operand::Host(Source::Input),
            Operand::Host(Source::KeyCache),
            Operand::Host(Source::ValueCache),
        ]
    );
}

#[test]
fn groups_and_mlps_take_the_vector_last() {
    let input = Operand::Host(Source::Input);
    let matrices = [
        (Bf16Weight { buffer: 4, offset: 2, ..bf16(12) }, 2, 3),
        (Bf16Weight { buffer: 5, offset: 6, ..bf16(6) }, 1, 3),
    ];
    let places = places_of_matrices(&matrices);
    let plan = context().bf16_matvec_many_buffer(&matrices, 3).unwrap();
    assert_eq!(plan.operands(&places), vec![held(4, 2), held(5, 6), input]);
    let plan = context().bf16_fused_gate_up_buffer(&matrices, 3).unwrap();
    assert_eq!(plan.operands(&places), vec![held(4, 2), held(5, 6), input]);
    let gate = QuantWeight { buffer: 7, offset: 1, ..quantized(GGML_TYPE_Q4_K, 256 * 144) };
    let down = QuantWeight { buffer: 8, offset: 3, ..quantized(GGML_TYPE_Q6_K, 420) };
    let weights = [(gate, 256, 256), (gate, 256, 256), (down, 2, 256)];
    let plan = context()
        .gguf_quant_fused_mlp_weights(&gate, &gate, &down, 256, 256, 2, 256, &switches())
        .unwrap();
    assert_eq!(
        plan.operands(&places_of_weights(&weights)),
        vec![held(7, 1), held(7, 1), held(8, 3), input]
    );
    let plan = context()
        .gguf_quant_matvec_many_weights(&weights[..2], 256, &switches())
        .unwrap();
    assert_eq!(
        plan.operands(&places_of_weights(&weights[..2])),
        vec![held(7, 1), held(7, 1), input]
    );
}

#[test]
fn steps_without_held_weights_take_all_from_the_host() {
    let host = |sources: Vec<Source>| -> Vec<Operand> {
        sources.into_iter().map(Operand::Host).collect()
    };
    let plan = context().rms_norm(2, 2, EPSILON).unwrap();
    assert_eq!(plan.operands(&[]), host(vec![Source::Input, Source::Weights(0)]));
    let plan = context().attention_decode(decode_input()).unwrap();
    assert_eq!(
        plan.operands(&[]),
        host(vec![
            Source::Queries,
            Source::KeyCache,
            Source::ValueCache,
            Source::Keys,
            Source::Values,
        ])
    );
    let plan = context().gated_delta_step(delta_input(), &switches()).unwrap();
    assert_eq!(
        plan.operands(&[]),
        host(vec![
            Source::Queries,
            Source::Keys,
            Source::Values,
            Source::Gate,
            Source::Beta,
            Source::State,
        ])
    );
}

#[test]
fn embedding_rows_are_held_behind_the_table() {
    let bytes = [0_u8; 12];
    let table = info("BF16", vec![3, 2]);
    let table = TensorView { info: &table, bytes: &bytes, backing: &bytes };
    let weight = Bf16Weight { offset: 100, ..bf16(12) };
    let slice = context().bf16_embedding_tensor_buffer(&table, &weight, 2).unwrap();
    assert_eq!(weight.place_behind(slice.start), Place { buffer: 1, offset: 108 });
    assert_eq!(
        slice.plan.operands(&[weight.place_behind(slice.start)]),
        vec![held(1, 108)]
    );
}
