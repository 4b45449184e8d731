//! Plans for attention over a cache, alone and chained with its projections.
use vstd::prelude::*;

use super::context::MetalContext;
use super::fused;
use super::kernel::{Constants, Dispatch, Grid, Kernel, Threads};
use super::matvec;
use super::norm;
use super::plan;
use super::plan::{Plan, PlanView, Profile};
use super::validate;
use super::weights;
use super::weights::Bf16Weight;
use super::stats::Submission;
use super::wiring;
use super::wiring::Wiring;
use crate::cache::{CacheState, KvCache};
use crate::tensor;
use crate::tensor::TensorView;
use crate::text;

verus! {

/// The number of values in each input of a decoding step, and its dimensions.
#[derive(Debug, Clone, Copy, PartialEq, Eq, Structural)]
pub struct AttentionDecodeInput {
    pub query: usize,
    pub key_cache: usize,
    pub value_cache: usize,
    pub new_keys: usize,
    pub new_values: usize,
    pub query_heads: usize,
    pub key_value_heads: usize,
    pub head_dim: usize,
    pub cached_tokens: usize,
    pub cache_capacity_tokens: usize,
}

/// The dimensions of a chained attention step; the two floating-point
/// parameters stand as their bits.
#[derive(Debug, Clone, Copy, PartialEq, Eq, Structural)]
pub struct ChainedAttentionConfig {
    pub query_heads: usize,
    pub key_value_heads: usize,
    pub head_dim: usize,
    pub cached_tokens: usize,
    pub cache_capacity_tokens: usize,
    pub position: usize,
    pub rope_theta: u32,
    pub epsilon: u32,
}

/// The weights of a chained attention step with their rows and columns, the
/// lengths of the normalization weights in bytes, and the number of values in
/// the input and in the caches.
#[derive(Debug, Clone, Copy)]
pub struct ChainedAttentionBufferRequest {
    pub q: (Bf16Weight, usize, usize),
    pub k: (Bf16Weight, usize, usize),
    pub v: (Bf16Weight, usize, usize),
    pub o: (Bf16Weight, usize, usize),
    pub q_norm_bytes: usize,
    pub k_norm_bytes: usize,
    pub input: usize,
    pub key_cache: usize,
    pub value_cache: usize,
    pub config: ChainedAttentionConfig,
}

/// The tensors of a chained attention step and what came of binding them.
pub struct ChainedAttentionTensorRequest<'a, 'b> {
    pub q_tensor: &'a TensorView<'b>,
    pub k_tensor: &'a TensorView<'b>,
    pub v_tensor: &'a TensorView<'b>,
    pub o_tensor: &'a TensorView<'b>,
    pub q_weight: Result<Bf16Weight, String>,
    pub k_weight: Result<Bf16Weight, String>,
    pub v_weight: Result<Bf16Weight, String>,
    pub o_weight: Result<Bf16Weight, String>,
    pub q_norm_bytes: usize,
    pub k_norm_bytes: usize,
    pub input: usize,
    pub key_cache: usize,
    pub value_cache: usize,
    pub config: ChainedAttentionConfig,
}

/// The launch that attends over cached and new tokens. The kernel takes one
/// more constant, the inverse square root of the head dimension.
pub open spec fn attention_launch(
    query_heads: int,
    key_value_heads: int,
    head_dim: int,
    cached: int,
    capacity: int,
) -> Result<Dispatch, Seq<char>> {
    if query_heads > u32::MAX {
        Err("query head count exceeds Metal limits"@)
    } else if key_value_heads > u32::MAX {
        Err("KV head count exceeds Metal limits"@)
    } else if head_dim > u32::MAX {
        Err("head dimension exceeds Metal limits"@)
    } else if cached > u32::MAX {
        Err("cached token count exceeds Metal limits"@)
    } else if capacity > u32::MAX {
        Err("KV-cache capacity exceeds Metal limits"@)
    } else {
        Ok(
            Dispatch {
                kernel: Kernel::AttentionDecode,
                constants: Constants::Five(
                    query_heads as u32,
                    key_value_heads as u32,
                    head_dim as u32,
                    cached as u32,
                    capacity as u32,
                ),
                grid: Grid::Threads(query_heads as u64),
                threads: Threads::AtMost(query_heads as u64),
            },
        )
    }
}

fn plan_attention(
    query_heads: usize,
    key_value_heads: usize,
    head_dim: usize,
    cached: usize,
    capacity: usize,
) -> (launch: Result<Dispatch, String>)
    ensures
        text::outcome(launch) == attention_launch(
            query_heads as int,
            key_value_heads as int,
            head_dim as int,
            cached as int,
            capacity as int,
        ),
{
    if query_heads as u64 > 0xffff_ffff {
        return Err("query head count exceeds Metal limits".to_owned());
    }
    if key_value_heads as u64 > 0xffff_ffff {
        return Err("KV head count exceeds Metal limits".to_owned());
    }
    if head_dim as u64 > 0xffff_ffff {
        return Err("head dimension exceeds Metal limits".to_owned());
    }
    if cached as u64 > 0xffff_ffff {
        return Err("cached token count exceeds Metal limits".to_owned());
    }
    if capacity as u64 > 0xffff_ffff {
        return Err("KV-cache capacity exceeds Metal limits".to_owned());
    }
    Ok(
        Dispatch {
            kernel: Kernel::AttentionDecode,
            constants: Constants::Five(
                query_heads as u32,
                key_value_heads as u32,
                head_dim as u32,
                cached as u32,
                capacity as u32,
            ),
            grid: Grid::Threads(query_heads as u64),
            threads: Threads::AtMost(query_heads as u64),
        },
    )
}

/// The bytes of a cache as the device holds it: an empty cache takes one value.
pub open spec fn cache_bytes(values: usize) -> u64 {
    plan::value_bytes(if values == 0 {
        1
    } else {
        values as int
    })
}

pub open spec fn attention_decode_plan(input: AttentionDecodeInput) -> Result<PlanView, Seq<char>> {
    let query_len = input.query_heads * input.head_dim;
    let new_len = input.key_value_heads * input.head_dim;
    let cache_len = new_len * input.cache_capacity_tokens;
    if input.query_heads == 0 || input.key_value_heads == 0 || input.head_dim == 0
        || input.query_heads % input.key_value_heads != 0 {
        Err("attention head dimensions are invalid"@)
    } else if query_len > usize::MAX {
        Err("attention query dimensions overflow"@)
    } else if new_len > usize::MAX {
        Err("attention key/value dimensions overflow"@)
    } else if input.query != query_len || input.new_keys != new_len || input.new_values
        != new_len {
        Err("attention query or new key/value lengths are invalid"@)
    } else if input.cached_tokens > input.cache_capacity_tokens {
        Err("attention cached token count exceeds cache capacity"@)
    } else if cache_len > usize::MAX {
        Err("attention cache dimensions overflow"@)
    } else if input.key_cache != cache_len || input.value_cache != cache_len {
        Err("attention cache dimensions are invalid"@)
    } else {
        Ok(
            plan::single_output(
                Profile {
                    weights: 0,
                    state: plan::plus(
                        cache_bytes(input.key_cache),
                        cache_bytes(input.value_cache),
                    ),
                    scratch: plan::total(
                        seq![
                            plan::value_bytes(input.query as int),
                            plan::value_bytes(input.new_keys as int),
                            plan::value_bytes(input.new_values as int),
                            plan::value_bytes(query_len),
                        ],
                    ),
                    mapped: false,
                },
                ""@,
                norm::launch_of(
                    attention_launch(
                        input.query_heads as int,
                        input.key_value_heads as int,
                        input.head_dim as int,
                        input.cached_tokens as int,
                        input.cache_capacity_tokens as int,
                    ),
                ),
                input.query,
                "command"@,
            ),
        )
    }
}

/// The shape of a chained projection that reads the input.
pub open spec fn chained_projection(matrix: (Bf16Weight, usize, usize), input: usize) -> Result<
    (),
    Seq<char>,
> {
    let (weight, rows, columns) = matrix;
    if rows * columns > usize::MAX || rows * columns * 2 > usize::MAX {
        Err("chained projection dimensions overflow"@)
    } else if rows == 0 || columns == 0 || columns != input || weight.bytes != rows * columns * 2 {
        Err("chained projection dimensions or byte length are invalid"@)
    } else {
        Ok(())
    }
}

/// The first complaint about a chained request, if there is one.
pub open spec fn chained_check(request: ChainedAttentionBufferRequest) -> Result<(), Seq<char>> {
    let config = request.config;
    let q_rows = config.query_heads * config.head_dim;
    let kv_rows = config.key_value_heads * config.head_dim;
    let cache_len = kv_rows * config.cache_capacity_tokens;
    let (o_weight, o_rows, o_columns) = request.o;
    if config.query_heads == 0 || config.key_value_heads == 0 || config.head_dim == 0
        || config.query_heads % config.key_value_heads != 0 || request.q_norm_bytes
        != config.head_dim * 2 || request.k_norm_bytes != config.head_dim * 2
        || config.cached_tokens >= config.cache_capacity_tokens {
        Err("chained attention dimensions are invalid"@)
    } else if q_rows > usize::MAX {
        Err("chained Q dimensions overflow"@)
    } else if kv_rows > usize::MAX {
        Err("chained KV dimensions overflow"@)
    } else if cache_len > usize::MAX {
        Err("chained cache dimensions overflow"@)
    } else if request.key_cache != cache_len || request.value_cache != cache_len {
        Err("chained cache dimensions are invalid"@)
    } else if chained_projection(request.q, request.input) is Err {
        chained_projection(request.q, request.input)
    } else if chained_projection(request.k, request.input) is Err {
        chained_projection(request.k, request.input)
    } else if chained_projection(request.v, request.input) is Err {
        chained_projection(request.v, request.input)
    } else if o_rows * o_columns > usize::MAX || o_rows * o_columns * 2 > usize::MAX {
        Err("chained output projection dimensions overflow"@)
    } else if o_rows == 0 || o_rows != request.input || o_columns != q_rows || o_weight.bytes
        != o_rows * o_columns * 2 || request.q.1 != q_rows || request.k.1 != kv_rows || request.v.1
        != kv_rows {
        Err("chained projection shapes do not match attention dimensions"@)
    } else {
        Ok(())
    }
}

/// The launch that projects the input to queries, keys and values.
pub open spec fn chained_qkv_launch(request: ChainedAttentionBufferRequest) -> Result<
    Dispatch,
    Seq<char>,
> {
    if request.q.2 > u32::MAX {
        Err("chained QKV columns exceed Metal limits"@)
    } else if request.q.1 > u32::MAX {
        Err("chained Q rows exceed Metal limits"@)
    } else if request.k.1 > u32::MAX {
        Err("chained K rows exceed Metal limits"@)
    } else if request.v.1 > u32::MAX {
        Err("chained V rows exceed Metal limits"@)
    } else {
        Ok(
            Dispatch {
                kernel: Kernel::Bf16FusedQkv,
                constants: Constants::Four(
                    request.q.2 as u32,
                    request.q.1 as u32,
                    request.k.1 as u32,
                    request.v.1 as u32,
                ),
                grid: Grid::Groups((request.q.1 + request.k.1 + request.v.1) as u64),
                threads: Threads::AtMost(128),
            },
        )
    }
}

/// The launch that rotates heads, where their sizes fit the kernel.
pub open spec fn chained_rope_launch(heads: int, head_dim: int, position: int, theta: u32) -> Result<
    Dispatch,
    Seq<char>,
> {
    if heads > u32::MAX {
        Err("RoPE head count exceeds Metal limits"@)
    } else if head_dim > u32::MAX {
        Err("RoPE dimension exceeds Metal limits"@)
    } else if position > u32::MAX {
        Err("RoPE position exceeds Metal limits"@)
    } else {
        Ok(norm::rope_launch(heads as u32, head_dim as u32, position as u32, theta))
    }
}

/// The launch that multiplies a BF16 matrix by a vector.
pub open spec fn bf16_matvec_launch(rows: int, columns: int) -> Result<Dispatch, Seq<char>> {
    plan::matrix_launch(
        Kernel::Bf16Matvec,
        columns,
        rows,
        "matvec columns exceed Metal limits"@,
        "matvec rows exceed Metal limits"@,
        rows as u64,
        128,
    )
}

/// The launch that multiplies a BF16 matrix by a vector.
pub fn plan_bf16_matvec(rows: usize, columns: usize) -> (launch: Result<Dispatch, String>)
    ensures
        text::outcome(launch) == bf16_matvec_launch(rows as int, columns as int),
{
    plan::plan_matrix(
        Kernel::Bf16Matvec,
        columns,
        rows,
        "matvec columns exceed Metal limits",
        "matvec rows exceed Metal limits",
        rows as u64,
        128,
    )
}

/// The launches of a chained step: projection, normalization of queries and
/// keys, their rotation, attention and output projection.
pub open spec fn chained_launches(request: ChainedAttentionBufferRequest) -> Seq<
    Result<Dispatch, Seq<char>>,
> {
    let config = request.config;
    let query_heads = config.query_heads as int;
    let key_value_heads = config.key_value_heads as int;
    let head_dim = config.head_dim as int;
    seq![
        chained_qkv_launch(request),
        norm::bf16_heads_launch(query_heads, head_dim, config.epsilon),
        norm::bf16_heads_launch(key_value_heads, head_dim, config.epsilon),
        chained_rope_launch(query_heads, head_dim, config.position as int, config.rope_theta),
        chained_rope_launch(key_value_heads, head_dim, config.position as int, config.rope_theta),
        attention_launch(
            query_heads,
            key_value_heads,
            head_dim,
            config.cached_tokens as int,
            config.cache_capacity_tokens as int,
        ),
        bf16_matvec_launch(request.o.1 as int, request.o.2 as int),
    ]
}

/// The buffers of a chained step: queries, keys and values, both normalized
/// and both rotated, what was attended, and what was projected.
pub open spec fn chained_buffers(request: ChainedAttentionBufferRequest) -> Seq<u64> {
    let q = plan::value_bytes(request.q.1 as int);
    let kv = plan::value_bytes(request.k.1 as int);
    seq![q, kv, kv, q, kv, q, kv, q, plan::value_bytes(request.o.1 as int)]
}

/// The scratch memory of a chained step.
pub open spec fn chained_scratch(request: ChainedAttentionBufferRequest) -> u64 {
    plan::total(
        seq![
            plan::value_bytes(request.input as int),
            request.q_norm_bytes as u64,
            request.k_norm_bytes as u64,
            plan::value_bytes(request.key_cache as int),
            plan::value_bytes(request.value_cache as int),
        ] + chained_buffers(request),
    )
}

pub open spec fn chained_plan(request: ChainedAttentionBufferRequest) -> Result<
    PlanView,
    Seq<char>,
> {
    match chained_check(request) {
        Err(message) => Err(message),
        Ok(()) => Ok(
            PlanView {
                profile: weights::weights_profile(
                    seq![request.q.0, request.k.0, request.v.0, request.o.0],
                    chained_scratch(request),
                ),
                unbound: ""@,
                command: text::collected(chained_launches(request)),
                wiring: Wiring::Chained,
                submission: Submission::AtOnce,
                buffers: chained_buffers(request),
                outputs: seq![request.o.1, request.k.1, request.v.1],
                operation: "chained attention command"@,
            },
        ),
    }
}

fn check_chained_projection(matrix: (Bf16Weight, usize, usize), input: usize) -> (result: Result<
    (),
    String,
>)
    ensures
        text::outcome(result) == chained_projection(matrix, input),
{
    let (weight, rows, columns) = matrix;
    let expected: usize = match super::validate::checked_bf16_bytes(rows, columns) {
        Some(bytes) => bytes,
        None => {
            return Err("chained projection dimensions overflow".to_owned());
        },
    };
    if rows == 0 || columns == 0 || columns != input || weight.bytes != expected as u64 {
        return Err("chained projection dimensions or byte length are invalid".to_owned());
    }
    Ok(())
}

fn check_chained(request: &ChainedAttentionBufferRequest) -> (result: Result<(), String>)
    ensures
        text::outcome(result) == chained_check(*request),
{
    let config = request.config;
    if config.query_heads == 0 || config.key_value_heads == 0 || config.head_dim == 0
        || config.query_heads % config.key_value_heads != 0 || request.q_norm_bytes % 2 != 0
        || request.q_norm_bytes / 2 != config.head_dim || request.k_norm_bytes % 2 != 0
        || request.k_norm_bytes / 2 != config.head_dim || config.cached_tokens
        >= config.cache_capacity_tokens {
        return Err("chained attention dimensions are invalid".to_owned());
    }
    let q_rows: usize = match config.query_heads.checked_mul(config.head_dim) {
        Some(rows) => rows,
        None => {
            return Err("chained Q dimensions overflow".to_owned());
        },
    };
    let kv_rows: usize = match config.key_value_heads.checked_mul(config.head_dim) {
        Some(rows) => rows,
        None => {
            return Err("chained KV dimensions overflow".to_owned());
        },
    };
    let cache_len: usize = match kv_rows.checked_mul(config.cache_capacity_tokens) {
        Some(length) => length,
        None => {
            return Err("chained cache dimensions overflow".to_owned());
        },
    };
    if request.key_cache != cache_len || request.value_cache != cache_len {
        return Err("chained cache dimensions are invalid".to_owned());
    }
    match check_chained_projection(request.q, request.input) {
        Ok(()) => {},
        Err(message) => {
            return Err(message);
        },
    }
    match check_chained_projection(request.k, request.input) {
        Ok(()) => {},
        Err(message) => {
            return Err(message);
        },
    }
    match check_chained_projection(request.v, request.input) {
        Ok(()) => {},
        Err(message) => {
            return Err(message);
        },
    }
    let (o_weight, o_rows, o_columns) = request.o;
    let o_bytes: usize = match super::validate::checked_bf16_bytes(o_rows, o_columns) {
        Some(bytes) => bytes,
        None => {
            return Err("chained output projection dimensions overflow".to_owned());
        },
    };
    if o_rows == 0 || o_rows != request.input || o_columns != q_rows || o_weight.bytes
        != o_bytes as u64 || request.q.1 != q_rows || request.k.1 != kv_rows || request.v.1
        != kv_rows {
        return Err("chained projection shapes do not match attention dimensions".to_owned());
    }
    Ok(())
}

fn plan_chained_qkv(request: &ChainedAttentionBufferRequest) -> (launch: Result<Dispatch, String>)
    ensures
        text::outcome(launch) == chained_qkv_launch(*request),
{
    if request.q.2 as u64 > 0xffff_ffff {
        return Err("chained QKV columns exceed Metal limits".to_owned());
    }
    if request.q.1 as u64 > 0xffff_ffff {
        return Err("chained Q rows exceed Metal limits".to_owned());
    }
    if request.k.1 as u64 > 0xffff_ffff {
        return Err("chained K rows exceed Metal limits".to_owned());
    }
    if request.v.1 as u64 > 0xffff_ffff {
        return Err("chained V rows exceed Metal limits".to_owned());
    }
    Ok(
        Dispatch {
            kernel: Kernel::Bf16FusedQkv,
            constants: Constants::Four(
                request.q.2 as u32,
                request.q.1 as u32,
                request.k.1 as u32,
                request.v.1 as u32,
            ),
            grid: Grid::Groups(request.q.1 as u64 + request.k.1 as u64 + request.v.1 as u64),
            threads: Threads::AtMost(128),
        },
    )
}

fn plan_chained_rope(heads: usize, head_dim: usize, position: usize, theta: u32) -> (launch: Result<
    Dispatch,
    String,
>)
    ensures
        text::outcome(launch) == chained_rope_launch(
            heads as int,
            head_dim as int,
            position as int,
            theta,
        ),
{
    if heads as u64 > 0xffff_ffff {
        return Err("RoPE head count exceeds Metal limits".to_owned());
    }
    if head_dim as u64 > 0xffff_ffff {
        return Err("RoPE dimension exceeds Metal limits".to_owned());
    }
    if position as u64 > 0xffff_ffff {
        return Err("RoPE position exceeds Metal limits".to_owned());
    }
    Ok(norm::plan_rope(heads as u32, head_dim as u32, position as u32, theta))
}

/// The first weight that could not be bound, or the request with the bound weights.
pub open spec fn bound_request(request: ChainedAttentionTensorRequest) -> Result<
    ChainedAttentionBufferRequest,
    Seq<char>,
> {
    match text::collected(
        seq![
            text::outcome(request.q_weight),
            text::outcome(request.k_weight),
            text::outcome(request.v_weight),
            text::outcome(request.o_weight),
        ],
    ) {
        Err(message) => Err(message),
        Ok(weights) => Ok(
            ChainedAttentionBufferRequest {
                q: (weights[0], request.q_tensor.info.shape@[0], request.q_tensor.info.shape@[1]),
                k: (weights[1], request.k_tensor.info.shape@[0], request.k_tensor.info.shape@[1]),
                v: (weights[2], request.v_tensor.info.shape@[0], request.v_tensor.info.shape@[1]),
                o: (weights[3], request.o_tensor.info.shape@[0], request.o_tensor.info.shape@[1]),
                q_norm_bytes: request.q_norm_bytes,
                k_norm_bytes: request.k_norm_bytes,
                input: request.input,
                key_cache: request.key_cache,
                value_cache: request.value_cache,
                config: request.config,
            },
        ),
    }
}

pub open spec fn chained_tensor_plan(request: ChainedAttentionTensorRequest) -> Result<
    PlanView,
    Seq<char>,
> {
    if !(tensor::is_bf16_matrix(*request.q_tensor.info) && tensor::is_bf16_matrix(
        *request.k_tensor.info,
    ) && tensor::is_bf16_matrix(*request.v_tensor.info) && tensor::is_bf16_matrix(
        *request.o_tensor.info,
    )) {
        Err("chained attention projections require rank-2 BF16 tensors"@)
    } else {
        match bound_request(request) {
            Err(message) => Err(message),
            Ok(bound) => chained_plan(bound),
        }
    }
}

/// A cache is accepted as it stands by a query, keys and values of its
/// dimensions, whatever it holds.
pub proof fn law_cache_is_accepted(cache: CacheState, query_heads: usize)
    requires
        cache.wf(),
        cache.heads <= usize::MAX,
        cache.dim <= usize::MAX,
        cache.capacity <= usize::MAX,
        query_heads > 0,
        query_heads as int % cache.heads == 0,
        query_heads * cache.dim <= usize::MAX,
    ensures
        attention_decode_plan(
            AttentionDecodeInput {
                query: (query_heads * cache.dim) as usize,
                key_cache: cache.keys.len() as usize,
                value_cache: cache.values.len() as usize,
                new_keys: cache.token_len() as usize,
                new_values: cache.token_len() as usize,
                query_heads,
                key_value_heads: cache.heads as usize,
                head_dim: cache.dim as usize,
                cached_tokens: cache.cached as usize,
                cache_capacity_tokens: cache.capacity as usize,
            },
        ) is Ok,
{
    let token = cache.token_len();
    assert(0 < token <= token * cache.capacity) by (nonlinear_arith)
        requires
            token == cache.heads * cache.dim,
            cache.heads > 0,
            cache.dim > 0,
            cache.capacity > 0,
    ;
    assert(query_heads * cache.dim > 0) by (nonlinear_arith)
        requires
            query_heads > 0,
            cache.dim > 0,
    ;
}

/// The command of a chained step is made of the launches of its steps on
/// their own: the fused projection, the normalizations, the rotations,
/// attention and the output projection.
pub proof fn law_chained_is_separate_steps(request: ChainedAttentionBufferRequest)
    requires
        chained_plan(request) is Ok,
        chained_plan(request)->Ok_0.command is Ok,
        request.config.head_dim % 2 == 0,
    ensures
        ({
            let command = chained_plan(request)->Ok_0.command->Ok_0;
            let config = request.config;
            let queries = request.q.1;
            let keys = request.k.1;
            let attended = AttentionDecodeInput {
                query: queries,
                key_cache: request.key_cache,
                value_cache: request.value_cache,
                new_keys: keys,
                new_values: keys,
                query_heads: config.query_heads,
                key_value_heads: config.key_value_heads,
                head_dim: config.head_dim,
                cached_tokens: config.cached_tokens,
                cache_capacity_tokens: config.cache_capacity_tokens,
            };
            &&& command.len() == 7
            &&& launches_alone(
                fused::fused_plan(
                    fused::FusedProjection::Qkv,
                    seq![request.q, request.k, request.v],
                    request.input,
                ),
                command[0],
            )
            &&& launches_alone(
                norm::rms_norm_bf16_heads_plan(
                    queries,
                    request.q_norm_bytes as nat,
                    config.query_heads,
                    config.head_dim,
                    config.epsilon,
                ),
                command[1],
            )
            &&& launches_alone(
                norm::rms_norm_bf16_heads_plan(
                    keys,
                    request.k_norm_bytes as nat,
                    config.key_value_heads,
                    config.head_dim,
                    config.epsilon,
                ),
                command[2],
            )
            &&& launches_alone(
                norm::rope_plan(
                    queries,
                    config.query_heads,
                    config.head_dim,
                    config.position,
                    config.rope_theta,
                ),
                command[3],
            )
            &&& launches_alone(
                norm::rope_plan(
                    keys,
                    config.key_value_heads,
                    config.head_dim,
                    config.position,
                    config.rope_theta,
                ),
                command[4],
            )
            &&& launches_alone(attention_decode_plan(attended), command[5])
            &&& launches_alone(
                matvec::bf16_matvec_buffer_plan(request.o.0, request.o.1, request.o.2, queries),
                command[6],
            )
        }),
{
    let launches = chained_launches(request);
    let command = chained_plan(request)->Ok_0.command->Ok_0;
    text::lemma_collected_values(launches);
    let matrices = seq![request.q, request.k, request.v];
    let shapes = fused::matrix_shapes(matrices);
    let outcomes = shapes.map_values(
        |shape: (usize, usize)| validate::fused_shape(shape, request.input as int),
    );
    assert(shapes =~= seq![
        (request.q.1, request.q.2),
        (request.k.1, request.k.2),
        (request.v.1, request.v.2),
    ]);
    text::lemma_all_collected(outcomes);
    assert(launches[0] == Ok::<Dispatch, Seq<char>>(command[0]));
    assert(launches[1] == Ok::<Dispatch, Seq<char>>(command[1]));
    assert(launches[2] == Ok::<Dispatch, Seq<char>>(command[2]));
    assert(launches[3] == Ok::<Dispatch, Seq<char>>(command[3]));
    assert(launches[4] == Ok::<Dispatch, Seq<char>>(command[4]));
    assert(launches[5] == Ok::<Dispatch, Seq<char>>(command[5]));
    assert(launches[6] == Ok::<Dispatch, Seq<char>>(command[6]));
    let output = seq![(request.o.0, request.o.1, request.o.2)];
    text::lemma_all_collected(matvec::matrix_rows(output, request.q.1));
    text::lemma_all_collected(matvec::matrix_launches(output));
    text::lemma_collected_values(matvec::matrix_launches(output));
    let alone = text::collected(matvec::matrix_launches(output))->Ok_0;
    assert(matvec::matrix_launches(output)[0] == Ok::<Dispatch, Seq<char>>(alone[0]));
    assert(alone =~= seq![command[6]]);
}

/// The launches of a chained step can be connected as its plan says: each
/// reads what is given to the step or what an earlier launch has written.
pub proof fn law_chained_step_is_wired(request: ChainedAttentionBufferRequest)
    requires
        chained_plan(request) is Ok,
    ensures
        plan::is_wired(chained_plan(request)->Ok_0),
{
    let planned = chained_plan(request)->Ok_0;
    if planned.command is Ok {
        let launches = chained_launches(request);
        let command = planned.command->Ok_0;
        text::lemma_collected_values(launches);
        assert(launches[0] == Ok::<Dispatch, Seq<char>>(command[0]));
        assert(launches[1] == Ok::<Dispatch, Seq<char>>(command[1]));
        assert(launches[2] == Ok::<Dispatch, Seq<char>>(command[2]));
        assert(launches[3] == Ok::<Dispatch, Seq<char>>(command[3]));
        assert(launches[4] == Ok::<Dispatch, Seq<char>>(command[4]));
        assert(launches[5] == Ok::<Dispatch, Seq<char>>(command[5]));
        assert(launches[6] == Ok::<Dispatch, Seq<char>>(command[6]));
        assert(plan::kernels_of(command) =~= wiring::chained_kernels());
    }
}

/// Whether a step on its own consists of one launch.
pub open spec fn launches_alone(plan: Result<PlanView, Seq<char>>, dispatch: Dispatch) -> bool {
    plan is Ok && plan->Ok_0.command == Ok::<Seq<Dispatch>, Seq<char>>(seq![dispatch])
}

impl MetalContext {
    /// Plans attention of one query over cached and new tokens.
    pub fn attention_decode(&self, input: AttentionDecodeInput) -> (result: Result<Plan, String>)
        ensures
            text::outcome_view(result) == attention_decode_plan(input),
    {
        if input.query_heads == 0 || input.key_value_heads == 0 || input.head_dim == 0
            || input.query_heads % input.key_value_heads != 0 {
            return Err("attention head dimensions are invalid".to_owned());
        }
        let query_len: usize = match input.query_heads.checked_mul(input.head_dim) {
            Some(length) => length,
            None => {
                return Err("attention query dimensions overflow".to_owned());
            },
        };
        let new_len: usize = match input.key_value_heads.checked_mul(input.head_dim) {
            Some(length) => length,
            None => {
                return Err("attention key/value dimensions overflow".to_owned());
            },
        };
        if input.query != query_len || input.new_keys != new_len || input.new_values != new_len {
            return Err("attention query or new key/value lengths are invalid".to_owned());
        }
        if input.cached_tokens > input.cache_capacity_tokens {
            return Err("attention cached token count exceeds cache capacity".to_owned());
        }
        let cache_len: usize = match new_len.checked_mul(input.cache_capacity_tokens) {
            Some(length) => length,
            None => {
                return Err("attention cache dimensions overflow".to_owned());
            },
        };
        if input.key_cache != cache_len || input.value_cache != cache_len {
            return Err("attention cache dimensions are invalid".to_owned());
        }
        let key_cache: usize = if input.key_cache == 0 { 1 } else { input.key_cache };
        let value_cache: usize = if input.value_cache == 0 { 1 } else { input.value_cache };
        let parts: Vec<u64> = vec![
            plan::bytes_of_values(input.query),
            plan::bytes_of_values(input.new_keys),
            plan::bytes_of_values(input.new_values),
            plan::bytes_of_values(query_len),
        ];
        proof {
            assert(parts@ =~= seq![
                plan::value_bytes(input.query as int),
                plan::value_bytes(input.new_keys as int),
                plan::value_bytes(input.new_values as int),
                plan::value_bytes(query_len as int),
            ]);
        }
        let profile = Profile {
            weights: 0,
            state: plan::sum(
                plan::bytes_of_values(key_cache),
                plan::bytes_of_values(value_cache),
            ),
            scratch: plan::sum_all(&parts),
            mapped: false,
        };
        Ok(
            plan::plan_of(
                profile,
                "",
                norm::command_of(
                    plan_attention(
                        input.query_heads,
                        input.key_value_heads,
                        input.head_dim,
                        input.cached_tokens,
                        input.cache_capacity_tokens,
                    ),
                ),
                input.query,
                "command",
            ),
        )
    }

    /// Plans attention directly over a fixed-capacity cache.
    pub fn attention_decode_kv_cache(
        &self,
        query: usize,
        cache: &KvCache,
        new_keys: usize,
        new_values: usize,
        query_heads: usize,
    ) -> (result: Result<Plan, String>)
        requires
            cache@.wf(),
        ensures
            text::outcome_view(result) == attention_decode_plan(
                AttentionDecodeInput {
                    query,
                    key_cache: cache@.keys.len() as usize,
                    value_cache: cache@.values.len() as usize,
                    new_keys,
                    new_values,
                    query_heads,
                    key_value_heads: cache@.heads as usize,
                    head_dim: cache@.dim as usize,
                    cached_tokens: cache@.cached as usize,
                    cache_capacity_tokens: cache@.capacity as usize,
                },
            ),
    {
        self.attention_decode(
            AttentionDecodeInput {
                query,
                key_cache: cache.key_storage().len(),
                value_cache: cache.value_storage().len(),
                new_keys,
                new_values,
                query_heads,
                key_value_heads: cache.key_value_heads(),
                head_dim: cache.head_dim(),
                cached_tokens: cache.cached_tokens(),
                cache_capacity_tokens: cache.capacity_tokens(),
            },
        )
    }

    /// Plans projection, normalization, rotation, attention and output
    /// projection as one command.
    pub fn chained_qkv_attention_o_buffers(&self, request: ChainedAttentionBufferRequest) -> (result: Result<
        Plan,
        String,
    >)
        ensures
            text::outcome_view(result) == chained_plan(request),
    {
        match check_chained(&request) {
            Ok(()) => {},
            Err(message) => {
                return Err(message);
            },
        }
        let config = request.config;
        let q: u64 = plan::bytes_of_values(request.q.1);
        let kv: u64 = plan::bytes_of_values(request.k.1);
        let projected: u64 = plan::bytes_of_values(request.o.1);
        let buffers: Vec<u64> = vec![q, kv, kv, q, kv, q, kv, q, projected];
        let parts: Vec<u64> = vec![
            plan::bytes_of_values(request.input),
            request.q_norm_bytes as u64,
            request.k_norm_bytes as u64,
            plan::bytes_of_values(request.key_cache),
            plan::bytes_of_values(request.value_cache),
            q,
            kv,
            kv,
            q,
            kv,
            q,
            kv,
            q,
            projected,
        ];
        let read: Vec<Bf16Weight> = vec![request.q.0, request.k.0, request.v.0, request.o.0];
        let launches: Vec<Result<Dispatch, String>> = vec![
            plan_chained_qkv(&request),
            norm::plan_bf16_heads(config.query_heads, config.head_dim, config.epsilon),
            norm::plan_bf16_heads(config.key_value_heads, config.head_dim, config.epsilon),
            plan_chained_rope(
                config.query_heads,
                config.head_dim,
                config.position,
                config.rope_theta,
            ),
            plan_chained_rope(
                config.key_value_heads,
                config.head_dim,
                config.position,
                config.rope_theta,
            ),
            plan_attention(
                config.query_heads,
                config.key_value_heads,
                config.head_dim,
                config.cached_tokens,
                config.cache_capacity_tokens,
            ),
            plan_bf16_matvec(request.o.1, request.o.2),
        ];
        let outputs: Vec<usize> = vec![request.o.1, request.k.1, request.v.1];
        proof {
            assert(buffers@ =~= chained_buffers(request));
            assert(parts@ =~= seq![
                plan::value_bytes(request.input as int),
                request.q_norm_bytes as u64,
                request.k_norm_bytes as u64,
                plan::value_bytes(request.key_cache as int),
                plan::value_bytes(request.value_cache as int),
            ] + chained_buffers(request));
            assert(read@ =~= seq![request.q.0, request.k.0, request.v.0, request.o.0]);
            assert(plan::launch_views(launches@) =~= chained_launches(request));
            assert(outputs@ =~= seq![request.o.1, request.k.1, request.v.1]);
        }
        let scratch: u64 = plan::sum_all(&parts);
        Ok(
            Plan {
                profile: weights::profile_of_weights(&read, scratch),
                unbound: "".to_owned(),
                command: plan::collect_launches(&launches),
                wiring: Wiring::Chained,
                submission: Submission::AtOnce,
                buffers,
                outputs,
                operation: "chained attention command".to_owned(),
            },
        )
    }

    /// Plans a chained attention step over the tensors of a mapping, given
    /// what came of binding each of them.
    pub fn chained_qkv_attention_o_tensors(&self, request: ChainedAttentionTensorRequest<'_, '_>) -> (result: Result<
        Plan,
        String,
    >)
        ensures
            text::outcome_view(result) == chained_tensor_plan(request),
    {
        if !(request.q_tensor.info.has_bf16_matrix() && request.k_tensor.info.has_bf16_matrix()
            && request.v_tensor.info.has_bf16_matrix() && request.o_tensor.info.has_bf16_matrix()) {
            return Err("chained attention projections require rank-2 BF16 tensors".to_owned());
        }
        let ghost outcomes = seq![
            text::outcome(request.q_weight),
            text::outcome(request.k_weight),
            text::outcome(request.v_weight),
            text::outcome(request.o_weight),
        ];
        proof {
            assert(outcomes.take(0) =~= Seq::empty());
            text::lemma_collected_step(outcomes, 0);
            if outcomes[0] is Ok {
                text::lemma_collected_step(outcomes, 1);
                if outcomes[1] is Ok {
                    text::lemma_collected_step(outcomes, 2);
                    if outcomes[2] is Ok {
                        text::lemma_collected_step(outcomes, 3);
                    }
                }
            }
            assert(outcomes.take(4) =~= outcomes);
        }
        let q_weight = match &request.q_weight {
            Ok(weight) => *weight,
            Err(message) => {
                return Err(message.clone());
            },
        };
        let k_weight = match &request.k_weight {
            Ok(weight) => *weight,
            Err(message) => {
                return Err(message.clone());
            },
        };
        let v_weight = match &request.v_weight {
            Ok(weight) => *weight,
            Err(message) => {
                return Err(message.clone());
            },
        };
        let o_weight = match &request.o_weight {
            Ok(weight) => *weight,
            Err(message) => {
                return Err(message.clone());
            },
        };
        let q_shape = &request.q_tensor.info.shape;
        let k_shape = &request.k_tensor.info.shape;
        let v_shape = &request.v_tensor.info.shape;
        let o_shape = &request.o_tensor.info.shape;
        self.chained_qkv_attention_o_buffers(
            ChainedAttentionBufferRequest {
                q: (q_weight, q_shape[0], q_shape[1]),
                k: (k_weight, k_shape[0], k_shape[1]),
                v: (v_weight, v_shape[0], v_shape[1]),
                o: (o_weight, o_shape[0], o_shape[1]),
                q_norm_bytes: request.q_norm_bytes,
                k_norm_bytes: request.k_norm_bytes,
                input: request.input,
                key_cache: request.key_cache,
                value_cache: request.value_cache,
                config: request.config,
            },
        )
    }
}

} // verus!
