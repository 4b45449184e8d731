//! The kernels, how they are launched, and which of them are loaded.
use vstd::prelude::*;

verus! {

/// The compute kernels.
#[derive(Debug, Clone, Copy, PartialEq, Eq, Structural)]
pub enum Kernel {
    RmsNorm,
    RmsNormBf16Heads,
    Bf16Matvec,
    F32Matvec,
    Q4KMatvec,
    Q4KMatvecRows4,
    Q4KMatvecRows4x128,
    Q4KMatmulMany,
    Q4KFusedGateUp,
    Q4KEmbeddingRow,
    Q5KMatvec,
    Q5KMatvecRows4,
    Q5KMatmulMany,
    Q6KMatvec,
    Q6KMatvecRows4,
    Q6KMatvecRows4x128,
    Q6KMatmulMany,
    GatedDeltaStep,
    GatedDeltaStepParallel,
    CausalConv1dStep,
    RmsNormGated,
    RmsNormHeads,
    Bf16BitpackMatvec,
    Bf16MatmulMany,
    Bf16FusedQkvMany,
    Bf16FusedGateUpMany,
    Bf16FusedQkv,
    Bf16FusedGateUp,
    Bf16EmbeddingRow,
    Rope,
    AttentionDecode,
}

/// The name of a kernel's function in the shader source.
pub open spec fn function_of(kernel: Kernel) -> Seq<char> {
    match kernel {
        Kernel::RmsNorm => "si_rms_norm"@,
        Kernel::RmsNormBf16Heads => "si_rms_norm_bf16_heads"@,
        Kernel::Bf16Matvec => "si_bf16_matvec"@,
        Kernel::F32Matvec => "si_f32_matvec"@,
        Kernel::Q4KMatvec => "si_q4_k_matvec"@,
        Kernel::Q4KMatvecRows4 => "si_q4_k_matvec_rows4"@,
        Kernel::Q4KMatvecRows4x128 => "si_q4_k_matvec_rows4x128"@,
        Kernel::Q4KMatmulMany => "si_q4_k_matmul_many"@,
        Kernel::Q4KFusedGateUp => "si_q4_k_fused_gate_up"@,
        Kernel::Q4KEmbeddingRow => "si_q4_k_embedding_row"@,
        Kernel::Q5KMatvec => "si_q5_k_matvec"@,
        Kernel::Q5KMatvecRows4 => "si_q5_k_matvec_rows4"@,
        Kernel::Q5KMatmulMany => "si_q5_k_matmul_many"@,
        Kernel::Q6KMatvec => "si_q6_k_matvec"@,
        Kernel::Q6KMatvecRows4 => "si_q6_k_matvec_rows4"@,
        Kernel::Q6KMatvecRows4x128 => "si_q6_k_matvec_rows4x128"@,
        Kernel::Q6KMatmulMany => "si_q6_k_matmul_many"@,
        Kernel::GatedDeltaStep => "si_gated_delta_step"@,
        Kernel::GatedDeltaStepParallel => "si_gated_delta_step_parallel"@,
        Kernel::CausalConv1dStep => "si_causal_conv1d_step"@,
        Kernel::RmsNormGated => "si_rms_norm_gated"@,
        Kernel::RmsNormHeads => "si_rms_norm_heads"@,
        Kernel::Bf16BitpackMatvec => "si_bf16_bitpack_matvec"@,
        Kernel::Bf16MatmulMany => "si_bf16_matmul_many"@,
        Kernel::Bf16FusedQkvMany => "si_bf16_fused_qkv_many"@,
        Kernel::Bf16FusedGateUpMany => "si_bf16_fused_gate_up_many"@,
        Kernel::Bf16FusedQkv => "si_bf16_fused_qkv"@,
        Kernel::Bf16FusedGateUp => "si_bf16_fused_gate_up"@,
        Kernel::Bf16EmbeddingRow => "si_bf16_embedding_row"@,
        Kernel::Rope => "si_rope"@,
        Kernel::AttentionDecode => "si_attention_decode"@,
    }
}

/// The name of a kernel's function in the shader source.
pub fn function_name(kernel: Kernel) -> (name: &'static str)
    ensures
        name@ == function_of(kernel),
{
    match kernel {
        Kernel::RmsNorm => "si_rms_norm",
        Kernel::RmsNormBf16Heads => "si_rms_norm_bf16_heads",
        Kernel::Bf16Matvec => "si_bf16_matvec",
        Kernel::F32Matvec => "si_f32_matvec",
        Kernel::Q4KMatvec => "si_q4_k_matvec",
        Kernel::Q4KMatvecRows4 => "si_q4_k_matvec_rows4",
        Kernel::Q4KMatvecRows4x128 => "si_q4_k_matvec_rows4x128",
        Kernel::Q4KMatmulMany => "si_q4_k_matmul_many",
        Kernel::Q4KFusedGateUp => "si_q4_k_fused_gate_up",
        Kernel::Q4KEmbeddingRow => "si_q4_k_embedding_row",
        Kernel::Q5KMatvec => "si_q5_k_matvec",
        Kernel::Q5KMatvecRows4 => "si_q5_k_matvec_rows4",
        Kernel::Q5KMatmulMany => "si_q5_k_matmul_many",
        Kernel::Q6KMatvec => "si_q6_k_matvec",
        Kernel::Q6KMatvecRows4 => "si_q6_k_matvec_rows4",
        Kernel::Q6KMatvecRows4x128 => "si_q6_k_matvec_rows4x128",
        Kernel::Q6KMatmulMany => "si_q6_k_matmul_many",
        Kernel::GatedDeltaStep => "si_gated_delta_step",
        Kernel::GatedDeltaStepParallel => "si_gated_delta_step_parallel",
        Kernel::CausalConv1dStep => "si_causal_conv1d_step",
        Kernel::RmsNormGated => "si_rms_norm_gated",
        Kernel::RmsNormHeads => "si_rms_norm_heads",
        Kernel::Bf16BitpackMatvec => "si_bf16_bitpack_matvec",
        Kernel::Bf16MatmulMany => "si_bf16_matmul_many",
        Kernel::Bf16FusedQkvMany => "si_bf16_fused_qkv_many",
        Kernel::Bf16FusedGateUpMany => "si_bf16_fused_gate_up_many",
        Kernel::Bf16FusedQkv => "si_bf16_fused_qkv",
        Kernel::Bf16FusedGateUp => "si_bf16_fused_gate_up",
        Kernel::Bf16EmbeddingRow => "si_bf16_embedding_row",
        Kernel::Rope => "si_rope",
        Kernel::AttentionDecode => "si_attention_decode",
    }
}

/// The settings that choose between kernels.
#[derive(Debug, Clone, Copy, PartialEq, Eq, Structural)]
pub struct Switches {
    /// Load the kernel that reads bit-packed weights.
    pub lossless_gpu: bool,
    /// Load the batched BF16 kernels to verify candidates.
    pub verify_many: bool,
    /// Load the batched BF16 kernels to look ahead.
    pub lookahead: bool,
    /// Let a group of threads multiply four rows.
    pub rows4: bool,
    /// Let a wide group of threads multiply four rows.
    pub rows4x128: bool,
    /// Let a wide group of threads multiply four Q6_K rows too.
    pub rows4x128_q6: bool,
    /// Let a wide group of threads multiply gate and up rows.
    pub fused_rows4x128: bool,
    /// Update the values of a recurrent head in parallel.
    pub gdn_parallel: bool,
}

/// Whether a setting turns a switch on: only the text `1` does.
pub fn qk_rows4_enabled(setting: Option<&str>) -> (enabled: bool)
    ensures
        enabled == (setting is Some && setting->Some_0@ == "1"@),
{
    match setting {
        Some(text) => crate::text::same_text(text, "1"),
        None => false,
    }
}

/// Whether the batched BF16 kernels are loaded.
pub open spec fn batched_kernels(switches: Switches) -> bool {
    switches.verify_many || switches.lookahead
}

/// The kernels that are always loaded before the optional ones.
pub open spec fn first_kernels() -> Seq<Kernel> {
    seq![
        Kernel::RmsNorm,
        Kernel::RmsNormBf16Heads,
        Kernel::Bf16Matvec,
        Kernel::F32Matvec,
        Kernel::Q4KMatvec,
        Kernel::Q4KMatvecRows4,
        Kernel::Q4KMatvecRows4x128,
        Kernel::Q4KMatmulMany,
        Kernel::Q4KFusedGateUp,
        Kernel::Q4KEmbeddingRow,
        Kernel::Q5KMatvec,
        Kernel::Q5KMatvecRows4,
        Kernel::Q5KMatmulMany,
        Kernel::Q6KMatvec,
        Kernel::Q6KMatvecRows4,
        Kernel::Q6KMatvecRows4x128,
        Kernel::Q6KMatmulMany,
        Kernel::GatedDeltaStep,
        Kernel::GatedDeltaStepParallel,
        Kernel::CausalConv1dStep,
        Kernel::RmsNormGated,
        Kernel::RmsNormHeads,
    ]
}

/// The kernels that are always loaded after the optional ones.
pub open spec fn last_kernels() -> Seq<Kernel> {
    seq![
        Kernel::Bf16FusedQkv,
        Kernel::Bf16FusedGateUp,
        Kernel::Bf16EmbeddingRow,
        Kernel::Rope,
        Kernel::AttentionDecode,
    ]
}

/// The optional kernels that the switches ask for.
pub open spec fn optional_kernels(switches: Switches) -> Seq<Kernel> {
    (if switches.lossless_gpu {
        seq![Kernel::Bf16BitpackMatvec]
    } else {
        Seq::empty()
    }) + (if batched_kernels(switches) {
        seq![Kernel::Bf16MatmulMany, Kernel::Bf16FusedQkvMany, Kernel::Bf16FusedGateUpMany]
    } else {
        Seq::empty()
    })
}

/// The kernels to load, in order.
pub open spec fn loaded_kernels(switches: Switches) -> Seq<Kernel> {
    first_kernels() + optional_kernels(switches) + last_kernels()
}

/// The kernels to load, in order.
pub fn kernels(switches: &Switches) -> (loaded: Vec<Kernel>)
    ensures
        loaded@ == loaded_kernels(*switches),
{
    let mut loaded: Vec<Kernel> = vec![
        Kernel::RmsNorm,
        Kernel::RmsNormBf16Heads,
        Kernel::Bf16Matvec,
        Kernel::F32Matvec,
        Kernel::Q4KMatvec,
        Kernel::Q4KMatvecRows4,
        Kernel::Q4KMatvecRows4x128,
        Kernel::Q4KMatmulMany,
        Kernel::Q4KFusedGateUp,
        Kernel::Q4KEmbeddingRow,
        Kernel::Q5KMatvec,
        Kernel::Q5KMatvecRows4,
        Kernel::Q5KMatmulMany,
        Kernel::Q6KMatvec,
        Kernel::Q6KMatvecRows4,
        Kernel::Q6KMatvecRows4x128,
        Kernel::Q6KMatmulMany,
        Kernel::GatedDeltaStep,
        Kernel::GatedDeltaStepParallel,
        Kernel::CausalConv1dStep,
        Kernel::RmsNormGated,
        Kernel::RmsNormHeads,
    ];
    proof {
        assert(loaded@ =~= first_kernels());
    }
    if switches.lossless_gpu {
        loaded.push(Kernel::Bf16BitpackMatvec);
    }
    if switches.verify_many || switches.lookahead {
        loaded.push(Kernel::Bf16MatmulMany);
        loaded.push(Kernel::Bf16FusedQkvMany);
        loaded.push(Kernel::Bf16FusedGateUpMany);
    }
    let mut rest: Vec<Kernel> = vec![
        Kernel::Bf16FusedQkv,
        Kernel::Bf16FusedGateUp,
        Kernel::Bf16EmbeddingRow,
        Kernel::Rope,
        Kernel::AttentionDecode,
    ];
    proof {
        assert(rest@ =~= last_kernels());
        assert(loaded@ =~= first_kernels() + optional_kernels(*switches));
    }
    loaded.append(&mut rest);
    loaded
}

/// The number that stands beside a kernel in a list, if the kernel is listed.
pub open spec fn listed_limit(kernels: Seq<Kernel>, limits: Seq<u64>, kernel: Kernel) -> Option<u64>
    decreases kernels.len(),
{
    if kernels.len() == 0 {
        None
    } else if kernels.last() == kernel {
        Some(limits[kernels.len() - 1])
    } else {
        listed_limit(kernels.drop_last(), limits, kernel)
    }
}

/// A number stands beside a kernel exactly where the kernel is listed.
pub proof fn lemma_listed_limit(kernels: Seq<Kernel>, limits: Seq<u64>, kernel: Kernel)
    ensures
        listed_limit(kernels, limits, kernel) is Some <==> exists|i: int|
            0 <= i < kernels.len() && (#[trigger] kernels[i]) == kernel,
    decreases kernels.len(),
{
    if kernels.len() > 0 {
        let shorter = kernels.drop_last();
        lemma_listed_limit(shorter, limits, kernel);
        if kernels.last() == kernel {
            assert(kernels[kernels.len() - 1] == kernel);
        } else if exists|i: int| 0 <= i < kernels.len() && (#[trigger] kernels[i]) == kernel {
            let i = choose|i: int| 0 <= i < kernels.len() && (#[trigger] kernels[i]) == kernel;
            assert(shorter[i] == kernel);
        } else {
            assert forall|i: int| 0 <= i < shorter.len() implies (#[trigger] shorter[i]) != kernel by {
                assert(kernels[i] != kernel);
            }
        }
    }
}

/// The number that stands beside a kernel in a list, if the kernel is listed.
pub fn find_limit(kernels: &Vec<Kernel>, limits: &[u64], kernel: Kernel) -> (limit: Option<u64>)
    requires
        limits@.len() == kernels@.len(),
    ensures
        limit == listed_limit(kernels@, limits@, kernel),
{
    let mut limit: Option<u64> = None;
    let mut index: usize = 0;
    proof {
        assert(kernels@.take(0) =~= Seq::empty());
    }
    while index < kernels.len()
        invariant
            index <= kernels@.len(),
            limits@.len() == kernels@.len(),
            limit == listed_limit(kernels@.take(index as int), limits@, kernel),
        decreases kernels@.len() - index,
    {
        proof {
            assert(kernels@.take(index + 1).drop_last() =~= kernels@.take(index as int));
        }
        if kernels[index] == kernel {
            limit = Some(limits[index]);
        }
        index += 1;
    }
    proof {
        assert(kernels@.take(index as int) =~= kernels@);
    }
    limit
}

/// The optional kernels are loaded exactly where the switches ask for them,
/// and the parallel recurrent update always is.
pub proof fn law_switches_load_optional_kernels(switches: Switches, limits: Seq<u64>)
    ensures
        ({
            let loaded = loaded_kernels(switches);
            let batched = batched_kernels(switches);
            &&& listed_limit(loaded, limits, Kernel::Bf16BitpackMatvec) is Some
                <==> switches.lossless_gpu
            &&& listed_limit(loaded, limits, Kernel::Bf16MatmulMany) is Some <==> batched
            &&& listed_limit(loaded, limits, Kernel::Bf16FusedQkvMany) is Some <==> batched
            &&& listed_limit(loaded, limits, Kernel::Bf16FusedGateUpMany) is Some <==> batched
            &&& listed_limit(loaded, limits, Kernel::GatedDeltaStepParallel) is Some
        }),
{
    let loaded = loaded_kernels(switches);
    lemma_listed_limit(loaded, limits, Kernel::Bf16BitpackMatvec);
    lemma_listed_limit(loaded, limits, Kernel::Bf16MatmulMany);
    lemma_listed_limit(loaded, limits, Kernel::Bf16FusedQkvMany);
    lemma_listed_limit(loaded, limits, Kernel::Bf16FusedGateUpMany);
    lemma_listed_limit(loaded, limits, Kernel::GatedDeltaStepParallel);
    assert(loaded[18] == Kernel::GatedDeltaStepParallel);
    if switches.lossless_gpu {
        assert(loaded[22] == Kernel::Bf16BitpackMatvec);
    }
    if batched_kernels(switches) {
        let at = if switches.lossless_gpu {
            23int
        } else {
            22int
        };
        assert(loaded[at] == Kernel::Bf16MatmulMany);
        assert(loaded[at + 1] == Kernel::Bf16FusedQkvMany);
        assert(loaded[at + 2] == Kernel::Bf16FusedGateUpMany);
    }
}

/// The 32-bit constants of a launch, in the order in which the kernel takes
/// them behind its buffers. Floating-point constants stand as their bits.
#[derive(Debug, Clone, Copy, PartialEq, Eq, Structural)]
pub enum Constants {
    One(u32),
    Two(u32, u32),
    Three(u32, u32, u32),
    Four(u32, u32, u32, u32),
    Five(u32, u32, u32, u32, u32),
}

/// How many threads a group has.
#[derive(Debug, Clone, Copy, PartialEq, Eq, Structural)]
pub enum Threads {
    /// As many as the pipeline allows.
    All,
    /// As many as the pipeline allows, up to a number.
    AtMost(u64),
    /// A fixed number.
    Exactly(u64),
}

pub open spec fn thread_count(threads: Threads, limit: u64) -> u64 {
    let allowed = if limit >= 1 {
        limit
    } else {
        1
    };
    match threads {
        Threads::All => allowed,
        Threads::AtMost(most) => if allowed < most {
            allowed
        } else {
            most
        },
        Threads::Exactly(count) => count,
    }
}

impl Threads {
    /// The number of threads in a group, given the pipeline's limit.
    pub fn resolve(self, limit: u64) -> (count: u64)
        ensures
            count == thread_count(self, limit),
    {
        let allowed: u64 = if limit >= 1 { limit } else { 1 };
        match self {
            Threads::All => allowed,
            Threads::AtMost(most) => if allowed < most { allowed } else { most },
            Threads::Exactly(count) => count,
        }
    }
}

/// What `count` counts: groups of threads, or single threads. A kernel that
/// runs as a single thread spreads its group along the third axis.
#[derive(Debug, Clone, Copy, PartialEq, Eq, Structural)]
pub enum Grid {
    Groups(u64),
    Threads(u64),
    Single,
}

/// One launch of a kernel.
#[derive(Debug, Clone, Copy, PartialEq, Eq, Structural)]
pub struct Dispatch {
    pub kernel: Kernel,
    pub constants: Constants,
    pub grid: Grid,
    pub threads: Threads,
}

/// A group has at least one thread, unless it is to have none. Unless their
/// number is fixed it has no more than the pipeline allows, and it has all of
/// these that it may have.
pub proof fn law_groups_stay_within_limit(threads: Threads, limit: u64, count: u64)
    ensures
        threads matches Threads::Exactly(fixed) ==> thread_count(threads, limit) == fixed,
        threads is All ==> thread_count(threads, limit) == (if limit == 0 {
            1
        } else {
            limit
        }),
        threads matches Threads::AtMost(most) ==> thread_count(threads, limit) <= most && (limit > 0
            ==> thread_count(threads, limit) <= limit) && (most > 0 ==> thread_count(threads, limit)
            > 0) && (count <= most && count <= limit ==> count <= thread_count(threads, limit)),
{
}

} // verus!
