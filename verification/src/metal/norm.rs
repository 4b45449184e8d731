//! Plans for normalization and rotary position steps.
use vstd::prelude::*;

use super::context::MetalContext;
use super::kernel::{Constants, Dispatch, Grid, Kernel, Threads};
use super::plan;
use super::plan::{Plan, PlanView, Profile};
use crate::tensor;
use crate::tensor::TensorView;
use crate::text;

verus! {

/// Whether the bits are those of a finite floating-point number above zero.
pub open spec fn is_positive_finite(bits: u32) -> bool {
    0 < bits < 0x7f80_0000
}

pub fn positive_finite(bits: u32) -> (positive: bool)
    ensures
        positive == is_positive_finite(bits),
{
    0 < bits && bits < 0x7f80_0000
}

/// The low 32 bits of a number.
pub open spec fn low_word(n: int) -> u32 {
    (n % 0x1_0000_0000) as u32
}

pub fn low_word_of(n: usize) -> (word: u32)
    ensures
        word == low_word(n as int),
{
    (n as u64 % 0x1_0000_0000) as u32
}

/// A step that reads no weights.
pub open spec fn scratch_only(scratch: u64) -> Profile {
    Profile { weights: 0, state: 0, scratch, mapped: false }
}

pub open spec fn rms_norm_plan(input: usize, weight: usize, epsilon: u32) -> Result<
    PlanView,
    Seq<char>,
> {
    if input == 0 || input != weight {
        Err("RMSNorm input and weight must have equal non-zero length"@)
    } else {
        Ok(
            plan::single_output(
                scratch_only(plan::capped(plan::value_bytes(input as int) * 3)),
                ""@,
                Ok(
                    seq![
                        Dispatch {
                            kernel: Kernel::RmsNorm,
                            constants: Constants::Two(low_word(input as int), epsilon),
                            grid: Grid::Single,
                            threads: Threads::All,
                        },
                    ],
                ),
                input,
                "command"@,
            ),
        )
    }
}

/// The launch that normalizes heads with a shared BF16 scale.
pub open spec fn bf16_heads_launch(heads: int, head_dim: int, epsilon: u32) -> Result<
    Dispatch,
    Seq<char>,
> {
    if heads > u32::MAX {
        Err("RMSNorm head count exceeds Metal limits"@)
    } else if head_dim > u32::MAX {
        Err("RMSNorm dimension exceeds Metal limits"@)
    } else {
        Ok(
            Dispatch {
                kernel: Kernel::RmsNormBf16Heads,
                constants: Constants::Three(heads as u32, head_dim as u32, epsilon),
                grid: Grid::Threads(heads as u64),
                threads: Threads::AtMost(heads as u64),
            },
        )
    }
}

/// The launches of a step with at most one launch.
pub open spec fn launch_of(launch: Result<Dispatch, Seq<char>>) -> Result<
    Seq<Dispatch>,
    Seq<char>,
> {
    match launch {
        Ok(dispatch) => Ok(seq![dispatch]),
        Err(message) => Err(message),
    }
}

/// The launches of a step with at most one launch.
pub fn command_of(launch: Result<Dispatch, String>) -> (command: Result<Vec<Dispatch>, String>)
    ensures
        plan::command_view(command) == launch_of(text::outcome(launch)),
{
    match launch {
        Ok(dispatch) => plan::one_launch(dispatch),
        Err(message) => Err(message),
    }
}

/// The launch that normalizes heads with a shared BF16 scale.
pub fn plan_bf16_heads(heads: usize, head_dim: usize, epsilon: u32) -> (launch: Result<
    Dispatch,
    String,
>)
    ensures
        text::outcome(launch) == bf16_heads_launch(heads as int, head_dim as int, epsilon),
{
    if heads as u64 > 0xffff_ffff {
        return Err("RMSNorm head count exceeds Metal limits".to_owned());
    }
    if head_dim as u64 > 0xffff_ffff {
        return Err("RMSNorm dimension exceeds Metal limits".to_owned());
    }
    Ok(
        Dispatch {
            kernel: Kernel::RmsNormBf16Heads,
            constants: Constants::Three(heads as u32, head_dim as u32, epsilon),
            grid: Grid::Threads(heads as u64),
            threads: Threads::AtMost(heads as u64),
        },
    )
}

pub open spec fn rms_norm_bf16_heads_plan(
    input: usize,
    weight_bytes: nat,
    heads: usize,
    head_dim: usize,
    epsilon: u32,
) -> Result<PlanView, Seq<char>> {
    if heads * head_dim > usize::MAX {
        Err("BF16 RMSNorm dimensions overflow"@)
    } else if heads == 0 || head_dim == 0 || input != heads * head_dim || weight_bytes != head_dim
        * 2 {
        Err("BF16 RMSNorm dimensions or byte length are invalid"@)
    } else {
        Ok(
            plan::single_output(
                Profile {
                    weights: weight_bytes as u64,
                    state: 0,
                    scratch: plan::capped(plan::value_bytes(input as int) * 2),
                    mapped: false,
                },
                ""@,
                launch_of(bf16_heads_launch(heads as int, head_dim as int, epsilon)),
                input,
                "command"@,
            ),
        )
    }
}

pub open spec fn rms_norm_gated_plan(
    input: usize,
    gate: usize,
    weight: usize,
    heads: usize,
    head_dim: usize,
    epsilon: u32,
) -> Result<PlanView, Seq<char>> {
    if heads * head_dim > usize::MAX {
        Err("Gated RMSNorm dimensions overflow"@)
    } else if heads == 0 || head_dim == 0 || !is_positive_finite(epsilon) || input != heads
        * head_dim || gate != heads * head_dim || weight != head_dim {
        Err("Gated RMSNorm dimensions are invalid"@)
    } else {
        Ok(
            plan::single_output(
                Profile {
                    weights: plan::value_bytes(weight as int),
                    state: 0,
                    scratch: plan::capped(plan::value_bytes(input as int) * 3),
                    mapped: true,
                },
                "Metal could not bind mapped gated RMSNorm weights"@,
                if heads > u32::MAX {
                    Err("Gated RMSNorm heads exceed Metal limits"@)
                } else if head_dim > u32::MAX {
                    Err("Gated RMSNorm dimension exceeds limits"@)
                } else {
                    Ok(
                        seq![
                            Dispatch {
                                kernel: Kernel::RmsNormGated,
                                constants: Constants::Three(heads as u32, head_dim as u32, epsilon),
                                grid: Grid::Threads(heads as u64),
                                threads: Threads::AtMost(heads as u64),
                            },
                        ],
                    )
                },
                input,
                "gated RMSNorm command"@,
            ),
        )
    }
}

pub open spec fn rms_norm_heads_plan(
    input: usize,
    weight: usize,
    heads: usize,
    head_dim: usize,
    epsilon: u32,
) -> Result<PlanView, Seq<char>> {
    if heads * head_dim > usize::MAX {
        Err("head RMSNorm dimensions overflow"@)
    } else if heads == 0 || head_dim == 0 || !is_positive_finite(epsilon) || input != heads
        * head_dim || weight != head_dim {
        Err("head RMSNorm dimensions are invalid"@)
    } else {
        Ok(
            plan::single_output(
                Profile {
                    weights: plan::value_bytes(weight as int),
                    state: 0,
                    scratch: plan::capped(plan::value_bytes(input as int) * 2),
                    mapped: true,
                },
                "Metal could not bind mapped head RMSNorm weights"@,
                if heads > u32::MAX {
                    Err("RMSNorm heads exceed Metal limits"@)
                } else if head_dim > u32::MAX {
                    Err("RMSNorm dimension exceeds Metal limits"@)
                } else {
                    Ok(
                        seq![
                            Dispatch {
                                kernel: Kernel::RmsNormHeads,
                                constants: Constants::Three(heads as u32, head_dim as u32, epsilon),
                                grid: Grid::Threads(heads as u64),
                                threads: Threads::AtMost(heads as u64),
                            },
                        ],
                    )
                },
                input,
                "head RMSNorm command"@,
            ),
        )
    }
}

pub open spec fn rms_norm_bf16_tensor_plan(input: usize, tensor: TensorView, epsilon: u32) -> Result<
    PlanView,
    Seq<char>,
> {
    if !tensor::is_bf16(*tensor.info) || tensor.info.shape@.len() != 1 {
        Err("RMSNorm weight must be a rank-1 BF16 tensor"@)
    } else {
        rms_norm_bf16_heads_plan(
            input,
            tensor.bytes@.len(),
            1,
            tensor.info.shape@[0],
            epsilon,
        )
    }
}

pub open spec fn rms_norm_bf16_heads_tensor_plan(
    input: usize,
    tensor: TensorView,
    heads: usize,
    head_dim: usize,
    epsilon: u32,
) -> Result<PlanView, Seq<char>> {
    if !tensor::is_bf16(*tensor.info) || tensor.info.shape@.len() != 1 || tensor.info.shape@[0]
        != head_dim {
        Err("per-head RMSNorm weight has an invalid shape or dtype"@)
    } else {
        rms_norm_bf16_heads_plan(input, tensor.bytes@.len(), heads, head_dim, epsilon)
    }
}

/// The launch that rotates the pairs of all heads.
pub open spec fn rope_launch(heads: u32, head_dim: u32, position: u32, theta: u32) -> Dispatch {
    let pairs = (heads * (head_dim / 2)) as u64;
    Dispatch {
        kernel: Kernel::Rope,
        constants: Constants::Four(heads, head_dim, position, theta),
        grid: Grid::Threads(pairs),
        threads: Threads::AtMost(pairs),
    }
}

/// The launch that rotates the pairs of all heads.
pub fn plan_rope(heads: u32, head_dim: u32, position: u32, theta: u32) -> (dispatch: Dispatch)
    ensures
        dispatch == rope_launch(heads, head_dim, position, theta),
{
    assert(0 <= heads * (head_dim / 2) <= 0xffff_ffff * 0x7fff_ffff) by (nonlinear_arith)
        requires
            heads <= 0xffff_ffff,
            head_dim / 2 <= 0x7fff_ffff,
    ;
    let pairs: u64 = heads as u64 * (head_dim as u64 / 2);
    Dispatch {
        kernel: Kernel::Rope,
        constants: Constants::Four(heads, head_dim, position, theta),
        grid: Grid::Threads(pairs),
        threads: Threads::AtMost(pairs),
    }
}

pub open spec fn rope_plan(
    input: usize,
    heads: usize,
    head_dim: usize,
    position: usize,
    theta: u32,
) -> Result<PlanView, Seq<char>> {
    if heads == 0 || head_dim == 0 || head_dim % 2 != 0 || input != heads * head_dim {
        Err("RoPE dimensions are invalid"@)
    } else {
        Ok(
            plan::single_output(
                scratch_only(plan::capped(plan::value_bytes(input as int) * 2)),
                ""@,
                Ok(
                    seq![
                        rope_launch(
                            low_word(heads as int),
                            low_word(head_dim as int),
                            low_word(position as int),
                            theta,
                        ),
                    ],
                ),
                input,
                "command"@,
            ),
        )
    }
}

impl MetalContext {
    /// Plans one-vector RMSNorm.
    pub fn rms_norm(&self, input: usize, weight: usize, epsilon: u32) -> (result: Result<
        Plan,
        String,
    >)
        ensures
            text::outcome_view(result) == rms_norm_plan(input, weight, epsilon),
    {
        if input == 0 || input != weight {
            return Err("RMSNorm input and weight must have equal non-zero length".to_owned());
        }
        Ok(
            plan::plan_of(
                Profile {
                    weights: 0,
                    state: 0,
                    scratch: plan::times(plan::bytes_of_values(input), 3),
                    mapped: false,
                },
                "",
                plan::one_launch(
                    Dispatch {
                        kernel: Kernel::RmsNorm,
                        constants: Constants::Two(low_word_of(input), epsilon),
                        grid: Grid::Single,
                        threads: Threads::All,
                    },
                ),
                input,
                "command",
            ),
        )
    }

    /// Plans RMSNorm of one or more vectors with a shared BF16 scale.
    pub fn rms_norm_bf16_heads(
        &self,
        input: usize,
        weight_bytes: &[u8],
        heads: usize,
        head_dim: usize,
        epsilon: u32,
    ) -> (result: Result<Plan, String>)
        ensures
            text::outcome_view(result) == rms_norm_bf16_heads_plan(
                input,
                weight_bytes@.len(),
                heads,
                head_dim,
                epsilon,
            ),
    {
        let input_len: usize = match heads.checked_mul(head_dim) {
            Some(length) => length,
            None => {
                return Err("BF16 RMSNorm dimensions overflow".to_owned());
            },
        };
        if heads == 0 || head_dim == 0 || input != input_len || weight_bytes.len() % 2 != 0
            || weight_bytes.len() / 2 != head_dim {
            return Err("BF16 RMSNorm dimensions or byte length are invalid".to_owned());
        }
        Ok(
            plan::plan_of(
                Profile {
                    weights: weight_bytes.len() as u64,
                    state: 0,
                    scratch: plan::times(plan::bytes_of_values(input), 2),
                    mapped: false,
                },
                "",
                command_of(plan_bf16_heads(heads, head_dim, epsilon)),
                input,
                "command",
            ),
        )
    }

    /// Plans per-head RMSNorm followed by a SiLU gate.
    pub fn rms_norm_gated(
        &self,
        input: usize,
        gate: usize,
        weight: usize,
        heads: usize,
        head_dim: usize,
        epsilon: u32,
    ) -> (result: Result<Plan, String>)
        ensures
            text::outcome_view(result) == rms_norm_gated_plan(
                input,
                gate,
                weight,
                heads,
                head_dim,
                epsilon,
            ),
    {
        let input_len: usize = match heads.checked_mul(head_dim) {
            Some(length) => length,
            None => {
                return Err("Gated RMSNorm dimensions overflow".to_owned());
            },
        };
        if heads == 0 || head_dim == 0 || !positive_finite(epsilon) || input != input_len || gate
            != input_len || weight != head_dim {
            return Err("Gated RMSNorm dimensions are invalid".to_owned());
        }
        let command = if heads as u64 > 0xffff_ffff {
            plan::no_launch("Gated RMSNorm heads exceed Metal limits")
        } else if head_dim as u64 > 0xffff_ffff {
            plan::no_launch("Gated RMSNorm dimension exceeds limits")
        } else {
            plan::one_launch(
                Dispatch {
                    kernel: Kernel::RmsNormGated,
                    constants: Constants::Three(heads as u32, head_dim as u32, epsilon),
                    grid: Grid::Threads(heads as u64),
                    threads: Threads::AtMost(heads as u64),
                },
            )
        };
        Ok(
            plan::plan_of(
                Profile {
                    weights: plan::bytes_of_values(weight),
                    state: 0,
                    scratch: plan::times(plan::bytes_of_values(input), 3),
                    mapped: true,
                },
                "Metal could not bind mapped gated RMSNorm weights",
                command,
                input,
                "gated RMSNorm command",
            ),
        )
    }

    /// Plans centered per-head RMSNorm.
    pub fn rms_norm_heads(
        &self,
        input: usize,
        weight: usize,
        heads: usize,
        head_dim: usize,
        epsilon: u32,
    ) -> (result: Result<Plan, String>)
        ensures
            text::outcome_view(result) == rms_norm_heads_plan(
                input,
                weight,
                heads,
                head_dim,
                epsilon,
            ),
    {
        let input_len: usize = match heads.checked_mul(head_dim) {
            Some(length) => length,
            None => {
                return Err("head RMSNorm dimensions overflow".to_owned());
            },
        };
        if heads == 0 || head_dim == 0 || !positive_finite(epsilon) || input != input_len || weight
            != head_dim {
            return Err("head RMSNorm dimensions are invalid".to_owned());
        }
        let command = if heads as u64 > 0xffff_ffff {
            plan::no_launch("RMSNorm heads exceed Metal limits")
        } else if head_dim as u64 > 0xffff_ffff {
            plan::no_launch("RMSNorm dimension exceeds Metal limits")
        } else {
            plan::one_launch(
                Dispatch {
                    kernel: Kernel::RmsNormHeads,
                    constants: Constants::Three(heads as u32, head_dim as u32, epsilon),
                    grid: Grid::Threads(heads as u64),
                    threads: Threads::AtMost(heads as u64),
                },
            )
        };
        Ok(
            plan::plan_of(
                Profile {
                    weights: plan::bytes_of_values(weight),
                    state: 0,
                    scratch: plan::times(plan::bytes_of_values(input), 2),
                    mapped: true,
                },
                "Metal could not bind mapped head RMSNorm weights",
                command,
                input,
                "head RMSNorm command",
            ),
        )
    }

    pub fn rms_norm_bf16_tensor(&self, input: usize, tensor: &TensorView<'_>, epsilon: u32) -> (result: Result<
        Plan,
        String,
    >)
        ensures
            text::outcome_view(result) == rms_norm_bf16_tensor_plan(input, *tensor, epsilon),
    {
        if !tensor.info.has_bf16_values() || tensor.info.shape.len() != 1 {
            return Err("RMSNorm weight must be a rank-1 BF16 tensor".to_owned());
        }
        self.rms_norm_bf16_heads(input, tensor.bytes, 1, tensor.info.shape[0], epsilon)
    }

    pub fn rms_norm_bf16_heads_tensor(
        &self,
        input: usize,
        tensor: &TensorView<'_>,
        heads: usize,
        head_dim: usize,
        epsilon: u32,
    ) -> (result: Result<Plan, String>)
        ensures
            text::outcome_view(result) == rms_norm_bf16_heads_tensor_plan(
                input,
                *tensor,
                heads,
                head_dim,
                epsilon,
            ),
    {
        if !tensor.info.has_bf16_values() || tensor.info.shape.len() != 1 || tensor.info.shape[0]
            != head_dim {
            return Err("per-head RMSNorm weight has an invalid shape or dtype".to_owned());
        }
        self.rms_norm_bf16_heads(input, tensor.bytes, heads, head_dim, epsilon)
    }

    /// Plans the rotary position step.
    pub fn rope(
        &self,
        input: usize,
        heads: usize,
        head_dim: usize,
        position: usize,
        theta: u32,
    ) -> (result: Result<Plan, String>)
        ensures
            text::outcome_view(result) == rope_plan(input, heads, head_dim, position, theta),
    {
        let fits = match heads.checked_mul(head_dim) {
            Some(length) => input == length,
            None => false,
        };
        if heads == 0 || head_dim == 0 || head_dim % 2 != 0 || !fits {
            return Err("RoPE dimensions are invalid".to_owned());
        }
        Ok(
            plan::plan_of(
                Profile {
                    weights: 0,
                    state: 0,
                    scratch: plan::times(plan::bytes_of_values(input), 2),
                    mapped: false,
                },
                "",
                plan::one_launch(
                    plan_rope(
                        low_word_of(heads),
                        low_word_of(head_dim),
                        low_word_of(position),
                        theta,
                    ),
                ),
                input,
                "command",
            ),
        )
    }
}

} // verus!
