//! Plans for the recurrent steps of Gated DeltaNet layers.
use vstd::prelude::*;

use super::context::MetalContext;
use super::kernel::{Constants, Dispatch, Grid, Kernel, Switches, Threads};
use super::norm;
use super::plan;
use super::plan::{Plan, PlanView, Profile};
use super::stats::Submission;
use super::wiring::Wiring;
use crate::text;

verus! {

/// The number of values in each input of a recurrent update, and its dimensions.
#[derive(Debug, Clone, Copy, PartialEq, Eq, Structural)]
pub struct GatedDeltaInput {
    pub query: usize,
    pub key: usize,
    pub value: usize,
    pub gate: usize,
    pub beta: usize,
    pub state: usize,
    pub heads: usize,
    pub key_dim: usize,
    pub value_dim: usize,
}

/// A plan whose outputs are the step's result and its updated state. The state
/// is updated in the operand that it was copied to.
pub open spec fn stateful_plan(
    profile: Profile,
    unbound: Seq<char>,
    command: Result<Seq<Dispatch>, Seq<char>>,
    values: usize,
    state: usize,
    operand: usize,
    operation: Seq<char>,
) -> PlanView {
    PlanView {
        profile,
        unbound,
        command,
        wiring: Wiring::Stateful(operand),
        submission: Submission::AtOnce,
        buffers: seq![plan::value_bytes(values as int)],
        outputs: seq![values, state],
        operation,
    }
}

fn plan_stateful(
    profile: Profile,
    unbound: &str,
    launch: Result<Dispatch, String>,
    values: usize,
    state: usize,
    operand: usize,
    operation: &str,
) -> (plan: Plan)
    ensures
        plan@ == stateful_plan(
            profile,
            unbound@,
            norm::launch_of(text::outcome(launch)),
            values,
            state,
            operand,
            operation@,
        ),
{
    let buffers: Vec<u64> = vec![plan::bytes_of_values(values)];
    let outputs: Vec<usize> = vec![values, state];
    proof {
        assert(buffers@ =~= seq![plan::value_bytes(values as int)]);
        assert(outputs@ =~= seq![values, state]);
    }
    Plan {
        profile,
        unbound: unbound.to_owned(),
        command: norm::command_of(launch),
        wiring: Wiring::Stateful(operand),
        submission: Submission::AtOnce,
        buffers,
        outputs,
        operation: operation.to_owned(),
    }
}

/// Whether the values of a head are updated in parallel: that is asked for and
/// they fit one group of threads.
pub open spec fn updates_in_parallel(switches: Switches, limit: u64, value_dim: usize) -> bool {
    switches.gdn_parallel && value_dim <= limit
}

/// The launch of a recurrent update: a group of threads for each head, or a
/// single thread for each head.
pub open spec fn gated_delta_launch(input: GatedDeltaInput, parallel: bool) -> Result<
    Dispatch,
    Seq<char>,
> {
    if input.heads > u32::MAX {
        Err("Gated DeltaNet heads exceed Metal limits"@)
    } else if input.key_dim > u32::MAX {
        Err("Gated DeltaNet key dimension exceeds limits"@)
    } else if input.value_dim > u32::MAX {
        Err("Gated DeltaNet value dimension exceeds Metal limits"@)
    } else if parallel {
        Ok(
            Dispatch {
                kernel: Kernel::GatedDeltaStepParallel,
                constants: Constants::Three(
                    input.heads as u32,
                    input.key_dim as u32,
                    input.value_dim as u32,
                ),
                grid: Grid::Groups(input.heads as u64),
                threads: Threads::Exactly(input.value_dim as u64),
            },
        )
    } else {
        Ok(
            Dispatch {
                kernel: Kernel::GatedDeltaStep,
                constants: Constants::Three(
                    input.heads as u32,
                    input.key_dim as u32,
                    input.value_dim as u32,
                ),
                grid: Grid::Threads(input.heads as u64),
                threads: Threads::AtMost(input.heads as u64),
            },
        )
    }
}

fn plan_gated_delta(input: &GatedDeltaInput, parallel: bool) -> (launch: Result<Dispatch, String>)
    ensures
        text::outcome(launch) == gated_delta_launch(*input, parallel),
{
    if input.heads as u64 > 0xffff_ffff {
        return Err("Gated DeltaNet heads exceed Metal limits".to_owned());
    }
    if input.key_dim as u64 > 0xffff_ffff {
        return Err("Gated DeltaNet key dimension exceeds limits".to_owned());
    }
    if input.value_dim as u64 > 0xffff_ffff {
        return Err("Gated DeltaNet value dimension exceeds Metal limits".to_owned());
    }
    let constants = Constants::Three(
        input.heads as u32,
        input.key_dim as u32,
        input.value_dim as u32,
    );
    if parallel {
        Ok(
            Dispatch {
                kernel: Kernel::GatedDeltaStepParallel,
                constants,
                grid: Grid::Groups(input.heads as u64),
                threads: Threads::Exactly(input.value_dim as u64),
            },
        )
    } else {
        Ok(
            Dispatch {
                kernel: Kernel::GatedDeltaStep,
                constants,
                grid: Grid::Threads(input.heads as u64),
                threads: Threads::AtMost(input.heads as u64),
            },
        )
    }
}

pub open spec fn gated_delta_plan(input: GatedDeltaInput, switches: Switches, limit: u64) -> Result<
    PlanView,
    Seq<char>,
> {
    let keys = input.heads * input.key_dim;
    let values = input.heads * input.value_dim;
    if input.heads == 0 || input.key_dim == 0 || input.value_dim == 0 || input.value_dim > 256 {
        Err("Gated DeltaNet dimensions are invalid"@)
    } else if keys > usize::MAX {
        Err("Gated DeltaNet query dimensions overflow"@)
    } else if keys * input.value_dim > usize::MAX {
        Err("Gated DeltaNet state dimensions overflow"@)
    } else if input.query != keys || input.key != keys || input.value != values || input.gate
        != input.heads || input.beta != input.heads || input.state != keys * input.value_dim {
        Err("Gated DeltaNet input or state dimensions are invalid"@)
    } else {
        Ok(
            stateful_plan(
                Profile {
                    weights: 0,
                    state: plan::value_bytes(input.state as int),
                    scratch: plan::total(
                        seq![
                            plan::value_bytes(input.query as int),
                            plan::value_bytes(input.key as int),
                            plan::value_bytes(input.value as int),
                            plan::value_bytes(input.gate as int),
                            plan::value_bytes(input.beta as int),
                            plan::value_bytes(input.value as int),
                        ],
                    ),
                    mapped: false,
                },
                ""@,
                norm::launch_of(
                    gated_delta_launch(
                        input,
                        updates_in_parallel(switches, limit, input.value_dim),
                    ),
                ),
                input.value,
                input.state,
                5,
                "Gated DeltaNet step command"@,
            ),
        )
    }
}

/// The launch of a convolution update: one thread for each channel.
pub open spec fn causal_conv_launch(channels: int, kernel_size: int) -> Result<
    Dispatch,
    Seq<char>,
> {
    if channels > u32::MAX {
        Err("causal convolution channels exceed limits"@)
    } else if kernel_size > u32::MAX {
        Err("causal convolution kernel size exceeds limits"@)
    } else {
        Ok(
            Dispatch {
                kernel: Kernel::CausalConv1dStep,
                constants: Constants::Two(channels as u32, kernel_size as u32),
                grid: Grid::Threads(channels as u64),
                threads: Threads::AtMost(channels as u64),
            },
        )
    }
}

fn plan_causal_conv(channels: usize, kernel_size: usize) -> (launch: Result<Dispatch, String>)
    ensures
        text::outcome(launch) == causal_conv_launch(channels as int, kernel_size as int),
{
    if channels as u64 > 0xffff_ffff {
        return Err("causal convolution channels exceed limits".to_owned());
    }
    if kernel_size as u64 > 0xffff_ffff {
        return Err("causal convolution kernel size exceeds limits".to_owned());
    }
    Ok(
        Dispatch {
            kernel: Kernel::CausalConv1dStep,
            constants: Constants::Two(channels as u32, kernel_size as u32),
            grid: Grid::Threads(channels as u64),
            threads: Threads::AtMost(channels as u64),
        },
    )
}

pub open spec fn causal_conv_plan(
    input: usize,
    state: usize,
    weights: usize,
    channels: usize,
    kernel_size: usize,
) -> Result<PlanView, Seq<char>> {
    if channels == 0 || kernel_size < 2 || input != channels {
        Err("causal convolution dimensions are invalid"@)
    } else if channels * (kernel_size - 1) > usize::MAX {
        Err("causal convolution state dimensions overflow"@)
    } else if channels * kernel_size > usize::MAX {
        Err("causal convolution weight dimensions overflow"@)
    } else if state != channels * (kernel_size - 1) || weights != channels * kernel_size {
        Err("causal convolution input, state, or weight lengths are invalid"@)
    } else {
        Ok(
            stateful_plan(
                Profile {
                    weights: plan::value_bytes(weights as int),
                    state: plan::value_bytes(state as int),
                    scratch: plan::plus(
                        plan::value_bytes(input as int),
                        plan::value_bytes(input as int),
                    ),
                    mapped: true,
                },
                "Metal could not bind mapped causal convolution weights"@,
                norm::launch_of(causal_conv_launch(channels as int, kernel_size as int)),
                input,
                state,
                2,
                "causal convolution command"@,
            ),
        )
    }
}

impl MetalContext {
    /// Plans one recurrent Gated DeltaNet update per head. The outputs are the
    /// head outputs and the updated state.
    pub fn gated_delta_step(&self, input: GatedDeltaInput, switches: &Switches) -> (result: Result<
        Plan,
        String,
    >)
        ensures
            text::outcome_view(result) == gated_delta_plan(
                input,
                *switches,
                self@.pipelines.gated_delta_parallel,
            ),
    {
        if input.heads == 0 || input.key_dim == 0 || input.value_dim == 0 || input.value_dim
            > 256 {
            return Err("Gated DeltaNet dimensions are invalid".to_owned());
        }
        let keys: usize = match input.heads.checked_mul(input.key_dim) {
            Some(keys) => keys,
            None => {
                return Err("Gated DeltaNet query dimensions overflow".to_owned());
            },
        };
        let state_values: usize = match keys.checked_mul(input.value_dim) {
            Some(values) => values,
            None => {
                return Err("Gated DeltaNet state dimensions overflow".to_owned());
            },
        };
        proof {
            assert(input.heads * input.value_dim <= keys * input.value_dim) by (nonlinear_arith)
                requires
                    keys == input.heads * input.key_dim,
                    input.key_dim >= 1,
                    input.heads >= 1,
                    input.value_dim >= 1,
            ;
        }
        let values: usize = input.heads * input.value_dim;
        if input.query != keys || input.key != keys || input.value != values || input.gate
            != input.heads || input.beta != input.heads || input.state != state_values {
            return Err("Gated DeltaNet input or state dimensions are invalid".to_owned());
        }
        let parts: Vec<u64> = vec![
            plan::bytes_of_values(input.query),
            plan::bytes_of_values(input.key),
            plan::bytes_of_values(input.value),
            plan::bytes_of_values(input.gate),
            plan::bytes_of_values(input.beta),
            plan::bytes_of_values(input.value),
        ];
        proof {
            assert(parts@ =~= seq![
                plan::value_bytes(input.query as int),
                plan::value_bytes(input.key as int),
                plan::value_bytes(input.value as int),
                plan::value_bytes(input.gate as int),
                plan::value_bytes(input.beta as int),
                plan::value_bytes(input.value as int),
            ]);
        }
        let profile = Profile {
            weights: 0,
            state: plan::bytes_of_values(input.state),
            scratch: plan::sum_all(&parts),
            mapped: false,
        };
        let parallel = switches.gdn_parallel && input.value_dim as u64
            <= self.pipelines().gated_delta_parallel;
        Ok(
            plan_stateful(
                profile,
                "",
                plan_gated_delta(&input, parallel),
                input.value,
                input.state,
                5,
                "Gated DeltaNet step command",
            ),
        )
    }

    /// Plans one depthwise causal convolution update. The weights are laid out
    /// as `[channel][kernel]` and the state as `[channel][kernel - 1]`; the
    /// outputs are the convolved channels and the updated state.
    pub fn causal_conv1d_step(
        &self,
        input: usize,
        state: usize,
        weights: usize,
        channels: usize,
        kernel_size: usize,
    ) -> (result: Result<Plan, String>)
        ensures
            text::outcome_view(result) == causal_conv_plan(
                input,
                state,
                weights,
                channels,
                kernel_size,
            ),
    {
        if channels == 0 || kernel_size < 2 || input != channels {
            return Err("causal convolution dimensions are invalid".to_owned());
        }
        let expected_state: usize = match channels.checked_mul(kernel_size - 1) {
            Some(values) => values,
            None => {
                return Err("causal convolution state dimensions overflow".to_owned());
            },
        };
        let expected_weights: usize = match channels.checked_mul(kernel_size) {
            Some(values) => values,
            None => {
                return Err("causal convolution weight dimensions overflow".to_owned());
            },
        };
        if state != expected_state || weights != expected_weights {
            return Err(
                "causal convolution input, state, or weight lengths are invalid".to_owned(),
            );
        }
        let input_bytes: u64 = plan::bytes_of_values(input);
        let profile = Profile {
            weights: plan::bytes_of_values(weights),
            state: plan::bytes_of_values(state),
            scratch: plan::sum(input_bytes, input_bytes),
            mapped: true,
        };
        Ok(
            plan_stateful(
                profile,
                "Metal could not bind mapped causal convolution weights",
                plan_causal_conv(channels, kernel_size),
                input,
                state,
                2,
                "causal convolution command",
            ),
        )
    }
}

} // verus!
