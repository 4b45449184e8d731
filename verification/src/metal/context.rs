//! The accounting side of a Metal context: peaks, counters and acceptance of plans.
use vstd::prelude::*;

use super::kernel;
use super::kernel::{Dispatch, Kernel, Switches};
use super::plan;
use super::plan::{Plan, Profile};
use super::stats;
use super::stats::{CommandStats, CommandStatsSnapshot, CommandStatus, Submission};
use crate::text;

verus! {

/// What a Metal device reports of itself.
#[derive(Debug, Clone, PartialEq, Eq)]
pub struct MetalDeviceInfo {
    pub name: String,
    pub registry_id: u64,
    pub recommended_max_working_set_bytes: u64,
    pub max_buffer_bytes: u64,
    pub has_unified_memory: bool,
}

/// The device, or that there is none.
pub fn probe(device: Option<MetalDeviceInfo>) -> (result: Result<MetalDeviceInfo, String>)
    ensures
        match device {
            Some(info) => result == Ok::<MetalDeviceInfo, String>(info),
            None => result is Err && result->Err_0@ == "no Metal device found"@,
        },
{
    match device {
        Some(info) => Ok(info),
        None => Err("no Metal device found".to_owned()),
    }
}

/// What is printed of a device.
pub open spec fn device_lines(info: MetalDeviceInfo) -> Seq<Seq<char>> {
    seq![
        "device="@ + info.name@,
        "registry_id="@ + text::decimal(info.registry_id as nat),
        "recommended_max_working_set_bytes="@ + text::decimal(
            info.recommended_max_working_set_bytes as nat,
        ),
        "max_buffer_bytes="@ + text::decimal(info.max_buffer_bytes as nat),
        if info.has_unified_memory {
            "has_unified_memory=true"@
        } else {
            "has_unified_memory=false"@
        },
    ]
}

impl MetalDeviceInfo {
    /// What is printed of a device.
    pub fn lines(&self) -> (lines: Vec<String>)
        ensures
            text::texts(lines@) == device_lines(*self),
    {
        let unified = if self.has_unified_memory {
            "has_unified_memory=true".to_owned()
        } else {
            "has_unified_memory=false".to_owned()
        };
        let lines: Vec<String> = vec![
            text::concat2("device=", self.name.as_str()),
            text::concat2("registry_id=", text::decimal_text(self.registry_id).as_str()),
            text::concat2(
                "recommended_max_working_set_bytes=",
                text::decimal_text(self.recommended_max_working_set_bytes).as_str(),
            ),
            text::concat2("max_buffer_bytes=", text::decimal_text(self.max_buffer_bytes).as_str()),
            unified,
        ];
        proof {
            assert(text::texts(lines@) =~= device_lines(*self));
        }
        lines
    }
}

/// The pipelines whose presence or width decides how a step is planned.
#[derive(Debug, Clone, Copy, PartialEq, Eq, Structural)]
pub struct Pipelines {
    /// Whether the kernel for bit-packed weights is loaded.
    pub bitpack: bool,
    /// The threads that the batched matrix product allows in a group, if it is loaded.
    pub batched_matmul: Option<u64>,
    /// The threads that the batched Q/K/V projection allows in a group, if it is loaded.
    pub batched_fused_qkv: Option<u64>,
    /// The threads that the batched gate/up projection allows in a group, if it is loaded.
    pub batched_fused_gate_up: Option<u64>,
    /// The threads that the parallel recurrent update allows in a group.
    pub gated_delta_parallel: u64,
}

/// The pipelines that loaded kernels give, where a number beside each kernel
/// says how many threads it allows in a group.
pub open spec fn pipelines_of(kernels: Seq<Kernel>, limits: Seq<u64>) -> Pipelines {
    Pipelines {
        bitpack: kernel::listed_limit(kernels, limits, Kernel::Bf16BitpackMatvec) is Some,
        batched_matmul: kernel::listed_limit(kernels, limits, Kernel::Bf16MatmulMany),
        batched_fused_qkv: kernel::listed_limit(kernels, limits, Kernel::Bf16FusedQkvMany),
        batched_fused_gate_up: kernel::listed_limit(kernels, limits, Kernel::Bf16FusedGateUpMany),
        gated_delta_parallel: match kernel::listed_limit(
            kernels,
            limits,
            Kernel::GatedDeltaStepParallel,
        ) {
            Some(limit) => limit,
            None => 0,
        },
    }
}

impl Pipelines {
    /// The pipelines that the switches load, given how many threads each of
    /// the loaded kernels allows in a group.
    pub fn loaded(switches: &Switches, limits: &[u64]) -> (pipelines: Pipelines)
        requires
            limits@.len() == kernel::loaded_kernels(*switches).len(),
        ensures
            pipelines == pipelines_of(kernel::loaded_kernels(*switches), limits@),
            pipelines.bitpack == switches.lossless_gpu,
            pipelines.batched_matmul is Some == kernel::batched_kernels(*switches),
            pipelines.batched_fused_qkv is Some == kernel::batched_kernels(*switches),
            pipelines.batched_fused_gate_up is Some == kernel::batched_kernels(*switches),
    {
        let kernels = kernel::kernels(switches);
        proof {
            kernel::law_switches_load_optional_kernels(*switches, limits@);
        }
        Pipelines {
            bitpack: kernel::find_limit(&kernels, limits, Kernel::Bf16BitpackMatvec).is_some(),
            batched_matmul: kernel::find_limit(&kernels, limits, Kernel::Bf16MatmulMany),
            batched_fused_qkv: kernel::find_limit(&kernels, limits, Kernel::Bf16FusedQkvMany),
            batched_fused_gate_up: kernel::find_limit(
                &kernels,
                limits,
                Kernel::Bf16FusedGateUpMany,
            ),
            gated_delta_parallel: match kernel::find_limit(
                &kernels,
                limits,
                Kernel::GatedDeltaStepParallel,
            ) {
                Some(limit) => limit,
                None => 0,
            },
        }
    }
}

/// Memory peaks and command counters of a device, and the pipelines it has.
#[derive(Debug)]
pub struct MetalContext {
    pipelines: Pipelines,
    command_stats: CommandStats,
    allocated_bytes: u64,
    peak_allocated_bytes: u64,
    peak_active_weight_bytes: u64,
    resident_weight_bytes: u64,
    persistent_weight_bytes: u64,
    peak_kv_bytes: u64,
    peak_scratch_bytes: u64,
}

/// The state of a context.
pub struct ContextState {
    pub pipelines: Pipelines,
    pub stats: CommandStatsSnapshot,
    pub allocated: u64,
    pub peak_allocated: u64,
    pub peak_weights: u64,
    pub resident: u64,
    pub persistent: u64,
    pub peak_state: u64,
    pub peak_scratch: u64,
}

impl View for MetalContext {
    type V = ContextState;

    closed spec fn view(&self) -> ContextState {
        ContextState {
            pipelines: self.pipelines,
            stats: self.command_stats@,
            allocated: self.allocated_bytes,
            peak_allocated: self.peak_allocated_bytes,
            peak_weights: self.peak_active_weight_bytes,
            resident: self.resident_weight_bytes,
            persistent: self.persistent_weight_bytes,
            peak_state: self.peak_kv_bytes,
            peak_scratch: self.peak_scratch_bytes,
        }
    }
}

pub open spec fn greater(left: u64, right: u64) -> u64 {
    if left >= right {
        left
    } else {
        right
    }
}

fn greater_of(left: u64, right: u64) -> (value: u64)
    ensures
        value == greater(left, right),
{
    if left >= right {
        left
    } else {
        right
    }
}

/// The bytes of weights in use while a step runs: all of them where they are
/// resident, otherwise what persists and what the step reads.
pub open spec fn weights_in_use(state: ContextState, profile: Profile) -> u64 {
    if state.resident > 0 {
        state.resident
    } else {
        plan::plus(state.persistent, profile.weights)
    }
}

/// The bytes of weights that take memory of their own while a step runs:
/// mapped weights do not.
pub open spec fn weights_allocated(state: ContextState, profile: Profile) -> u64 {
    if profile.mapped {
        if state.resident > 0 {
            state.resident
        } else {
            state.persistent
        }
    } else {
        weights_in_use(state, profile)
    }
}

/// The state after a step with a profile has been noted.
pub open spec fn profiled(state: ContextState, profile: Profile) -> ContextState {
    ContextState {
        peak_state: greater(state.peak_state, profile.state),
        peak_scratch: greater(state.peak_scratch, profile.scratch),
        peak_weights: greater(state.peak_weights, weights_in_use(state, profile)),
        peak_allocated: greater(
            state.peak_allocated,
            plan::plus(
                plan::plus(weights_allocated(state, profile), profile.state),
                profile.scratch,
            ),
        ),
        ..state
    }
}

/// The state after a new measurement has begun.
pub open spec fn reset(state: ContextState) -> ContextState {
    ContextState {
        peak_allocated: state.allocated,
        peak_weights: greater(state.resident, state.persistent),
        peak_state: 0,
        peak_scratch: 0,
        ..state
    }
}

/// Noting a step never lowers a peak, and the new peaks cover the step.
pub proof fn law_peaks_only_grow(state: ContextState, profile: Profile)
    ensures
        ({
            let after = profiled(state, profile);
            &&& after.peak_allocated >= state.peak_allocated
            &&& after.peak_weights >= state.peak_weights
            &&& after.peak_state >= state.peak_state
            &&& after.peak_scratch >= state.peak_scratch
            &&& after.peak_state >= profile.state
            &&& after.peak_scratch >= profile.scratch
            &&& after.peak_allocated >= profile.state
            &&& after.peak_allocated >= profile.scratch
            &&& !profile.mapped && state.resident == 0 ==> after.peak_allocated
                >= profile.weights
        }),
{
}

/// A new measurement forgets the transient peaks and keeps the weights that
/// stay: what is resident or persistent is part of the next peak.
pub proof fn law_reset_keeps_lasting_weights(state: ContextState, profile: Profile)
    ensures
        ({
            let begun = reset(state);
            let after = profiled(begun, profile);
            &&& begun.resident == state.resident
            &&& begun.persistent == state.persistent
            &&& begun.stats == state.stats
            &&& begun.peak_weights >= state.resident
            &&& begun.peak_weights >= state.persistent
            &&& after.peak_state == profile.state
            &&& after.peak_scratch == profile.scratch
        }),
{
}

/// Noting the same step again changes nothing.
pub proof fn law_profile_is_idempotent(state: ContextState, profile: Profile)
    ensures
        profiled(profiled(state, profile), profile) == profiled(state, profile),
{
}

/// Reading weights from a mapping counts them as used and not as allocated.
pub proof fn law_mapped_weights_are_not_allocated(
    state: ContextState,
    profile: Profile,
)
    requires
        profile.mapped,
    ensures
        weights_allocated(state, profile) <= weights_in_use(state, profile),
        state.resident == 0 ==> weights_allocated(state, profile) == state.persistent,
{
}

/// What comes of a plan once the device has tried to bind the weights.
pub open spec fn accepted_command(plan: plan::PlanView, bound: bool) -> Result<Seq<Dispatch>, Seq<char>> {
    if !bound {
        Err(plan.unbound)
    } else {
        plan.command
    }
}

impl MetalContext {
    /// A context that has seen nothing yet.
    pub fn new(pipelines: Pipelines) -> (context: MetalContext)
        ensures
            context@ == (ContextState {
                pipelines,
                stats: CommandStatsSnapshot {
                    submitted: 0,
                    async_submitted: 0,
                    waited: 0,
                    wait_nanos: 0,
                },
                allocated: 0,
                peak_allocated: 0,
                peak_weights: 0,
                resident: 0,
                persistent: 0,
                peak_state: 0,
                peak_scratch: 0,
            }),
    {
        MetalContext {
            pipelines,
            command_stats: CommandStats::default(),
            allocated_bytes: 0,
            peak_allocated_bytes: 0,
            peak_active_weight_bytes: 0,
            resident_weight_bytes: 0,
            persistent_weight_bytes: 0,
            peak_kv_bytes: 0,
            peak_scratch_bytes: 0,
        }
    }

    pub fn pipelines(&self) -> (pipelines: Pipelines)
        ensures
            pipelines == self@.pipelines,
    {
        self.pipelines
    }

    /// Takes note of the bytes that the device says are allocated.
    pub fn report_allocated(&mut self, bytes: u64)
        ensures
            final(self)@ == (ContextState { allocated: bytes, ..old(self)@ }),
    {
        self.allocated_bytes = bytes;
    }

    /// The bytes that the device last said are allocated.
    pub fn current_allocated_bytes(&self) -> (bytes: u64)
        ensures
            bytes == self@.allocated,
    {
        self.allocated_bytes
    }

    pub fn command_stats(&self) -> (snapshot: CommandStatsSnapshot)
        ensures
            snapshot == self@.stats,
    {
        self.command_stats.snapshot()
    }

    pub fn peak_allocated_bytes(&self) -> (bytes: u64)
        ensures
            bytes == self@.peak_allocated,
    {
        self.peak_allocated_bytes
    }

    pub fn peak_active_weight_bytes(&self) -> (bytes: u64)
        ensures
            bytes == self@.peak_weights,
    {
        self.peak_active_weight_bytes
    }

    pub fn peak_kv_bytes(&self) -> (bytes: u64)
        ensures
            bytes == self@.peak_state,
    {
        self.peak_kv_bytes
    }

    pub fn peak_scratch_bytes(&self) -> (bytes: u64)
        ensures
            bytes == self@.peak_scratch,
    {
        self.peak_scratch_bytes
    }

    /// Begins a new measurement: resident weights remain part of the next
    /// peak; transient state and scratch are measured afresh.
    pub fn reset_peaks(&mut self)
        ensures
            final(self)@ == reset(old(self)@),
    {
        self.peak_allocated_bytes = self.allocated_bytes;
        self.peak_active_weight_bytes = greater_of(
            self.resident_weight_bytes,
            self.persistent_weight_bytes,
        );
        self.peak_kv_bytes = 0;
        self.peak_scratch_bytes = 0;
    }

    /// Lets what the device last said is allocated count towards the peak.
    pub fn sample_allocated(&mut self)
        ensures
            final(self)@ == (ContextState {
                peak_allocated: greater(old(self)@.peak_allocated, old(self)@.allocated),
                ..old(self)@
            }),
    {
        self.peak_allocated_bytes = greater_of(self.peak_allocated_bytes, self.allocated_bytes);
    }

    pub fn note_resident_weight_bytes(&mut self, bytes: u64)
        ensures
            final(self)@ == (ContextState {
                resident: greater(old(self)@.resident, bytes),
                persistent: greater(old(self)@.persistent, bytes),
                peak_weights: greater(old(self)@.peak_weights, bytes),
                ..old(self)@
            }),
    {
        self.resident_weight_bytes = greater_of(self.resident_weight_bytes, bytes);
        self.persistent_weight_bytes = greater_of(self.persistent_weight_bytes, bytes);
        self.peak_active_weight_bytes = greater_of(self.peak_active_weight_bytes, bytes);
    }

    pub fn note_persistent_weight_bytes(&mut self, bytes: u64)
        ensures
            final(self)@ == noted_persistent(old(self)@, bytes),
    {
        self.persistent_weight_bytes = self.persistent_weight_bytes.wrapping_add(bytes);
        self.peak_active_weight_bytes = greater_of(
            self.peak_active_weight_bytes,
            self.persistent_weight_bytes,
        );
    }

    /// Lets a retained buffer of so many bytes count towards the allocation peak.
    pub fn note_retained_buffer(&mut self, bytes: u64)
        ensures
            final(self)@ == (ContextState {
                peak_allocated: greater(old(self)@.peak_allocated, bytes),
                ..old(self)@
            }),
    {
        self.peak_allocated_bytes = greater_of(self.peak_allocated_bytes, bytes);
    }

    /// Takes note of the memory that a step takes.
    pub fn record_profile(&mut self, profile: Profile)
        ensures
            final(self)@ == profiled(old(self)@, profile),
    {
        self.peak_kv_bytes = greater_of(self.peak_kv_bytes, profile.state);
        self.peak_scratch_bytes = greater_of(self.peak_scratch_bytes, profile.scratch);
        let used: u64 = if self.resident_weight_bytes > 0 {
            self.resident_weight_bytes
        } else {
            plan::sum(self.persistent_weight_bytes, profile.weights)
        };
        self.peak_active_weight_bytes = greater_of(self.peak_active_weight_bytes, used);
        let allocated: u64 = if profile.mapped {
            if self.resident_weight_bytes > 0 {
                self.resident_weight_bytes
            } else {
                self.persistent_weight_bytes
            }
        } else {
            used
        };
        self.peak_allocated_bytes = greater_of(
            self.peak_allocated_bytes,
            plan::sum(plan::sum(allocated, profile.state), profile.scratch),
        );
    }

    /// Accepts a plan once the device has tried to bind its weights: takes note
    /// of the memory and hands the launches over. A plan whose weights could
    /// not be bound leaves no note; one that exceeds a limit does.
    pub fn accept(&mut self, plan: Plan, bound: bool) -> (result: Result<Vec<Dispatch>, String>)
        ensures
            plan::command_view(result) == accepted_command(plan@, bound),
            final(self)@ == (if bound {
                profiled(old(self)@, plan.profile)
            } else {
                old(self)@
            }),
    {
        if !bound {
            return Err(plan.unbound);
        }
        self.record_profile(plan.profile);
        plan.command
    }

    /// Ends a command after a wait of so many nanoseconds.
    pub fn finish_command(&mut self, operation: &str, status: CommandStatus, nanos: u128) -> (result: Result<
        (),
        String,
    >)
        ensures
            text::outcome(result) == stats::command_outcome(operation@, status),
            final(self)@ == (ContextState {
                stats: stats::after_wait(
                    stats::after_submission(old(self)@.stats),
                    nanos as int,
                ),
                ..old(self)@
            }),
    {
        self.command_stats.record_submission();
        self.command_stats.record_wait(nanos);
        stats::command_result(operation, status)
    }

    /// Ends the command of a plan after a wait of so many nanoseconds.
    pub fn finish_plan(
        &mut self,
        submission: Submission,
        operation: &str,
        status: CommandStatus,
        nanos: u128,
    ) -> (result: Result<(), String>)
        ensures
            text::outcome(result) == stats::command_outcome(operation@, status),
            final(self)@ == (ContextState {
                stats: stats::after_finished(old(self)@.stats, submission, nanos as int),
                ..old(self)@
            }),
    {
        match submission {
            Submission::AtOnce => self.command_stats.record_submission(),
            Submission::Pending => self.command_stats.record_async_submission(),
        }
        self.command_stats.record_wait(nanos);
        stats::command_result(operation, status)
    }

    /// Takes note of a command that nobody waits for at once.
    pub fn submit_async(&mut self, outputs: Vec<usize>) -> (pending: stats::PendingMatvec)
        ensures
            pending@ == (stats::PendingView {
                status: CommandStatus::Committed,
                outputs: outputs@,
                kept: Seq::empty(),
            }),
            final(self)@ == (ContextState {
                stats: stats::after_async_submission(old(self)@.stats),
                ..old(self)@
            }),
    {
        self.command_stats.record_async_submission();
        stats::PendingMatvec::submitted(outputs)
    }

    /// Ends a command that was submitted before.
    pub fn wait(&mut self, pending: stats::PendingMatvec, nanos: u128) -> (result: Result<
        Vec<usize>,
        String,
    >)
        ensures
            final(self)@ == (ContextState {
                stats: stats::after_wait(old(self)@.stats, nanos as int),
                ..old(self)@
            }),
            match stats::command_outcome("command"@, pending@.status) {
                Ok(()) => result is Ok && result->Ok_0@ == pending@.outputs,
                Err(message) => result is Err && result->Err_0@ == message,
            },
    {
        pending.wait(nanos, &mut self.command_stats)
    }
}

/// The state after persistent weights have been added.
pub open spec fn noted_persistent(state: ContextState, bytes: u64) -> ContextState {
    let persistent = stats::counted(state.persistent, bytes as int);
    ContextState {
        persistent,
        peak_weights: greater(state.peak_weights, persistent),
        ..state
    }
}

} // verus!
