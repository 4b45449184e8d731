//! The steps of a quantized MLP.
use vstd::prelude::*;

use super::attention;
use super::steps;
use super::steps::{Step, StepView, Steps, StepsView};
use super::values::PlacedTensor;
use crate::metal::context::MetalContext;
use crate::metal::kernel::Switches;
use crate::metal::plan::PlanView;
use crate::metal::quantized_groups;
use crate::quant;
use crate::quant::Quant;
use crate::tensor::{GgufTensorInfo, GgufTensorView};
use crate::text;
use vstd::slice::slice_subrange;

verus! {

/// How many bytes of either matrix of a gated product are read, or what is wrong
/// with them.
pub open spec fn gate_up_bytes(gate: GgufTensorView, up: GgufTensorView) -> Result<
    usize,
    Seq<char>,
> {
    let columns = gate.info.shape@[0];
    let rows = gate.info.shape@[1];
    let expected = rows * quant::quant_row_bytes(Quant::Q4K, columns as int);
    if quant::quant_of(gate.info.ggml_type) != Some(Quant::Q4K) || quant::quant_of(
        up.info.ggml_type,
    ) != Some(Quant::Q4K) || gate.info.shape@ != up.info.shape@ || gate.info.shape@.len() != 2 {
        Err("MLP gate/up tensors must be matching rank-2 Q4_K matrices"@)
    } else if expected > usize::MAX {
        Err("MLP gate/up byte range overflows"@)
    } else if gate.bytes@.len() < expected {
        Err("MLP gate tensor is shorter than its shape"@)
    } else if up.bytes@.len() < expected {
        Err("MLP up tensor is shorter than its shape"@)
    } else {
        Ok(expected as usize)
    }
}

fn same_shape(left: &GgufTensorInfo, right: &GgufTensorInfo) -> (same: bool)
    ensures
        same == (left.shape@ == right.shape@),
{
    if left.shape.len() != right.shape.len() {
        return false;
    }
    let mut index: usize = 0;
    while index < left.shape.len()
        invariant
            index <= left.shape@.len(),
            left.shape@.len() == right.shape@.len(),
            forall|i: int| 0 <= i < index ==> left.shape@[i] == right.shape@[i],
        decreases left.shape@.len() - index,
    {
        if left.shape[index] != right.shape[index] {
            return false;
        }
        index += 1;
    }
    proof {
        assert(left.shape@ =~= right.shape@);
    }
    true
}

/// How many bytes of either matrix of a gated product are read.
pub fn check_gate_up(gate: &GgufTensorView<'_>, up: &GgufTensorView<'_>) -> (result: Result<
    usize,
    String,
>)
    ensures
        text::outcome(result) == gate_up_bytes(*gate, *up),
{
    if gate.info.ggml_type != quant::GGML_TYPE_Q4_K || up.info.ggml_type != quant::GGML_TYPE_Q4_K
        || !same_shape(gate.info, up.info) || gate.info.shape.len() != 2 {
        return Err("MLP gate/up tensors must be matching rank-2 Q4_K matrices".to_owned());
    }
    let columns: usize = gate.info.shape[0];
    let rows: usize = gate.info.shape[1];
    let row_bytes: usize = quant::row_bytes(Quant::Q4K, columns);
    let expected: usize = match rows.checked_mul(row_bytes) {
        Some(bytes) => bytes,
        None => {
            return Err("MLP gate/up byte range overflows".to_owned());
        },
    };
    if gate.bytes.len() < expected {
        return Err("MLP gate tensor is shorter than its shape".to_owned());
    }
    if up.bytes.len() < expected {
        return Err("MLP up tensor is shorter than its shape".to_owned());
    }
    Ok(expected)
}

/// The gated product, once its matrices are right.
pub open spec fn gated_step(gate: GgufTensorView, up: GgufTensorView, switches: Switches) -> Result<
    PlanView,
    Seq<char>,
> {
    let columns = gate.info.shape@[0];
    match gate_up_bytes(gate, up) {
        Err(message) => Err(message),
        Ok(bytes) => quantized_groups::q4_k_fused_gate_up_plan(
            bytes as nat,
            bytes as nat,
            gate.info.shape@[1],
            columns,
            columns,
            switches,
        ),
    }
}

/// What comes of each step of an MLP on one hidden state of as many values as
/// its matrices have columns: the gated product and the down projection.
pub open spec fn mlp_outcomes(
    gate: GgufTensorView,
    up: GgufTensorView,
    down: PlacedTensor,
    switches: Switches,
) -> Seq<Result<StepView, Seq<char>>> {
    seq![
        steps::whole_step(gated_step(gate, up, switches)),
        steps::rows_step(attention::projection_plan(down, gate.info.shape@[1], switches)),
    ]
}

/// The steps of an MLP on one hidden state.
pub open spec fn mlp_steps(
    gate: GgufTensorView,
    up: GgufTensorView,
    down: PlacedTensor,
    switches: Switches,
) -> StepsView {
    steps::taken(mlp_outcomes(gate, up, down, switches))
}

/// Plans the gated product of an MLP.
pub fn plan_gated(
    context: &MetalContext,
    gate: &GgufTensorView<'_>,
    up: &GgufTensorView<'_>,
    switches: &Switches,
) -> (result: Result<Step, String>)
    ensures
        text::outcome_view(result) == steps::whole_step(gated_step(*gate, *up, *switches)),
{
    let bytes: usize = match check_gate_up(gate, up) {
        Ok(bytes) => bytes,
        Err(message) => {
            return Err(message);
        },
    };
    let columns: usize = gate.info.shape[0];
    let rows: usize = gate.info.shape[1];
    steps::of_whole(
        context.q4_k_fused_gate_up(
            slice_subrange(gate.bytes, 0, bytes),
            slice_subrange(up.bytes, 0, bytes),
            rows,
            columns,
            columns,
            switches,
        ),
    )
}

/// Plans the down projection of an MLP.
pub fn plan_down(
    context: &MetalContext,
    gate: &GgufTensorView<'_>,
    down: &PlacedTensor<'_, '_>,
    switches: &Switches,
) -> (result: Result<Step, String>)
    requires
        gate.info.shape@.len() >= 2,
        attention::has_rows(*down),
    ensures
        text::outcome_view(result) == steps::rows_step(
            attention::projection_plan(*down, gate.info.shape@[1], *switches),
        ),
{
    steps::of_rows(
        attention::plan_projection(context, down, gate.info.shape[1], switches),
    )
}

/// Plans the steps of an MLP on one hidden state.
pub fn run_mlp(
    context: &MetalContext,
    gate: &GgufTensorView<'_>,
    up: &GgufTensorView<'_>,
    down: &PlacedTensor<'_, '_>,
    switches: &Switches,
) -> (result: Steps)
    requires
        gated_step(*gate, *up, *switches) is Ok ==> attention::has_rows(*down),
    ensures
        result@ == mlp_steps(*gate, *up, *down, *switches),
{
    let ghost outcomes = mlp_outcomes(*gate, *up, *down, *switches);
    let mut result = Steps::new();
    proof {
        assert(outcomes.take(0) =~= Seq::empty());
        steps::lemma_taken_step(outcomes, 0);
        steps::lemma_taken_step(outcomes, 1);
        assert(outcomes.take(2) =~= outcomes);
    }
    let gated = plan_gated(context, gate, up, switches);
    let ready = gated.is_ok();
    result.add(gated);
    if ready {
        result.add(plan_down(context, gate, down, switches));
    }
    result
}

} // verus!
