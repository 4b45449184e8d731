//! The steps of a Gated DeltaNet layer.
use vstd::prelude::*;

use super::attention;
use super::steps;
use super::steps::{Step, StepView, Steps, StepsView};
use super::values;
use super::values::{PlacedTensor, ValueRange};
use crate::metal::context::MetalContext;
use crate::metal::kernel::Switches;
use crate::metal::matvec;
use crate::metal::norm;
use crate::metal::plan::{Plan, PlanView, SlicePlan, SliceView};
use crate::metal::recurrent;
use crate::metal::recurrent::GatedDeltaInput;
use crate::text;

verus! {

/// The dimensions of a Gated DeltaNet layer; the floating-point parameter
/// stands as its bits.
#[derive(Debug, Clone, Copy, PartialEq, Eq)]
pub struct GatedDeltaShape {
    pub projection_size: usize,
    pub conv_kernel: usize,
    pub key_heads: usize,
    pub value_heads: usize,
    pub head_dim: usize,
    pub epsilon: u32,
}

/// The tensors of a Gated DeltaNet layer.
pub struct GatedDeltaTensors<'a, 'b> {
    pub qkv: PlacedTensor<'a, 'b>,
    pub z: PlacedTensor<'a, 'b>,
    pub alpha: PlacedTensor<'a, 'b>,
    pub beta: PlacedTensor<'a, 'b>,
    pub convolution: PlacedTensor<'a, 'b>,
    pub a_log: PlacedTensor<'a, 'b>,
    pub dt_bias: PlacedTensor<'a, 'b>,
    pub norm: PlacedTensor<'a, 'b>,
    pub output: PlacedTensor<'a, 'b>,
}

/// Whether the heads have room in what the convolution puts out, and the key
/// heads can be repeated for the value heads.
pub open spec fn heads_fit(shape: GatedDeltaShape) -> bool {
    &&& shape.key_heads > 0
    &&& shape.value_heads % shape.key_heads == 0
    &&& shape.key_heads * shape.head_dim * 2 + shape.value_heads * shape.head_dim
        <= shape.projection_size
    &&& shape.value_heads * shape.head_dim * shape.head_dim <= usize::MAX
}

/// Where queries, keys and values are in what the convolution puts out.
#[derive(Debug, Clone, Copy, PartialEq, Eq, Structural)]
pub struct MixedRanges {
    pub queries: ValueRange,
    pub keys: ValueRange,
    pub values: ValueRange,
}

/// The queries of all key heads come first, then their keys, then the values
/// of all value heads.
pub open spec fn ranges_of_mixed(shape: GatedDeltaShape) -> MixedRanges {
    let keys = shape.key_heads * shape.head_dim;
    let values = shape.value_heads * shape.head_dim;
    MixedRanges {
        queries: ValueRange { start: 0, end: keys as usize },
        keys: ValueRange { start: keys as usize, end: (keys * 2) as usize },
        values: ValueRange { start: (keys * 2) as usize, end: (keys * 2 + values) as usize },
    }
}

/// Where the queries, keys and values of the recurrent update are in what the
/// convolution puts out.
pub fn mixed_ranges(shape: &GatedDeltaShape) -> (ranges: MixedRanges)
    requires
        heads_fit(*shape),
    ensures
        ranges == ranges_of_mixed(*shape),
{
    proof {
        assert(shape.key_heads * shape.head_dim >= 0) by (nonlinear_arith);
        assert(shape.value_heads * shape.head_dim >= 0) by (nonlinear_arith);
    }
    let keys: usize = shape.key_heads * shape.head_dim;
    let values: usize = shape.value_heads * shape.head_dim;
    MixedRanges {
        queries: ValueRange { start: 0, end: keys },
        keys: ValueRange { start: keys, end: keys * 2 },
        values: ValueRange { start: keys * 2, end: keys * 2 + values },
    }
}

/// Where the convolution is accepted and the heads fit, the ranges follow each
/// other inside what it puts out, there are as many queries as keys, one for
/// each value of the key heads, and as many values as the update takes.
pub proof fn law_mixed_ranges_are_inside(shape: GatedDeltaShape, tensors: GatedDeltaTensors)
    requires
        heads_fit(shape),
        convolution_step(shape, tensors) is Ok,
    ensures
        ({
            let ranges = ranges_of_mixed(shape);
            let mixed = convolution_step(shape, tensors)->Ok_0.outputs[0];
            &&& ranges.queries.start == 0
            &&& ranges.queries.end == ranges.keys.start
            &&& ranges.keys.end == ranges.values.start
            &&& ranges.values.end <= mixed
            &&& ranges.queries.end - ranges.queries.start == shape.key_heads * shape.head_dim
            &&& ranges.keys.end - ranges.keys.start == shape.key_heads * shape.head_dim
            &&& ranges.values.end - ranges.values.start == first_update_input(
                shape,
                tensors,
            ).value
        }),
{
    assert(shape.key_heads * shape.head_dim >= 0) by (nonlinear_arith);
    assert(shape.value_heads * shape.head_dim >= 0) by (nonlinear_arith);
}

pub open spec fn value_count(placed: PlacedTensor) -> Result<usize, Seq<char>> {
    values::f32_value_count(*placed.tensor, placed.address as int)
}

/// The joint projection, once the tensors that the host reads can be read.
pub open spec fn joint_step(tensors: GatedDeltaTensors, hidden: usize, switches: Switches) -> Result<
    SliceView,
    Seq<char>,
> {
    match value_count(tensors.convolution) {
        Err(message) => Err(message),
        Ok(_) => match value_count(tensors.a_log) {
            Err(message) => Err(message),
            Ok(_) => match value_count(tensors.dt_bias) {
                Err(message) => Err(message),
                Ok(_) => match value_count(tensors.norm) {
                    Err(message) => Err(message),
                    Ok(_) => attention::projection_plan(tensors.qkv, hidden, switches),
                },
            },
        },
    }
}

/// A projection by all rows of an F32 tensor.
pub open spec fn f32_projection_plan(placed: PlacedTensor, input: usize) -> Result<
    SliceView,
    Seq<char>,
> {
    matvec::f32_rows_plan(
        *placed.tensor,
        placed.address as int,
        0,
        placed.tensor.info.shape@[1],
        input,
    )
}

/// The number of gates: one for each alpha that has a decay and a bias.
pub open spec fn gate_count(tensors: GatedDeltaTensors) -> usize {
    let alpha = tensors.alpha.tensor.info.shape@[1];
    let a_log = value_count(tensors.a_log)->Ok_0;
    let dt_bias = value_count(tensors.dt_bias)->Ok_0;
    if alpha <= a_log && alpha <= dt_bias {
        alpha
    } else if a_log <= dt_bias {
        a_log
    } else {
        dt_bias
    }
}

/// The inputs of the recurrent update from an empty state.
pub open spec fn first_update_input(shape: GatedDeltaShape, tensors: GatedDeltaTensors) -> GatedDeltaInput {
    let width = (shape.value_heads * shape.head_dim) as usize;
    GatedDeltaInput {
        query: width,
        key: width,
        value: width,
        gate: gate_count(tensors),
        beta: tensors.beta.tensor.info.shape@[1],
        state: (shape.value_heads * shape.head_dim * shape.head_dim) as usize,
        heads: shape.value_heads,
        key_dim: shape.head_dim,
        value_dim: shape.head_dim,
    }
}

/// The convolution of the joint projection from an empty state.
pub open spec fn convolution_step(shape: GatedDeltaShape, tensors: GatedDeltaTensors) -> Result<
    PlanView,
    Seq<char>,
> {
    recurrent::causal_conv_plan(
        tensors.qkv.tensor.info.shape@[1],
        (shape.projection_size * (shape.conv_kernel - 1)) as usize,
        value_count(tensors.convolution)->Ok_0,
        shape.projection_size,
        shape.conv_kernel,
    )
}

/// The gated normalization of what the update puts out.
pub open spec fn gated_norm_step(shape: GatedDeltaShape, tensors: GatedDeltaTensors) -> Result<
    PlanView,
    Seq<char>,
> {
    norm::rms_norm_gated_plan(
        (shape.value_heads * shape.head_dim) as usize,
        tensors.z.tensor.info.shape@[1],
        value_count(tensors.norm)->Ok_0,
        shape.value_heads,
        shape.head_dim,
        shape.epsilon,
    )
}

/// How many steps a layer has.
pub const LAYER_STEPS: usize = 8;

/// What comes of each step of a layer on one hidden state: four projections,
/// the convolution, the recurrent update, the gated normalization and the
/// output projection. `limit` is the threads that the parallel update allows.
pub open spec fn layer_outcomes(
    shape: GatedDeltaShape,
    tensors: GatedDeltaTensors,
    hidden: usize,
    switches: Switches,
    limit: u64,
) -> Seq<Result<StepView, Seq<char>>> {
    let width = (shape.value_heads * shape.head_dim) as usize;
    seq![
        steps::rows_step(joint_step(tensors, hidden, switches)),
        steps::rows_step(attention::projection_plan(tensors.z, hidden, switches)),
        steps::rows_step(f32_projection_plan(tensors.alpha, hidden)),
        steps::rows_step(f32_projection_plan(tensors.beta, hidden)),
        steps::whole_step(convolution_step(shape, tensors)),
        steps::whole_step(
            recurrent::gated_delta_plan(first_update_input(shape, tensors), switches, limit),
        ),
        steps::whole_step(gated_norm_step(shape, tensors)),
        steps::rows_step(attention::projection_plan(tensors.output, width, switches)),
    ]
}

/// The steps of a layer on one hidden state.
pub open spec fn gated_delta_layer_steps(
    shape: GatedDeltaShape,
    tensors: GatedDeltaTensors,
    hidden: usize,
    switches: Switches,
    limit: u64,
) -> StepsView {
    steps::taken(layer_outcomes(shape, tensors, hidden, switches, limit))
}

/// Whether the tensors that the host reads can be read.
pub open spec fn values_are_read(tensors: GatedDeltaTensors) -> bool {
    &&& value_count(tensors.convolution) is Ok
    &&& value_count(tensors.a_log) is Ok
    &&& value_count(tensors.dt_bias) is Ok
    &&& value_count(tensors.norm) is Ok
}

/// What a step of a layer needs. A projection multiplies by rows; the first
/// one is looked at only once the tensors that the host reads can be read. The
/// convolution has a kernel and a state that fits a machine-sized number, and
/// from the update on the heads fit.
pub open spec fn step_fits(shape: GatedDeltaShape, tensors: GatedDeltaTensors, index: int) -> bool {
    if index == 0 {
        values_are_read(tensors) ==> attention::has_rows(tensors.qkv)
    } else if index == 1 {
        attention::has_rows(tensors.z)
    } else if index == 2 {
        attention::has_rows(tensors.alpha)
    } else if index == 3 {
        attention::has_rows(tensors.beta)
    } else if index == 4 {
        &&& values_are_read(tensors)
        &&& attention::has_rows(tensors.qkv)
        &&& shape.conv_kernel >= 1
        &&& shape.projection_size * (shape.conv_kernel - 1) <= usize::MAX
    } else if index == 5 {
        &&& values_are_read(tensors)
        &&& attention::has_rows(tensors.alpha)
        &&& attention::has_rows(tensors.beta)
        &&& heads_fit(shape)
    } else if index == 6 {
        &&& values_are_read(tensors)
        &&& attention::has_rows(tensors.z)
        &&& heads_fit(shape)
    } else {
        heads_fit(shape) && attention::has_rows(tensors.output)
    }
}

/// Every step that is reached has what it needs.
pub open spec fn layer_fits(
    shape: GatedDeltaShape,
    tensors: GatedDeltaTensors,
    hidden: usize,
    switches: Switches,
    limit: u64,
) -> bool {
    forall|index: int|
        0 <= index < LAYER_STEPS && steps::reaches(
            layer_outcomes(shape, tensors, hidden, switches, limit),
            index,
        ) ==> #[trigger] step_fits(shape, tensors, index)
}

/// Once the projections are planned, the convolution needs no more than a
/// kernel and a state that fits, and the steps behind it up to the output
/// projection no more than heads that fit.
pub proof fn law_planned_projections_leave_dimensions(
    shape: GatedDeltaShape,
    tensors: GatedDeltaTensors,
    hidden: usize,
    switches: Switches,
    limit: u64,
    index: int,
)
    requires
        4 <= index < 7,
        steps::reaches(layer_outcomes(shape, tensors, hidden, switches, limit), index),
    ensures
        index == 4 ==> (step_fits(shape, tensors, index) <==> shape.conv_kernel >= 1
            && shape.projection_size * (shape.conv_kernel - 1) <= usize::MAX),
        index > 4 ==> (step_fits(shape, tensors, index) <==> heads_fit(shape)),
{
    let outcomes = layer_outcomes(shape, tensors, hidden, switches, limit);
    assert(outcomes[0] is Ok && outcomes[1] is Ok && outcomes[2] is Ok && outcomes[3] is Ok);
}

fn check_heads_fit(shape: &GatedDeltaShape) -> (fit: bool)
    ensures
        fit == heads_fit(*shape),
{
    proof {
        assert(shape.key_heads * shape.head_dim >= 0) by (nonlinear_arith);
        assert(shape.value_heads * shape.head_dim >= 0) by (nonlinear_arith);
        assert(shape.value_heads * shape.head_dim * shape.head_dim >= 0) by (nonlinear_arith);
    }
    if shape.key_heads == 0 || shape.value_heads % shape.key_heads != 0 {
        return false;
    }
    let keys: usize = match shape.key_heads.checked_mul(shape.head_dim) {
        Some(keys) => keys,
        None => {
            return false;
        },
    };
    let values: usize = match shape.value_heads.checked_mul(shape.head_dim) {
        Some(values) => values,
        None => {
            return false;
        },
    };
    let both: usize = match keys.checked_mul(2) {
        Some(both) => both,
        None => {
            return false;
        },
    };
    both <= shape.projection_size && values <= shape.projection_size - both && values.checked_mul(
        shape.head_dim,
    ).is_some()
}

fn check_values_are_read(tensors: &GatedDeltaTensors<'_, '_>) -> (read: bool)
    ensures
        read == values_are_read(*tensors),
{
    values::f32_values(&tensors.convolution).is_ok() && values::f32_values(&tensors.a_log).is_ok()
        && values::f32_values(&tensors.dt_bias).is_ok() && values::f32_values(
        &tensors.norm,
    ).is_ok()
}

/// Whether a step of a layer has what it needs.
pub fn check_step_fits(
    shape: &GatedDeltaShape,
    tensors: &GatedDeltaTensors<'_, '_>,
    index: usize,
) -> (fits: bool)
    ensures
        fits == step_fits(*shape, *tensors, index as int),
{
    if index == 0 {
        !check_values_are_read(tensors) || attention::check_has_rows(&tensors.qkv)
    } else if index == 1 {
        attention::check_has_rows(&tensors.z)
    } else if index == 2 {
        attention::check_has_rows(&tensors.alpha)
    } else if index == 3 {
        attention::check_has_rows(&tensors.beta)
    } else if index == 4 {
        proof {
            if shape.conv_kernel >= 1 {
                assert(shape.projection_size * (shape.conv_kernel - 1) >= 0) by (nonlinear_arith)
                    requires
                        shape.conv_kernel >= 1,
                ;
            }
        }
        check_values_are_read(tensors) && attention::check_has_rows(&tensors.qkv)
            && shape.conv_kernel >= 1 && shape.projection_size.checked_mul(
            shape.conv_kernel - 1,
        ).is_some()
    } else if index == 5 {
        check_values_are_read(tensors) && attention::check_has_rows(&tensors.alpha)
            && attention::check_has_rows(&tensors.beta) && check_heads_fit(shape)
    } else if index == 6 {
        check_values_are_read(tensors) && attention::check_has_rows(&tensors.z)
            && check_heads_fit(shape)
    } else {
        check_heads_fit(shape) && attention::check_has_rows(&tensors.output)
    }
}

fn count_of(placed: &PlacedTensor<'_, '_>) -> (count: usize)
    requires
        value_count(*placed) is Ok,
    ensures
        value_count(*placed) == Ok::<usize, Seq<char>>(count),
{
    match values::f32_values(placed) {
        Ok(count) => count,
        Err(_) => 0,
    }
}

fn plan_f32_projection(context: &MetalContext, placed: &PlacedTensor<'_, '_>, input: usize) -> (result: Result<
    SlicePlan,
    String,
>)
    requires
        placed.tensor.info.shape@.len() >= 2,
    ensures
        text::outcome_view(result) == f32_projection_plan(*placed, input),
{
    context.f32_matvec_tensor_rows(
        placed.tensor,
        placed.address,
        0,
        placed.tensor.info.shape[1],
        input,
    )
}

fn plan_joint(
    context: &MetalContext,
    tensors: &GatedDeltaTensors<'_, '_>,
    hidden: usize,
    switches: &Switches,
) -> (result: Result<SlicePlan, String>)
    requires
        values_are_read(*tensors) ==> attention::has_rows(tensors.qkv),
    ensures
        text::outcome_view(result) == joint_step(*tensors, hidden, *switches),
{
    match values::f32_values(&tensors.convolution) {
        Ok(_) => {},
        Err(message) => {
            return Err(message);
        },
    }
    match values::f32_values(&tensors.a_log) {
        Ok(_) => {},
        Err(message) => {
            return Err(message);
        },
    }
    match values::f32_values(&tensors.dt_bias) {
        Ok(_) => {},
        Err(message) => {
            return Err(message);
        },
    }
    match values::f32_values(&tensors.norm) {
        Ok(_) => {},
        Err(message) => {
            return Err(message);
        },
    }
    attention::plan_projection(context, &tensors.qkv, hidden, switches)
}

fn plan_convolution(
    context: &MetalContext,
    shape: &GatedDeltaShape,
    tensors: &GatedDeltaTensors<'_, '_>,
) -> (result: Result<Plan, String>)
    requires
        step_fits(*shape, *tensors, 4),
    ensures
        text::outcome_view(result) == convolution_step(*shape, *tensors),
{
    proof {
        assert(shape.projection_size * (shape.conv_kernel - 1) >= 0) by (nonlinear_arith)
            requires
                shape.conv_kernel >= 1,
        ;
    }
    context.causal_conv1d_step(
        tensors.qkv.tensor.info.shape[1],
        shape.projection_size * (shape.conv_kernel - 1),
        count_of(&tensors.convolution),
        shape.projection_size,
        shape.conv_kernel,
    )
}

fn plan_update(
    context: &MetalContext,
    shape: &GatedDeltaShape,
    tensors: &GatedDeltaTensors<'_, '_>,
    switches: &Switches,
) -> (result: Result<Plan, String>)
    requires
        step_fits(*shape, *tensors, 5),
    ensures
        text::outcome_view(result) == recurrent::gated_delta_plan(
            first_update_input(*shape, *tensors),
            *switches,
            context@.pipelines.gated_delta_parallel,
        ),
{
    proof {
        assert(shape.key_heads * shape.head_dim * 2 >= 0) by (nonlinear_arith);
        assert(shape.value_heads * shape.head_dim >= 0) by (nonlinear_arith);
        assert(shape.value_heads * shape.head_dim * shape.head_dim >= 0) by (nonlinear_arith);
    }
    let width: usize = shape.value_heads * shape.head_dim;
    let alpha: usize = tensors.alpha.tensor.info.shape[1];
    let a_log: usize = count_of(&tensors.a_log);
    let dt_bias: usize = count_of(&tensors.dt_bias);
    let gate: usize = if alpha <= a_log && alpha <= dt_bias {
        alpha
    } else if a_log <= dt_bias {
        a_log
    } else {
        dt_bias
    };
    let input = GatedDeltaInput {
        query: width,
        key: width,
        value: width,
        gate,
        beta: tensors.beta.tensor.info.shape[1],
        state: width * shape.head_dim,
        heads: shape.value_heads,
        key_dim: shape.head_dim,
        value_dim: shape.head_dim,
    };
    context.gated_delta_step(input, switches)
}

fn plan_gated_norm(
    context: &MetalContext,
    shape: &GatedDeltaShape,
    tensors: &GatedDeltaTensors<'_, '_>,
) -> (result: Result<Plan, String>)
    requires
        step_fits(*shape, *tensors, 6),
    ensures
        text::outcome_view(result) == gated_norm_step(*shape, *tensors),
{
    proof {
        assert(shape.key_heads * shape.head_dim * 2 >= 0) by (nonlinear_arith);
        assert(shape.value_heads * shape.head_dim >= 0) by (nonlinear_arith);
    }
    context.rms_norm_gated(
        shape.value_heads * shape.head_dim,
        tensors.z.tensor.info.shape[1],
        count_of(&tensors.norm),
        shape.value_heads,
        shape.head_dim,
        shape.epsilon,
    )
}

/// Plans one step of a Gated DeltaNet layer on one hidden state.
pub fn plan_step(
    context: &MetalContext,
    shape: &GatedDeltaShape,
    tensors: &GatedDeltaTensors<'_, '_>,
    hidden: usize,
    switches: &Switches,
    index: usize,
) -> (result: Result<Step, String>)
    requires
        index < LAYER_STEPS,
        step_fits(*shape, *tensors, index as int),
    ensures
        text::outcome_view(result) == layer_outcomes(
            *shape,
            *tensors,
            hidden,
            *switches,
            context@.pipelines.gated_delta_parallel,
        )[index as int],
{
    proof {
        assert(shape.key_heads * shape.head_dim * 2 >= 0) by (nonlinear_arith);
        assert(shape.value_heads * shape.head_dim >= 0) by (nonlinear_arith);
    }
    if index == 0 {
        steps::of_rows(plan_joint(context, tensors, hidden, switches))
    } else if index == 1 {
        steps::of_rows(attention::plan_projection(context, &tensors.z, hidden, switches))
    } else if index == 2 {
        steps::of_rows(plan_f32_projection(context, &tensors.alpha, hidden))
    } else if index == 3 {
        steps::of_rows(plan_f32_projection(context, &tensors.beta, hidden))
    } else if index == 4 {
        steps::of_whole(plan_convolution(context, shape, tensors))
    } else if index == 5 {
        steps::of_whole(plan_update(context, shape, tensors, switches))
    } else if index == 6 {
        steps::of_whole(plan_gated_norm(context, shape, tensors))
    } else {
        let width: usize = shape.value_heads * shape.head_dim;
        steps::of_rows(attention::plan_projection(context, &tensors.output, width, switches))
    }
}

/// Plans the steps of a Gated DeltaNet layer on one hidden state.
pub fn run_layer(
    context: &MetalContext,
    shape: &GatedDeltaShape,
    tensors: &GatedDeltaTensors<'_, '_>,
    hidden: usize,
    switches: &Switches,
) -> (result: Steps)
    requires
        layer_fits(
            *shape,
            *tensors,
            hidden,
            *switches,
            context@.pipelines.gated_delta_parallel,
        ),
    ensures
        result@ == gated_delta_layer_steps(
            *shape,
            *tensors,
            hidden,
            *switches,
            context@.pipelines.gated_delta_parallel,
        ),
{
    let ghost limit = context@.pipelines.gated_delta_parallel;
    let ghost outcomes = layer_outcomes(*shape, *tensors, hidden, *switches, limit);
    let mut result = Steps::new();
    let mut index: usize = 0;
    proof {
        assert(outcomes.take(0) =~= Seq::empty());
    }
    while index < LAYER_STEPS && result.failure.is_none()
        invariant
            index <= LAYER_STEPS,
            limit == context@.pipelines.gated_delta_parallel,
            outcomes == layer_outcomes(*shape, *tensors, hidden, *switches, limit),
            layer_fits(*shape, *tensors, hidden, *switches, limit),
            result@ == steps::taken(outcomes.take(index as int)),
            result.failure is None ==> steps::reaches(outcomes, index as int),
        decreases LAYER_STEPS - index,
    {
        proof {
            assert(step_fits(*shape, *tensors, index as int));
            steps::lemma_taken_step(outcomes, index as int);
        }
        result.add(plan_step(context, shape, tensors, hidden, switches, index));
        index += 1;
    }
    proof {
        if result.failure is Some {
            steps::lemma_taken_failure(outcomes, index as int);
        } else {
            assert(outcomes.take(index as int) =~= outcomes);
        }
    }
    result
}

} // verus!
