//! The steps of a full-attention layer.
use vstd::prelude::*;

use super::heads;
use super::steps;
use super::steps::{Step, StepView, Steps, StepsView};
use super::values;
use super::values::{PlacedTensor, ValueRange};
use crate::metal::attention;
use crate::metal::attention::AttentionDecodeInput;
use crate::metal::context::MetalContext;
use crate::metal::kernel::Switches;
use crate::metal::matvec;
use crate::metal::norm;
use crate::metal::plan::{Plan, PlanView, SlicePlan, SliceView};
use crate::text;

verus! {

/// The dimensions of a full-attention layer; the floating-point parameters
/// stand as their bits.
#[derive(Debug, Clone, Copy, PartialEq, Eq)]
pub struct AttentionShape {
    pub query_heads: usize,
    pub key_value_heads: usize,
    pub head_dim: usize,
    /// How many values of each head are rotated, where the model says so.
    pub rotary_dim: Option<u32>,
    pub epsilon: u32,
    pub theta: u32,
}

/// The tensors of a full-attention layer.
pub struct AttentionTensors<'a, 'b> {
    pub q: PlacedTensor<'a, 'b>,
    pub k: PlacedTensor<'a, 'b>,
    pub v: PlacedTensor<'a, 'b>,
    pub output: PlacedTensor<'a, 'b>,
    pub q_norm: PlacedTensor<'a, 'b>,
    pub k_norm: PlacedTensor<'a, 'b>,
}

/// The plan of a projection by all rows of a tensor.
pub open spec fn projection_plan(placed: PlacedTensor, input: usize, switches: Switches) -> Result<
    SliceView,
    Seq<char>,
> {
    matvec::gguf_rows_plan(
        *placed.tensor,
        placed.address as int,
        0,
        placed.tensor.info.shape@[1],
        input,
        switches,
    )
}

/// Plans a projection by all rows of a tensor.
pub fn plan_projection(
    context: &MetalContext,
    placed: &PlacedTensor<'_, '_>,
    input: usize,
    switches: &Switches,
) -> (result: Result<SlicePlan, String>)
    requires
        placed.tensor.info.shape@.len() >= 2,
    ensures
        text::outcome_view(result) == projection_plan(*placed, input, *switches),
{
    context.gguf_matvec_tensor_rows(
        placed.tensor,
        placed.address,
        0,
        placed.tensor.info.shape[1],
        input,
        switches,
    )
}

/// Whether a tensor has a number of rows.
pub open spec fn has_rows(placed: PlacedTensor) -> bool {
    placed.tensor.info.shape@.len() >= 2
}

pub fn check_has_rows(placed: &PlacedTensor<'_, '_>) -> (rows: bool)
    ensures
        rows == has_rows(*placed),
{
    placed.tensor.info.shape.len() >= 2
}

/// Whether the widths of queries with their gates and of keys fit a machine-sized number.
pub open spec fn widths_fit(shape: AttentionShape) -> bool {
    &&& shape.query_heads * shape.head_dim * 2 <= usize::MAX
    &&& shape.key_value_heads * shape.head_dim <= usize::MAX
}

/// Where the queries and their gates are in what the query projection puts out.
#[derive(Debug, Clone, Copy, PartialEq, Eq, Structural)]
pub struct QueryRanges {
    pub queries: ValueRange,
    pub gates: ValueRange,
}

/// The queries of all heads come first, then as many gates.
pub open spec fn ranges_of_queries(shape: AttentionShape) -> QueryRanges {
    let width = shape.query_heads * shape.head_dim;
    QueryRanges {
        queries: ValueRange { start: 0, end: width as usize },
        gates: ValueRange { start: width as usize, end: (width * 2) as usize },
    }
}

/// Where the queries and their gates are in what the query projection puts out:
/// the normalization takes the queries, and the gates go with what was attended.
pub fn query_ranges(shape: &AttentionShape) -> (ranges: QueryRanges)
    requires
        widths_fit(*shape),
    ensures
        ranges == ranges_of_queries(*shape),
{
    proof {
        assert(shape.query_heads * shape.head_dim >= 0) by (nonlinear_arith);
    }
    let width: usize = shape.query_heads * shape.head_dim;
    QueryRanges {
        queries: ValueRange { start: 0, end: width },
        gates: ValueRange { start: width, end: width * 2 },
    }
}

/// Where the projections have the right widths, the ranges of queries and
/// gates divide what the query projection puts out, the queries are as many
/// values as their normalization takes, and there is a gate for every value
/// that is attended.
pub proof fn law_query_ranges_divide_projection(shape: AttentionShape, tensors: AttentionTensors)
    requires
        widths_fit(shape),
        widths_match(shape, tensors),
    ensures
        ({
            let ranges = ranges_of_queries(shape);
            let input = first_token_input(shape).query;
            &&& ranges.queries.start == 0
            &&& ranges.queries.end == ranges.gates.start
            &&& ranges.gates.end == tensors.q.tensor.info.shape@[1]
            &&& ranges.queries.end - ranges.queries.start == input
            &&& ranges.gates.end - ranges.gates.start == input
        }),
{
    assert(shape.query_heads * shape.head_dim >= 0) by (nonlinear_arith);
}

/// The query projection, once the scales of the normalizations can be read.
pub open spec fn query_step(tensors: AttentionTensors, hidden: usize, switches: Switches) -> Result<
    SliceView,
    Seq<char>,
> {
    match values::f32_value_count(*tensors.q_norm.tensor, tensors.q_norm.address as int) {
        Err(message) => Err(message),
        Ok(_) => match values::f32_value_count(
            *tensors.k_norm.tensor,
            tensors.k_norm.address as int,
        ) {
            Err(message) => Err(message),
            Ok(_) => projection_plan(tensors.q, hidden, switches),
        },
    }
}

/// Whether the projections put out queries with their gates, keys and values.
pub open spec fn widths_match(shape: AttentionShape, tensors: AttentionTensors) -> bool {
    &&& tensors.q.tensor.info.shape@[1] == shape.query_heads * shape.head_dim * 2
    &&& tensors.k.tensor.info.shape@[1] == shape.key_value_heads * shape.head_dim
    &&& tensors.v.tensor.info.shape@[1] == shape.key_value_heads * shape.head_dim
}

/// The normalization of heads by the values of a tensor.
pub open spec fn head_norm_step(shape: AttentionShape, scales: PlacedTensor, heads: usize) -> Result<
    PlanView,
    Seq<char>,
> {
    match values::f32_value_count(*scales.tensor, scales.address as int) {
        Err(message) => Err(message),
        Ok(count) => norm::rms_norm_heads_plan(
            (heads * shape.head_dim) as usize,
            count,
            heads,
            shape.head_dim,
            shape.epsilon,
        ),
    }
}

fn plan_head_norm(
    context: &MetalContext,
    shape: &AttentionShape,
    scales: &PlacedTensor<'_, '_>,
    heads: usize,
) -> (result: Result<Plan, String>)
    requires
        heads * shape.head_dim <= usize::MAX,
    ensures
        text::outcome_view(result) == head_norm_step(*shape, *scales, heads),
{
    match values::f32_values(scales) {
        Err(message) => Err(message),
        Ok(count) => {
            proof {
                assert(heads * shape.head_dim >= 0) by (nonlinear_arith);
            }
            context.rms_norm_heads(
                heads * shape.head_dim,
                count,
                heads,
                shape.head_dim,
                shape.epsilon,
            )
        },
    }
}

/// The normalization of the queries, once the projections have the right widths.
pub open spec fn query_norm_step(shape: AttentionShape, tensors: AttentionTensors) -> Result<
    PlanView,
    Seq<char>,
> {
    if !widths_match(shape, tensors) {
        Err("full-attention projection shapes do not match metadata"@)
    } else {
        head_norm_step(shape, tensors.q_norm, shape.query_heads)
    }
}

/// A rotation of heads, once the model says how many values it takes.
pub open spec fn rotation_step(shape: AttentionShape, heads: usize, position: usize) -> Result<
    PlanView,
    Seq<char>,
> {
    match shape.rotary_dim {
        None => Err("GGUF model is missing qwen35.rope.dimension_count"@),
        Some(rotary_dim) => heads::partial_rope_plan(
            (heads * shape.head_dim) as usize,
            heads,
            shape.head_dim,
            rotary_dim as usize,
            position,
            shape.theta,
        ),
    }
}

fn plan_rotation(context: &MetalContext, shape: &AttentionShape, heads: usize, position: usize) -> (result: Result<
    Plan,
    String,
>)
    requires
        heads * shape.head_dim <= usize::MAX,
    ensures
        text::outcome_view(result) == rotation_step(*shape, heads, position),
{
    match shape.rotary_dim {
        None => Err("GGUF model is missing qwen35.rope.dimension_count".to_owned()),
        Some(rotary_dim) => {
            proof {
                assert(heads * shape.head_dim >= 0) by (nonlinear_arith);
            }
            heads::partial_rope(
                context,
                heads * shape.head_dim,
                heads,
                shape.head_dim,
                rotary_dim as usize,
                position,
                shape.theta,
            )
        },
    }
}

/// The inputs of attention over an empty cache with room for one token.
pub open spec fn first_token_input(shape: AttentionShape) -> AttentionDecodeInput {
    let query = (shape.query_heads * shape.head_dim) as usize;
    let width = (shape.key_value_heads * shape.head_dim) as usize;
    AttentionDecodeInput {
        query,
        key_cache: width,
        value_cache: width,
        new_keys: width,
        new_values: width,
        query_heads: shape.query_heads,
        key_value_heads: shape.key_value_heads,
        head_dim: shape.head_dim,
        cached_tokens: 0,
        cache_capacity_tokens: 1,
    }
}

/// How many steps a layer has.
pub const LAYER_STEPS: usize = 9;

/// What comes of each step of a layer on one hidden state: three projections,
/// two normalizations, two rotations, attention and the output projection.
pub open spec fn layer_outcomes(
    shape: AttentionShape,
    tensors: AttentionTensors,
    position: usize,
    hidden: usize,
    switches: Switches,
) -> Seq<Result<StepView, Seq<char>>> {
    let query_width = (shape.query_heads * shape.head_dim) as usize;
    seq![
        steps::rows_step(query_step(tensors, hidden, switches)),
        steps::rows_step(projection_plan(tensors.k, hidden, switches)),
        steps::rows_step(projection_plan(tensors.v, hidden, switches)),
        steps::whole_step(query_norm_step(shape, tensors)),
        steps::whole_step(head_norm_step(shape, tensors.k_norm, shape.key_value_heads)),
        steps::whole_step(rotation_step(shape, shape.query_heads, position)),
        steps::whole_step(rotation_step(shape, shape.key_value_heads, position)),
        steps::whole_step(attention::attention_decode_plan(first_token_input(shape))),
        steps::rows_step(projection_plan(tensors.output, query_width, switches)),
    ]
}

/// The steps of a layer on one hidden state.
pub open spec fn attention_layer_steps(
    shape: AttentionShape,
    tensors: AttentionTensors,
    position: usize,
    hidden: usize,
    switches: Switches,
) -> StepsView {
    steps::taken(layer_outcomes(shape, tensors, position, hidden, switches))
}

/// What a step of a layer needs: a projection multiplies by rows, and from the
/// comparison of the widths on these fit a machine-sized number. The query
/// projection is looked at only once the scales can be read.
pub open spec fn step_fits(shape: AttentionShape, tensors: AttentionTensors, index: int) -> bool {
    if index == 0 {
        scales_are_read(tensors) ==> has_rows(tensors.q)
    } else if index == 1 {
        has_rows(tensors.k)
    } else if index == 2 {
        has_rows(tensors.v)
    } else if index == 3 {
        &&& has_rows(tensors.q)
        &&& has_rows(tensors.k)
        &&& has_rows(tensors.v)
        &&& widths_fit(shape)
    } else if index < 8 {
        widths_fit(shape)
    } else {
        widths_fit(shape) && has_rows(tensors.output)
    }
}

/// Whether the scales of both normalizations can be read.
pub open spec fn scales_are_read(tensors: AttentionTensors) -> bool {
    &&& values::f32_value_count(*tensors.q_norm.tensor, tensors.q_norm.address as int) is Ok
    &&& values::f32_value_count(*tensors.k_norm.tensor, tensors.k_norm.address as int) is Ok
}

/// Every step that is reached has what it needs.
pub open spec fn layer_fits(
    shape: AttentionShape,
    tensors: AttentionTensors,
    position: usize,
    hidden: usize,
    switches: Switches,
) -> bool {
    forall|index: int|
        0 <= index < LAYER_STEPS && steps::reaches(
            layer_outcomes(shape, tensors, position, hidden, switches),
            index,
        ) ==> #[trigger] step_fits(shape, tensors, index)
}

/// Once the projections are planned, the steps before the output projection
/// need no more than widths that fit.
pub proof fn law_planned_projections_leave_widths(
    shape: AttentionShape,
    tensors: AttentionTensors,
    position: usize,
    hidden: usize,
    switches: Switches,
    index: int,
)
    requires
        3 <= index < 8,
        steps::reaches(layer_outcomes(shape, tensors, position, hidden, switches), index),
    ensures
        step_fits(shape, tensors, index) <==> widths_fit(shape),
{
    let outcomes = layer_outcomes(shape, tensors, position, hidden, switches);
    assert(outcomes[0] is Ok && outcomes[1] is Ok && outcomes[2] is Ok);
}

fn check_widths_fit(shape: &AttentionShape) -> (fit: bool)
    ensures
        fit == widths_fit(*shape),
{
    proof {
        assert(shape.query_heads * shape.head_dim >= 0) by (nonlinear_arith);
        assert(shape.key_value_heads * shape.head_dim >= 0) by (nonlinear_arith);
    }
    match shape.query_heads.checked_mul(shape.head_dim) {
        None => false,
        Some(width) => width.checked_mul(2).is_some() && shape.key_value_heads.checked_mul(
            shape.head_dim,
        ).is_some(),
    }
}

/// Whether a step of a layer has what it needs.
pub fn check_step_fits(
    shape: &AttentionShape,
    tensors: &AttentionTensors<'_, '_>,
    index: usize,
) -> (fits: bool)
    ensures
        fits == step_fits(*shape, *tensors, index as int),
{
    if index == 0 {
        values::f32_values(&tensors.q_norm).is_err() || values::f32_values(&tensors.k_norm).is_err()
            || check_has_rows(&tensors.q)
    } else if index == 1 {
        check_has_rows(&tensors.k)
    } else if index == 2 {
        check_has_rows(&tensors.v)
    } else if index == 3 {
        check_has_rows(&tensors.q) && check_has_rows(&tensors.k) && check_has_rows(&tensors.v)
            && check_widths_fit(shape)
    } else if index < 8 {
        check_widths_fit(shape)
    } else {
        check_widths_fit(shape) && check_has_rows(&tensors.output)
    }
}

fn plan_query(
    context: &MetalContext,
    tensors: &AttentionTensors<'_, '_>,
    hidden: usize,
    switches: &Switches,
) -> (result: Result<SlicePlan, String>)
    requires
        scales_are_read(*tensors) ==> has_rows(tensors.q),
    ensures
        text::outcome_view(result) == query_step(*tensors, hidden, *switches),
{
    match values::f32_values(&tensors.q_norm) {
        Ok(_) => {},
        Err(message) => {
            return Err(message);
        },
    }
    match values::f32_values(&tensors.k_norm) {
        Ok(_) => {},
        Err(message) => {
            return Err(message);
        },
    }
    plan_projection(context, &tensors.q, hidden, switches)
}

fn plan_query_norm(
    context: &MetalContext,
    shape: &AttentionShape,
    tensors: &AttentionTensors<'_, '_>,
) -> (result: Result<Plan, String>)
    requires
        step_fits(*shape, *tensors, 3),
    ensures
        text::outcome_view(result) == query_norm_step(*shape, *tensors),
{
    proof {
        assert(shape.query_heads * shape.head_dim >= 0) by (nonlinear_arith);
        assert(shape.key_value_heads * shape.head_dim >= 0) by (nonlinear_arith);
    }
    let query_width: usize = shape.query_heads * shape.head_dim;
    let kv_width: usize = shape.key_value_heads * shape.head_dim;
    if tensors.q.tensor.info.shape[1] != query_width * 2 || tensors.k.tensor.info.shape[1]
        != kv_width || tensors.v.tensor.info.shape[1] != kv_width {
        return Err("full-attention projection shapes do not match metadata".to_owned());
    }
    plan_head_norm(context, shape, &tensors.q_norm, shape.query_heads)
}

fn plan_attended(context: &MetalContext, shape: &AttentionShape) -> (result: Result<
    Plan,
    String,
>)
    requires
        widths_fit(*shape),
    ensures
        text::outcome_view(result) == attention::attention_decode_plan(first_token_input(*shape)),
{
    proof {
        assert(shape.query_heads * shape.head_dim >= 0) by (nonlinear_arith);
        assert(shape.key_value_heads * shape.head_dim >= 0) by (nonlinear_arith);
    }
    let kv_width: usize = shape.key_value_heads * shape.head_dim;
    context.attention_decode(
        AttentionDecodeInput {
            query: shape.query_heads * shape.head_dim,
            key_cache: kv_width,
            value_cache: kv_width,
            new_keys: kv_width,
            new_values: kv_width,
            query_heads: shape.query_heads,
            key_value_heads: shape.key_value_heads,
            head_dim: shape.head_dim,
            cached_tokens: 0,
            cache_capacity_tokens: 1,
        },
    )
}

/// Plans one step of a full-attention layer on one hidden state.
pub fn plan_step(
    context: &MetalContext,
    shape: &AttentionShape,
    tensors: &AttentionTensors<'_, '_>,
    position: usize,
    hidden: usize,
    switches: &Switches,
    index: usize,
) -> (result: Result<Step, String>)
    requires
        index < LAYER_STEPS,
        step_fits(*shape, *tensors, index as int),
    ensures
        text::outcome_view(result) == layer_outcomes(
            *shape,
            *tensors,
            position,
            hidden,
            *switches,
        )[index as int],
{
    proof {
        assert(0 <= shape.query_heads * shape.head_dim) by (nonlinear_arith);
    }
    if index == 0 {
        steps::of_rows(plan_query(context, tensors, hidden, switches))
    } else if index == 1 {
        steps::of_rows(plan_projection(context, &tensors.k, hidden, switches))
    } else if index == 2 {
        steps::of_rows(plan_projection(context, &tensors.v, hidden, switches))
    } else if index == 3 {
        steps::of_whole(plan_query_norm(context, shape, tensors))
    } else if index == 4 {
        steps::of_whole(plan_head_norm(context, shape, &tensors.k_norm, shape.key_value_heads))
    } else if index == 5 {
        steps::of_whole(plan_rotation(context, shape, shape.query_heads, position))
    } else if index == 6 {
        steps::of_whole(plan_rotation(context, shape, shape.key_value_heads, position))
    } else if index == 7 {
        steps::of_whole(plan_attended(context, shape))
    } else {
        let query_width: usize = shape.query_heads * shape.head_dim;
        steps::of_rows(plan_projection(context, &tensors.output, query_width, switches))
    }
}

/// Plans the steps of a full-attention layer on one hidden state.
pub fn run_layer(
    context: &MetalContext,
    shape: &AttentionShape,
    tensors: &AttentionTensors<'_, '_>,
    position: usize,
    hidden: usize,
    switches: &Switches,
) -> (result: Steps)
    requires
        layer_fits(*shape, *tensors, position, hidden, *switches),
    ensures
        result@ == attention_layer_steps(*shape, *tensors, position, hidden, *switches),
{
    let ghost outcomes = layer_outcomes(*shape, *tensors, position, hidden, *switches);
    let mut result = Steps::new();
    let mut index: usize = 0;
    proof {
        assert(outcomes.take(0) =~= Seq::empty());
    }
    while index < LAYER_STEPS && result.failure.is_none()
        invariant
            index <= LAYER_STEPS,
            outcomes == layer_outcomes(*shape, *tensors, position, hidden, *switches),
            layer_fits(*shape, *tensors, position, hidden, *switches),
            result@ == steps::taken(outcomes.take(index as int)),
            result.failure is None ==> steps::reaches(outcomes, index as int),
        decreases LAYER_STEPS - index,
    {
        proof {
            assert(step_fits(*shape, *tensors, index as int));
            steps::lemma_taken_step(outcomes, index as int);
        }
        result.add(plan_step(context, shape, tensors, position, hidden, switches, index));
        index += 1;
    }
    proof {
        if result.failure is Some {
            steps::lemma_taken_failure(outcomes, index as int);
        } else {
            assert(outcomes.take(index as int) =~= outcomes);
        }
    }
    result
}

} // verus!
