//! What the steps of layers put out, and that each fits the steps behind it.
use vstd::prelude::*;

use super::attention;
use super::attention::{AttentionShape, AttentionTensors};
use super::attention_flow;
use super::gated_delta;
use super::gated_delta::{GatedDeltaShape, GatedDeltaTensors};
use super::mlp;
use super::steps;
use super::steps::StepView;
use super::values;
use super::values::PlacedTensor;
use crate::metal::elements;
use crate::metal::kernel::Switches;
use crate::metal::model;
use crate::metal::norm;
use crate::metal::plan::SliceView;
use crate::metal::products;
use crate::quant;
use crate::tensor::GgufTensorView;

verus! {

/// The steps of a layer are the outcomes up to the first that fails, and what
/// failed is reported. They are all of them where none fails.
pub proof fn law_steps_end_at_first_failure(outcomes: Seq<Result<StepView, Seq<char>>>)
    ensures
        ({
            let run = steps::taken(outcomes);
            &&& run.steps.len() <= outcomes.len()
            &&& forall|i: int|
                0 <= i < run.steps.len() ==> (#[trigger] outcomes[i]) == Ok::<StepView, Seq<char>>(
                    run.steps[i],
                )
            &&& run.failure is None ==> run.steps.len() == outcomes.len()
            &&& run.failure matches Some(message) ==> run.steps.len() < outcomes.len()
                && outcomes[run.steps.len() as int] == Err::<StepView, Seq<char>>(message)
        }),
    decreases outcomes.len(),
{
    if outcomes.len() > 0 {
        let shorter = outcomes.drop_last();
        law_steps_end_at_first_failure(shorter);
        let before = steps::taken(shorter);
        let run = steps::taken(outcomes);
        assert forall|i: int| 0 <= i < run.steps.len() implies (#[trigger] outcomes[i]) == Ok::<
            StepView,
            Seq<char>,
        >(run.steps[i]) by {
            if i < before.steps.len() {
                assert(shorter[i] == outcomes[i]);
            }
        }
        if before.failure is Some {
            assert(shorter[before.steps.len() as int] == outcomes[before.steps.len() as int]);
        }
    }
}

/// Whether a step over rows of a tensor is the product of all its rows with a
/// vector of so many values.
pub open spec fn is_projection(
    slice: SliceView,
    placed: PlacedTensor,
    limit: u64,
    input: usize,
) -> bool {
    let columns = placed.tensor.info.shape@[0];
    let rows = placed.tensor.info.shape@[1];
    &&& slice.start == 0
    &&& slice.end <= placed.tensor.bytes@.len()
    &&& products::is_product_plan(slice.plan, limit, rows, columns, 1, slice.end, input)
}

/// A projection multiplies all rows of its tensor by its vector.
pub proof fn law_projection(placed: PlacedTensor, input: usize, switches: Switches, limit: u64)
    requires
        ({
            let slice = attention::projection_plan(placed, input, switches);
            slice is Ok && slice->Ok_0.plan.command is Ok
        }),
        products::allows_rows(switches, limit),
    ensures
        is_projection(
            attention::projection_plan(placed, input, switches)->Ok_0,
            placed,
            limit,
            input,
        ),
{
    let tensor = *placed.tensor;
    let rows = tensor.info.shape@[1];
    let columns = tensor.info.shape@[0];
    if tensor.info.ggml_type == quant::GGML_TYPE_F32 {
        products::law_f32_rows_product(tensor, placed.address as int, 0, rows, input, limit);
    } else {
        let format = quant::quant_of(tensor.info.ggml_type)->Some_0;
        products::law_quantized_rows_product(format, tensor, 0, rows, input, switches, limit);
        let slice = attention::projection_plan(placed, input, switches)->Ok_0;
        let kernel = slice.plan.command->Ok_0[0].kernel;
        assert(0 * columns == 0);
        assert(model::weight_bytes(kernel, 0) == 0);
    }
}

/// A projection by an F32 tensor multiplies all its rows by its vector.
pub proof fn law_f32_projection(placed: PlacedTensor, input: usize, limit: u64)
    requires
        ({
            let slice = gated_delta::f32_projection_plan(placed, input);
            slice is Ok && slice->Ok_0.plan.command is Ok
        }),
    ensures
        is_projection(
            gated_delta::f32_projection_plan(placed, input)->Ok_0,
            placed,
            limit,
            input,
        ),
{
    let tensor = *placed.tensor;
    let rows = tensor.info.shape@[1];
    products::law_f32_rows_product(tensor, placed.address as int, 0, rows, input, limit);
}

/// Whether all steps of a layer are accepted and their sizes fit the kernels.
pub open spec fn all_launched(outcomes: Seq<Result<StepView, Seq<char>>>) -> bool {
    forall|i: int|
        0 <= i < outcomes.len() ==> (#[trigger] outcomes[i]) is Ok && attention_flow::plan_of_step(
            outcomes[i]->Ok_0,
        ).command is Ok
}

/// The number of values that a step puts out first.
pub open spec fn values_of(outcome: Result<StepView, Seq<char>>) -> int {
    attention_flow::plan_of_step(outcome->Ok_0).outputs[0] as int
}

/// What the steps of a full-attention layer put out. The query projection
/// gives the queries and their gates, which the two ranges divide. What is
/// normalized are the queries and the keys, what is rotated are the first
/// values of all their heads, and as many values as there are queries are
/// attended. Of these, each with its gate, the output projection is made.
pub proof fn law_attention_layer_outputs(
    shape: AttentionShape,
    tensors: AttentionTensors,
    position: usize,
    hidden: usize,
    switches: Switches,
    limit: u64,
)
    requires
        attention::widths_fit(shape),
        all_launched(attention::layer_outcomes(shape, tensors, position, hidden, switches)),
        products::allows_rows(switches, limit),
    ensures
        ({
            let outcomes = attention::layer_outcomes(shape, tensors, position, hidden, switches);
            let ranges = attention::ranges_of_queries(shape);
            let queries = shape.query_heads * shape.head_dim;
            let keys = shape.key_value_heads * shape.head_dim;
            let rotary = shape.rotary_dim->Some_0;
            &&& outcomes.len() == 9
            &&& outcomes[0]->Ok_0 matches StepView::Rows(slice) && is_projection(
                slice,
                tensors.q,
                limit,
                hidden,
            )
            &&& outcomes[1]->Ok_0 matches StepView::Rows(slice) && is_projection(
                slice,
                tensors.k,
                limit,
                hidden,
            )
            &&& outcomes[2]->Ok_0 matches StepView::Rows(slice) && is_projection(
                slice,
                tensors.v,
                limit,
                hidden,
            )
            &&& values_of(outcomes[0]) == ranges.gates.end
            &&& values_of(outcomes[1]) == keys
            &&& values_of(outcomes[2]) == keys
            &&& values_of(outcomes[3]) == queries
            &&& values_of(outcomes[4]) == keys
            &&& shape.rotary_dim is Some
            &&& 0 < rotary <= shape.head_dim
            &&& values_of(outcomes[5]) == shape.query_heads * rotary
            &&& values_of(outcomes[6]) == shape.key_value_heads * rotary
            &&& values_of(outcomes[7]) == queries
            &&& ranges.queries.end - ranges.queries.start == queries
            &&& ranges.gates.end - ranges.gates.start == queries
            &&& outcomes[8]->Ok_0 matches StepView::Rows(slice) && is_projection(
                slice,
                tensors.output,
                limit,
                queries as usize,
            )
            &&& tensors.output.tensor.info.shape@[0] == values_of(outcomes[7])
        }),
{
    let outcomes = attention::layer_outcomes(shape, tensors, position, hidden, switches);
    let queries = shape.query_heads * shape.head_dim;
    assert(queries >= 0) by (nonlinear_arith)
        requires
            queries == shape.query_heads * shape.head_dim,
    ;
    assert(outcomes[0] is Ok && outcomes[1] is Ok && outcomes[2] is Ok && outcomes[3] is Ok);
    assert(outcomes[4] is Ok && outcomes[5] is Ok && outcomes[6] is Ok && outcomes[7] is Ok);
    assert(outcomes[8] is Ok);
    law_projection(tensors.q, hidden, switches, limit);
    law_projection(tensors.k, hidden, switches, limit);
    law_projection(tensors.v, hidden, switches, limit);
    law_projection(tensors.output, queries as usize, switches, limit);
    let rotary = shape.rotary_dim->Some_0 as int;
    assert(shape.query_heads * rotary <= queries) by (nonlinear_arith)
        requires
            0 <= rotary <= shape.head_dim,
            queries == shape.query_heads * shape.head_dim,
    ;
    let keys = shape.key_value_heads * shape.head_dim;
    assert(0 <= shape.key_value_heads * rotary <= keys) by (nonlinear_arith)
        requires
            0 <= rotary <= shape.head_dim,
            keys == shape.key_value_heads * shape.head_dim,
    ;
    assert(0 <= shape.query_heads * rotary) by (nonlinear_arith)
        requires
            0 <= rotary,
    ;
}

/// What the steps of a full-attention layer do with its heads: queries and
/// keys are normalized with the layer's epsilon, then rotated to the position
/// with the layer's base, and the queries attend over no cached token, that is
/// over the new one alone.
pub proof fn law_attention_layer_heads(
    shape: AttentionShape,
    tensors: AttentionTensors,
    position: usize,
    hidden: usize,
    switches: Switches,
    limit: u64,
    head: int,
    d: int,
    r: int,
    index: int,
)
    requires
        attention::widths_fit(shape),
        all_launched(attention::layer_outcomes(shape, tensors, position, hidden, switches)),
        position <= u32::MAX,
        0 <= head < shape.key_value_heads,
        head < shape.query_heads,
        0 <= d < shape.head_dim,
        shape.rotary_dim matches Some(rotary) && 0 <= r < rotary,
    ensures
        ({
            let outcomes = attention::layer_outcomes(shape, tensors, position, hidden, switches);
            let head_dim = shape.head_dim as int;
            let query_heads = shape.query_heads as int;
            let key_value_heads = shape.key_value_heads as int;
            let rotary = shape.rotary_dim->Some_0 as int;
            let attended = attention::first_token_input(shape);
            &&& elements::normalizes_heads(
                attention_flow::plan_of_step(outcomes[3]->Ok_0),
                limit,
                query_heads,
                head_dim,
                shape.epsilon,
                head,
                d,
                index,
            )
            &&& elements::normalizes_heads(
                attention_flow::plan_of_step(outcomes[4]->Ok_0),
                limit,
                key_value_heads,
                head_dim,
                shape.epsilon,
                head,
                d,
                index,
            )
            &&& elements::rotates_heads(
                attention_flow::plan_of_step(outcomes[5]->Ok_0).command->Ok_0[0],
                limit,
                query_heads,
                rotary,
                position as int,
                shape.theta,
                head,
                r,
                index,
            )
            &&& elements::rotates_heads(
                attention_flow::plan_of_step(outcomes[6]->Ok_0).command->Ok_0[0],
                limit,
                key_value_heads,
                rotary,
                position as int,
                shape.theta,
                head,
                r,
                index,
            )
            &&& attended.cached_tokens == 0
            &&& elements::attends(
                attention_flow::plan_of_step(outcomes[7]->Ok_0).command->Ok_0[0],
                limit,
                elements::cache_of(attended, Seq::empty(), Seq::empty()),
                head / (query_heads / key_value_heads),
                head,
                d,
                index,
            )
        }),
{
    let outcomes = attention::layer_outcomes(shape, tensors, position, hidden, switches);
    assert(outcomes[3] is Ok && outcomes[4] is Ok && outcomes[5] is Ok && outcomes[6] is Ok);
    assert(outcomes[7] is Ok);
    let queries = (shape.query_heads * shape.head_dim) as usize;
    let keys = (shape.key_value_heads * shape.head_dim) as usize;
    let query_scales = values::f32_value_count(
        *tensors.q_norm.tensor,
        tensors.q_norm.address as int,
    )->Ok_0;
    let key_scales = values::f32_value_count(
        *tensors.k_norm.tensor,
        tensors.k_norm.address as int,
    )->Ok_0;
    elements::law_heads_norm(
        queries,
        query_scales,
        shape.query_heads,
        shape.head_dim,
        shape.epsilon,
        limit,
        head,
        d,
        index,
    );
    elements::law_heads_norm(
        keys,
        key_scales,
        shape.key_value_heads,
        shape.head_dim,
        shape.epsilon,
        limit,
        head,
        d,
        index,
    );
    let rotary = shape.rotary_dim->Some_0 as usize;
    lemma_rope_step(shape.query_heads, rotary, position, shape.theta, limit, head, r, index);
    lemma_rope_step(shape.key_value_heads, rotary, position, shape.theta, limit, head, r, index);
    elements::law_attention_decode(
        attention::first_token_input(shape),
        Seq::empty(),
        Seq::empty(),
        limit,
        head,
        d,
        index,
    );
}

/// A rotation whose heads fit the kernel, as a launch of heads that fit does.
proof fn lemma_rope_step(
    heads: usize,
    rotary: usize,
    position: usize,
    theta: u32,
    limit: u64,
    head: int,
    r: int,
    index: int,
)
    requires
        norm::rope_plan((heads * rotary) as usize, heads, rotary, position, theta) is Ok,
        heads <= u32::MAX,
        rotary <= u32::MAX,
        position <= u32::MAX,
        0 <= head < heads,
        0 <= r < rotary,
    ensures
        elements::rotates_heads(
            norm::rope_plan(
                (heads * rotary) as usize,
                heads,
                rotary,
                position,
                theta,
            )->Ok_0.command->Ok_0[0],
            limit,
            heads as int,
            rotary as int,
            position as int,
            theta,
            head,
            r,
            index,
        ),
{
    elements::law_rope(
        (heads * rotary) as usize,
        heads,
        rotary,
        position,
        theta,
        limit,
        head,
        r,
        index,
    );
}

/// What the steps of a Gated DeltaNet layer put out. The joint projection gives
/// as many values as the convolution has channels. In what the convolution
/// gives, the ranges of queries, keys and values follow each other, and the
/// values are those of all value heads. There is a gate and a rate for each of
/// these heads, what gates the normalization has as many values as the update
/// gives, and of as many the output projection is made.
pub proof fn law_gated_delta_layer_outputs(
    shape: GatedDeltaShape,
    tensors: GatedDeltaTensors,
    hidden: usize,
    switches: Switches,
    parallel_limit: u64,
    limit: u64,
)
    requires
        gated_delta::heads_fit(shape),
        gated_delta::values_are_read(tensors),
        shape.conv_kernel >= 1,
        shape.projection_size * (shape.conv_kernel - 1) <= usize::MAX,
        all_launched(
            gated_delta::layer_outcomes(shape, tensors, hidden, switches, parallel_limit),
        ),
        products::allows_rows(switches, limit),
    ensures
        ({
            let outcomes = gated_delta::layer_outcomes(
                shape,
                tensors,
                hidden,
                switches,
                parallel_limit,
            );
            let ranges = gated_delta::ranges_of_mixed(shape);
            let values = shape.value_heads * shape.head_dim;
            let update = gated_delta::first_update_input(shape, tensors);
            &&& outcomes.len() == 8
            &&& outcomes[0]->Ok_0 matches StepView::Rows(slice) && is_projection(
                slice,
                tensors.qkv,
                limit,
                hidden,
            )
            &&& outcomes[1]->Ok_0 matches StepView::Rows(slice) && is_projection(
                slice,
                tensors.z,
                limit,
                hidden,
            )
            &&& outcomes[2]->Ok_0 matches StepView::Rows(slice) && is_projection(
                slice,
                tensors.alpha,
                limit,
                hidden,
            )
            &&& outcomes[3]->Ok_0 matches StepView::Rows(slice) && is_projection(
                slice,
                tensors.beta,
                limit,
                hidden,
            )
            &&& values_of(outcomes[0]) == shape.projection_size
            &&& values_of(outcomes[4]) == shape.projection_size
            &&& ranges.values.end <= values_of(outcomes[4])
            &&& ranges.values.end - ranges.values.start == values
            &&& update.gate == shape.value_heads
            &&& update.gate <= values_of(outcomes[2])
            &&& values_of(outcomes[3]) == shape.value_heads
            &&& values_of(outcomes[5]) == values
            &&& update.state == values * shape.head_dim
            &&& values_of(outcomes[1]) == values
            &&& values_of(outcomes[6]) == values
            &&& outcomes[7]->Ok_0 matches StepView::Rows(slice) && is_projection(
                slice,
                tensors.output,
                limit,
                values as usize,
            )
            &&& tensors.output.tensor.info.shape@[0] == values_of(outcomes[6])
        }),
{
    let outcomes = gated_delta::layer_outcomes(shape, tensors, hidden, switches, parallel_limit);
    let values = shape.value_heads * shape.head_dim;
    let keys = shape.key_heads * shape.head_dim;
    assert(values >= 0) by (nonlinear_arith)
        requires
            values == shape.value_heads * shape.head_dim,
    ;
    assert(keys >= 0) by (nonlinear_arith)
        requires
            keys == shape.key_heads * shape.head_dim,
    ;
    assert(values * shape.head_dim >= 0) by (nonlinear_arith)
        requires
            values >= 0,
    ;
    assert(outcomes[0] is Ok && outcomes[1] is Ok && outcomes[2] is Ok && outcomes[3] is Ok);
    assert(outcomes[4] is Ok && outcomes[5] is Ok && outcomes[6] is Ok && outcomes[7] is Ok);
    law_projection(tensors.qkv, hidden, switches, limit);
    law_projection(tensors.z, hidden, switches, limit);
    law_f32_projection(tensors.alpha, hidden, limit);
    law_f32_projection(tensors.beta, hidden, limit);
    law_projection(tensors.output, values as usize, switches, limit);
}

/// What the steps of a Gated DeltaNet layer do: every channel is convolved over
/// the layer's kernel, every value of every value head is updated, and what was
/// updated is normalized with the layer's epsilon.
pub proof fn law_gated_delta_layer_heads(
    shape: GatedDeltaShape,
    tensors: GatedDeltaTensors,
    hidden: usize,
    switches: Switches,
    parallel_limit: u64,
    limit: u64,
    channel: int,
    tap: int,
    head: int,
    key: int,
    value: int,
    index: int,
)
    requires
        gated_delta::heads_fit(shape),
        gated_delta::values_are_read(tensors),
        shape.conv_kernel >= 1,
        shape.projection_size * (shape.conv_kernel - 1) <= usize::MAX,
        all_launched(
            gated_delta::layer_outcomes(shape, tensors, hidden, switches, parallel_limit),
        ),
        0 <= channel < shape.projection_size,
        0 <= tap < shape.conv_kernel - 1,
        0 <= head < shape.value_heads,
        0 <= key < shape.head_dim,
        0 <= value < shape.head_dim,
    ensures
        ({
            let outcomes = gated_delta::layer_outcomes(
                shape,
                tensors,
                hidden,
                switches,
                parallel_limit,
            );
            let head_dim = shape.head_dim as int;
            &&& elements::convolves(
                attention_flow::plan_of_step(outcomes[4]->Ok_0).command->Ok_0[0],
                limit,
                shape.conv_kernel as int,
                channel,
                tap,
                index,
            )
            &&& elements::updates_head(
                attention_flow::plan_of_step(outcomes[5]->Ok_0).command->Ok_0[0],
                limit,
                head_dim,
                head_dim,
                head,
                key,
                value,
                index,
            )
            &&& elements::normalizes_heads(
                attention_flow::plan_of_step(outcomes[6]->Ok_0),
                limit,
                shape.value_heads as int,
                head_dim,
                shape.epsilon,
                head,
                value,
                index,
            )
        }),
{
    let outcomes = gated_delta::layer_outcomes(shape, tensors, hidden, switches, parallel_limit);
    assert(outcomes[4] is Ok && outcomes[5] is Ok && outcomes[6] is Ok);
    elements::law_causal_conv(
        tensors.qkv.tensor.info.shape@[1],
        (shape.projection_size * (shape.conv_kernel - 1)) as usize,
        gated_delta::value_count(tensors.convolution)->Ok_0,
        shape.projection_size,
        shape.conv_kernel,
        limit,
        channel,
        tap,
        index,
    );
    elements::law_gated_delta(
        gated_delta::first_update_input(shape, tensors),
        switches,
        parallel_limit,
        limit,
        head,
        key,
        value,
        index,
    );
    elements::law_gated_norm(
        (shape.value_heads * shape.head_dim) as usize,
        tensors.z.tensor.info.shape@[1],
        gated_delta::value_count(tensors.norm)->Ok_0,
        shape.value_heads,
        shape.head_dim,
        shape.epsilon,
        limit,
        head,
        value,
        index,
    );
}

/// What the steps of an MLP put out: one gated value for each row of gate and
/// up, and of as many values the down projection is made.
pub proof fn law_mlp_outputs(
    gate: GgufTensorView,
    up: GgufTensorView,
    down: PlacedTensor,
    switches: Switches,
    limit: u64,
)
    requires
        all_launched(mlp::mlp_outcomes(gate, up, down, switches)),
        products::allows_rows(switches, limit),
    ensures
        ({
            let outcomes = mlp::mlp_outcomes(gate, up, down, switches);
            let columns = gate.info.shape@[0];
            let rows = gate.info.shape@[1];
            let bytes = mlp::gate_up_bytes(gate, up)->Ok_0;
            let gated = attention_flow::plan_of_step(outcomes[0]->Ok_0);
            &&& outcomes.len() == 2
            &&& up.info.shape@ == gate.info.shape@
            &&& bytes <= gate.bytes@.len()
            &&& bytes <= up.bytes@.len()
            &&& products::is_gated_product(
                gated.command->Ok_0[0],
                limit,
                rows,
                columns,
                bytes as int,
                bytes as int,
                columns,
            )
            &&& values_of(outcomes[0]) == rows
            &&& outcomes[1]->Ok_0 matches StepView::Rows(slice) && is_projection(
                slice,
                down,
                limit,
                rows,
            )
            &&& down.tensor.info.shape@[0] == values_of(outcomes[0])
        }),
{
    let outcomes = mlp::mlp_outcomes(gate, up, down, switches);
    assert(outcomes[0] is Ok && outcomes[1] is Ok);
    let columns = gate.info.shape@[0];
    let rows = gate.info.shape@[1];
    let bytes = mlp::gate_up_bytes(gate, up)->Ok_0 as nat;
    products::law_gated_product(bytes, bytes, rows, columns, columns, switches, limit);
    law_projection(down, rows, switches, limit);
}

} // verus!
