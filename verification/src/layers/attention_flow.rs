//! Which values the steps of a full-attention layer read, and where these come from.
use vstd::prelude::*;

use super::attention;
use super::attention::{AttentionShape, AttentionTensors, LAYER_STEPS};
use super::steps::StepView;
use super::values::PlacedTensor;
use crate::metal::attention::AttentionDecodeInput;
use crate::metal::kernel::Switches;
use crate::metal::plan::PlanView;
use crate::metal::wiring;
use crate::metal::wiring::Source;

verus! {

/// The tensors of a layer by their roles.
#[derive(Debug, Clone, Copy, PartialEq, Eq, Structural)]
pub enum LayerTensor {
    Queries,
    Keys,
    Values,
    Output,
    QueryScales,
    KeyScales,
}

/// The values of a layer.
#[derive(Debug, Clone, Copy, PartialEq, Eq, Structural)]
pub enum Value {
    /// The hidden state that the layer is run on.
    Hidden,
    Tensor(LayerTensor),
    /// The keys or values of a cache that holds nothing.
    EmptyCache,
    /// What a step puts out. The layer gives what its last step does.
    Output(usize),
    /// The range of queries in what the query projection puts out.
    Queries,
    /// The range of gates in what the query projection puts out.
    Gates,
    /// The values of all normalized query heads that are rotated.
    QueryRotary,
    /// The values of all normalized key heads that are rotated.
    KeyRotary,
    /// The normalized queries with the rotated values put back.
    RotatedQueries,
    /// The normalized keys with the rotated values put back.
    RotatedKeys,
    /// What was attended, each value times the logistic function of its gate.
    Gated,
}

/// What a projection reads.
pub open spec fn projection_reads(tensor: LayerTensor, input: Value) -> Seq<(Source, Value)> {
    seq![(Source::Weights(0), Value::Tensor(tensor)), (Source::Input, input)]
}

/// What a normalization of heads reads.
pub open spec fn norm_reads(input: Value, scales: LayerTensor) -> Seq<(Source, Value)> {
    seq![(Source::Input, input), (Source::Weights(0), Value::Tensor(scales))]
}

/// What a step reads, in the order in which its kernel does.
pub open spec fn reads(index: int) -> Seq<(Source, Value)> {
    if index == 0 {
        projection_reads(LayerTensor::Queries, Value::Hidden)
    } else if index == 1 {
        projection_reads(LayerTensor::Keys, Value::Hidden)
    } else if index == 2 {
        projection_reads(LayerTensor::Values, Value::Hidden)
    } else if index == 3 {
        norm_reads(Value::Queries, LayerTensor::QueryScales)
    } else if index == 4 {
        norm_reads(Value::Output(1), LayerTensor::KeyScales)
    } else if index == 5 {
        seq![(Source::Input, Value::QueryRotary)]
    } else if index == 6 {
        seq![(Source::Input, Value::KeyRotary)]
    } else if index == 7 {
        seq![
            (Source::Queries, Value::RotatedQueries),
            (Source::KeyCache, Value::EmptyCache),
            (Source::ValueCache, Value::EmptyCache),
            (Source::Keys, Value::RotatedKeys),
            (Source::Values, Value::Output(2)),
        ]
    } else {
        projection_reads(LayerTensor::Output, Value::Gated)
    }
}

/// What the host computes a value from. The hidden state, the tensors and the
/// empty caches are given, and a step computes what it puts out.
pub open spec fn made_from(value: Value) -> Seq<Value> {
    match value {
        Value::Queries | Value::Gates => seq![Value::Output(0)],
        Value::QueryRotary => seq![Value::Output(3)],
        Value::KeyRotary => seq![Value::Output(4)],
        Value::RotatedQueries => seq![Value::Output(3), Value::Output(5)],
        Value::RotatedKeys => seq![Value::Output(4), Value::Output(6)],
        Value::Gated => seq![Value::Output(7), Value::Gates],
        _ => Seq::empty(),
    }
}

/// The time at which a value can be had: what is given from the start, what a
/// step puts out once it has run, and what the host computes right after the
/// last step that it needs.
pub open spec fn made_at(value: Value) -> int {
    match value {
        Value::Hidden | Value::Tensor(_) | Value::EmptyCache => 0,
        Value::Output(step) => step_time(step as int),
        Value::Queries | Value::Gates => step_time(0) + 1,
        Value::QueryRotary => step_time(3) + 1,
        Value::KeyRotary => step_time(4) + 1,
        Value::RotatedQueries => step_time(5) + 1,
        Value::RotatedKeys => step_time(6) + 1,
        Value::Gated => step_time(7) + 1,
    }
}

/// The time at which a step has run.
pub open spec fn step_time(index: int) -> int {
    2 * index + 2
}

/// Every value that a step reads was made before the step runs.
pub proof fn law_steps_read_what_was_made(index: int, read: int)
    requires
        0 <= index < LAYER_STEPS,
        0 <= read < reads(index).len(),
    ensures
        made_at(reads(index)[read].1) < step_time(index),
{
}

/// Every value that the host computes is made from values that were made before.
pub proof fn law_values_come_from_earlier_ones(value: Value, source: int)
    requires
        0 <= source < made_from(value).len(),
    ensures
        made_at(made_from(value)[source]) < made_at(value),
{
}

/// The plan of a step.
pub open spec fn plan_of_step(step: StepView) -> PlanView {
    match step {
        StepView::Rows(slice) => slice.plan,
        StepView::Whole(plan) => plan,
    }
}

/// Whether a plan, where it is launched, runs one kernel that reads these
/// sources in this order.
pub open spec fn takes(plan: PlanView, sources: Seq<Source>) -> bool {
    plan.command matches Ok(command) ==> command.len() == 1 && wiring::kernel_sources(
        command[0].kernel,
    ) == sources
}

/// The sources that a step reads.
pub open spec fn read_sources(index: int) -> Seq<Source> {
    reads(index).map_values(|read: (Source, Value)| read.0)
}

/// A projection takes a matrix and a vector.
pub proof fn lemma_projection_takes(placed: PlacedTensor, input: usize, switches: Switches)
    requires
        attention::projection_plan(placed, input, switches) is Ok,
    ensures
        takes(
            attention::projection_plan(placed, input, switches)->Ok_0.plan,
            seq![Source::Weights(0), Source::Input],
        ),
{
}

proof fn lemma_norm_takes(shape: AttentionShape, scales: PlacedTensor, heads: usize)
    requires
        attention::head_norm_step(shape, scales, heads) is Ok,
    ensures
        takes(
            attention::head_norm_step(shape, scales, heads)->Ok_0,
            seq![Source::Input, Source::Weights(0)],
        ),
{
}

proof fn lemma_rotation_takes(shape: AttentionShape, heads: usize, position: usize)
    requires
        attention::rotation_step(shape, heads, position) is Ok,
    ensures
        takes(attention::rotation_step(shape, heads, position)->Ok_0, seq![Source::Input]),
{
}

proof fn lemma_attention_takes(input: AttentionDecodeInput)
    requires
        crate::metal::attention::attention_decode_plan(input) is Ok,
    ensures
        takes(
            crate::metal::attention::attention_decode_plan(input)->Ok_0,
            seq![
                Source::Queries,
                Source::KeyCache,
                Source::ValueCache,
                Source::Keys,
                Source::Values,
            ],
        ),
{
}

/// A step that is launched runs one kernel, and that kernel reads what the
/// step is said to read, in the same order.
pub proof fn law_steps_read_what_kernels_take(
    shape: AttentionShape,
    tensors: AttentionTensors,
    position: usize,
    hidden: usize,
    switches: Switches,
    index: int,
)
    requires
        0 <= index < LAYER_STEPS,
        attention::layer_outcomes(shape, tensors, position, hidden, switches)[index] is Ok,
    ensures
        takes(
            plan_of_step(
                attention::layer_outcomes(
                    shape,
                    tensors,
                    position,
                    hidden,
                    switches,
                )[index]->Ok_0,
            ),
            read_sources(index),
        ),
{
    if index == 0 {
        lemma_projection_takes(tensors.q, hidden, switches);
        assert(read_sources(0) =~= seq![Source::Weights(0), Source::Input]);
    } else if index == 1 {
        lemma_projection_takes(tensors.k, hidden, switches);
        assert(read_sources(1) =~= seq![Source::Weights(0), Source::Input]);
    } else if index == 2 {
        lemma_projection_takes(tensors.v, hidden, switches);
        assert(read_sources(2) =~= seq![Source::Weights(0), Source::Input]);
    } else if index == 3 {
        lemma_norm_takes(shape, tensors.q_norm, shape.query_heads);
        assert(read_sources(3) =~= seq![Source::Input, Source::Weights(0)]);
    } else if index == 4 {
        lemma_norm_takes(shape, tensors.k_norm, shape.key_value_heads);
        assert(read_sources(4) =~= seq![Source::Input, Source::Weights(0)]);
    } else if index == 5 {
        lemma_rotation_takes(shape, shape.query_heads, position);
        assert(read_sources(5) =~= seq![Source::Input]);
    } else if index == 6 {
        lemma_rotation_takes(shape, shape.key_value_heads, position);
        assert(read_sources(6) =~= seq![Source::Input]);
    } else if index == 7 {
        lemma_attention_takes(attention::first_token_input(shape));
        assert(read_sources(7) =~= seq![
            Source::Queries,
            Source::KeyCache,
            Source::ValueCache,
            Source::Keys,
            Source::Values,
        ]);
    } else {
        let width = (shape.query_heads * shape.head_dim) as usize;
        lemma_projection_takes(tensors.output, width, switches);
        assert(read_sources(8) =~= seq![Source::Weights(0), Source::Input]);
    }
}

fn list_projection_reads(tensor: LayerTensor, input: Value) -> (list: Vec<(Source, Value)>)
    ensures
        list@ == projection_reads(tensor, input),
{
    let list: Vec<(Source, Value)> = vec![
        (Source::Weights(0), Value::Tensor(tensor)),
        (Source::Input, input),
    ];
    proof {
        assert(list@ =~= projection_reads(tensor, input));
    }
    list
}

fn list_norm_reads(input: Value, scales: LayerTensor) -> (list: Vec<(Source, Value)>)
    ensures
        list@ == norm_reads(input, scales),
{
    let list: Vec<(Source, Value)> = vec![
        (Source::Input, input),
        (Source::Weights(0), Value::Tensor(scales)),
    ];
    proof {
        assert(list@ =~= norm_reads(input, scales));
    }
    list
}

/// What a step reads, in the order in which its kernel does.
pub fn step_reads(index: usize) -> (list: Vec<(Source, Value)>)
    ensures
        list@ == reads(index as int),
{
    if index == 0 {
        list_projection_reads(LayerTensor::Queries, Value::Hidden)
    } else if index == 1 {
        list_projection_reads(LayerTensor::Keys, Value::Hidden)
    } else if index == 2 {
        list_projection_reads(LayerTensor::Values, Value::Hidden)
    } else if index == 3 {
        list_norm_reads(Value::Queries, LayerTensor::QueryScales)
    } else if index == 4 {
        list_norm_reads(Value::Output(1), LayerTensor::KeyScales)
    } else if index == 5 || index == 6 || index == 7 {
        let list: Vec<(Source, Value)> = if index == 5 {
            vec![(Source::Input, Value::QueryRotary)]
        } else if index == 6 {
            vec![(Source::Input, Value::KeyRotary)]
        } else {
            vec![
                (Source::Queries, Value::RotatedQueries),
                (Source::KeyCache, Value::EmptyCache),
                (Source::ValueCache, Value::EmptyCache),
                (Source::Keys, Value::RotatedKeys),
                (Source::Values, Value::Output(2)),
            ]
        };
        proof {
            assert(list@ =~= reads(index as int));
        }
        list
    } else {
        list_projection_reads(LayerTensor::Output, Value::Gated)
    }
}

/// What the host computes a value from.
pub fn value_sources(value: Value) -> (list: Vec<Value>)
    ensures
        list@ == made_from(value),
{
    let list: Vec<Value> = match value {
        Value::Queries | Value::Gates => vec![Value::Output(0)],
        Value::QueryRotary => vec![Value::Output(3)],
        Value::KeyRotary => vec![Value::Output(4)],
        Value::RotatedQueries => vec![Value::Output(3), Value::Output(5)],
        Value::RotatedKeys => vec![Value::Output(4), Value::Output(6)],
        Value::Gated => vec![Value::Output(7), Value::Gates],
        _ => Vec::new(),
    };
    proof {
        assert(list@ =~= made_from(value));
    }
    list
}

/// What a value is directly computed from: by a step from what it reads, or by the host.
pub open spec fn inputs_of(value: Value) -> Seq<Value> {
    match value {
        Value::Output(step) => reads(step as int).map_values(|read: (Source, Value)| read.1),
        _ => made_from(value),
    }
}

/// Whether a value is computed from another, in at most so many computations.
pub open spec fn comes_from(value: Value, origin: Value, computations: nat) -> bool
    decreases computations,
{
    value == origin || (computations > 0 && exists|i: int|
        0 <= i < inputs_of(value).len() && comes_from(
            #[trigger] inputs_of(value)[i],
            origin,
            (computations - 1) as nat,
        ))
}

/// One more computation.
proof fn lemma_comes_from(value: Value, origin: Value, computations: nat, index: int)
    requires
        0 <= index < inputs_of(value).len(),
        comes_from(inputs_of(value)[index], origin, computations),
    ensures
        comes_from(value, origin, computations + 1),
{
}

/// What a value comes from is among what its inputs come from.
proof fn lemma_comes_only_from(value: Value, origin: Value, computations: nat)
    requires
        comes_from(value, origin, computations),
        value != origin,
    ensures
        computations > 0,
        exists|i: int|
            0 <= i < inputs_of(value).len() && comes_from(
                #[trigger] inputs_of(value)[i],
                origin,
                (computations - 1) as nat,
            ),
{
}

/// Whether a value is computed from a tensor at all.
pub open spec fn uses(value: Value, tensor: LayerTensor) -> bool {
    exists|computations: nat| #[trigger]
        comes_from(value, Value::Tensor(tensor), computations)
}

/// A value uses what one of its inputs uses.
proof fn lemma_uses(value: Value, tensor: LayerTensor)
    ensures
        uses(value, tensor) <==> value == Value::Tensor(tensor) || exists|i: int|
            0 <= i < inputs_of(value).len() && uses(#[trigger] inputs_of(value)[i], tensor),
{
    let origin = Value::Tensor(tensor);
    if uses(value, tensor) && value != origin {
        let computations = choose|computations: nat| #[trigger]
            comes_from(value, origin, computations);
        lemma_comes_only_from(value, origin, computations);
        let i = choose|i: int|
            0 <= i < inputs_of(value).len() && comes_from(
                #[trigger] inputs_of(value)[i],
                origin,
                (computations - 1) as nat,
            );
        assert(uses(inputs_of(value)[i], tensor));
    }
    if value == origin {
        assert(comes_from(value, origin, 0));
    }
    if exists|i: int|
        0 <= i < inputs_of(value).len() && uses(#[trigger] inputs_of(value)[i], tensor) {
        let i = choose|i: int|
            0 <= i < inputs_of(value).len() && uses(#[trigger] inputs_of(value)[i], tensor);
        let computations = choose|computations: nat| #[trigger]
            comes_from(inputs_of(value)[i], origin, computations);
        lemma_comes_from(value, origin, computations, i);
    }
}

/// A value with one input uses what its input uses.
proof fn lemma_uses_one(value: Value, input: Value, tensor: LayerTensor)
    requires
        inputs_of(value) == seq![input],
        !(value is Tensor),
    ensures
        uses(value, tensor) <==> uses(input, tensor),
{
    lemma_uses(value, tensor);
    assert(inputs_of(value)[0] == input);
}

/// A value with two inputs uses what either uses.
proof fn lemma_uses_two(value: Value, first: Value, second: Value, tensor: LayerTensor)
    requires
        inputs_of(value) == seq![first, second],
        !(value is Tensor),
    ensures
        uses(value, tensor) <==> uses(first, tensor) || uses(second, tensor),
{
    lemma_uses(value, tensor);
    assert(inputs_of(value)[0] == first);
    assert(inputs_of(value)[1] == second);
}

/// A projection uses its tensor and what its input uses.
proof fn lemma_projection_uses(step: usize, weights: LayerTensor, input: Value, tensor: LayerTensor)
    requires
        reads(step as int) == projection_reads(weights, input),
    ensures
        uses(Value::Output(step), tensor) <==> tensor == weights || uses(input, tensor),
{
    let value = Value::Output(step);
    assert(inputs_of(value) =~= seq![Value::Tensor(weights), input]);
    lemma_uses_two(value, Value::Tensor(weights), input, tensor);
    lemma_uses(Value::Tensor(weights), tensor);
}

/// A normalization uses its scales and what its input uses.
proof fn lemma_norm_uses(step: usize, scales: LayerTensor, input: Value, tensor: LayerTensor)
    requires
        reads(step as int) == norm_reads(input, scales),
    ensures
        uses(Value::Output(step), tensor) <==> tensor == scales || uses(input, tensor),
{
    let value = Value::Output(step);
    assert(inputs_of(value) =~= seq![input, Value::Tensor(scales)]);
    lemma_uses_two(value, input, Value::Tensor(scales), tensor);
    lemma_uses(Value::Tensor(scales), tensor);
}

/// What attention takes as queries is made with the tensor of the queries and
/// their scales alone, what it takes as keys with those of the keys, and what
/// it takes as values with that of the values. What was attended is gated with
/// the tensor of the queries, and the layer gives a projection of it by the
/// output tensor, made with every tensor of the layer.
pub proof fn law_roles_are_kept(tensor: LayerTensor)
    ensures
        reads(7)[0].0 == Source::Queries,
        uses(reads(7)[0].1, tensor) <==> tensor == LayerTensor::Queries || tensor
            == LayerTensor::QueryScales,
        reads(7)[3].0 == Source::Keys,
        uses(reads(7)[3].1, tensor) <==> tensor == LayerTensor::Keys || tensor
            == LayerTensor::KeyScales,
        reads(7)[4].0 == Source::Values,
        uses(reads(7)[4].1, tensor) <==> tensor == LayerTensor::Values,
        !uses(reads(7)[1].1, tensor),
        !uses(reads(7)[2].1, tensor),
        uses(Value::Gates, tensor) <==> tensor == LayerTensor::Queries,
        made_from(Value::Gated).contains(Value::Gates),
        made_from(Value::Gated).contains(Value::Output(7)),
        uses(reads(8)[1].1, tensor) <==> tensor != LayerTensor::Output,
        uses(Value::Output(8), tensor),
{
    lemma_uses(Value::Hidden, tensor);
    lemma_uses(Value::EmptyCache, tensor);
    lemma_projection_uses(0, LayerTensor::Queries, Value::Hidden, tensor);
    lemma_projection_uses(1, LayerTensor::Keys, Value::Hidden, tensor);
    lemma_projection_uses(2, LayerTensor::Values, Value::Hidden, tensor);
    lemma_uses_one(Value::Queries, Value::Output(0), tensor);
    lemma_uses_one(Value::Gates, Value::Output(0), tensor);
    lemma_norm_uses(3, LayerTensor::QueryScales, Value::Queries, tensor);
    lemma_norm_uses(4, LayerTensor::KeyScales, Value::Output(1), tensor);
    lemma_uses_one(Value::QueryRotary, Value::Output(3), tensor);
    lemma_uses_one(Value::KeyRotary, Value::Output(4), tensor);
    assert(inputs_of(Value::Output(5)) =~= seq![Value::QueryRotary]);
    assert(inputs_of(Value::Output(6)) =~= seq![Value::KeyRotary]);
    lemma_uses_one(Value::Output(5), Value::QueryRotary, tensor);
    lemma_uses_one(Value::Output(6), Value::KeyRotary, tensor);
    lemma_uses_two(Value::RotatedQueries, Value::Output(3), Value::Output(5), tensor);
    lemma_uses_two(Value::RotatedKeys, Value::Output(4), Value::Output(6), tensor);
    let attended = Value::Output(7);
    lemma_uses(attended, tensor);
    assert(inputs_of(attended) =~= seq![
        Value::RotatedQueries,
        Value::EmptyCache,
        Value::EmptyCache,
        Value::RotatedKeys,
        Value::Output(2),
    ]);
    assert(inputs_of(attended)[0] == Value::RotatedQueries);
    assert(inputs_of(attended)[3] == Value::RotatedKeys);
    assert(inputs_of(attended)[4] == Value::Output(2));
    lemma_uses_two(Value::Gated, attended, Value::Gates, tensor);
    assert(made_from(Value::Gated)[0] == attended && made_from(Value::Gated)[1] == Value::Gates);
    lemma_projection_uses(8, LayerTensor::Output, Value::Gated, tensor);
}

} // verus!
