//! Which values the steps of a Gated DeltaNet layer read, and where these come from.
use vstd::prelude::*;

use super::attention_flow;
use super::gated_delta;
use super::gated_delta::{GatedDeltaShape, GatedDeltaTensors, LAYER_STEPS};
use super::values::PlacedTensor;
use crate::metal::kernel::Switches;
use crate::metal::recurrent;
use crate::metal::recurrent::GatedDeltaInput;
use crate::metal::wiring::Source;

verus! {

/// The tensors of a layer by their roles.
#[derive(Debug, Clone, Copy, PartialEq, Eq, Structural)]
pub enum LayerTensor {
    Joint,
    Gates,
    Alpha,
    Beta,
    Convolution,
    Decay,
    Bias,
    Scales,
    Output,
}

/// The values of a layer.
#[derive(Debug, Clone, Copy, PartialEq, Eq, Structural)]
pub enum Value {
    /// The hidden state that the layer is run on.
    Hidden,
    Tensor(LayerTensor),
    /// The inputs that the convolution remembers when there were none.
    EmptyMemory,
    /// The state of the recurrent update before the first token.
    EmptyState,
    /// What a step puts out. The layer gives what its last step does.
    Output(usize),
    /// The range of queries in what the convolution puts out, each head
    /// normalized, repeated for the value heads and divided by the square root
    /// of the head's length.
    Queries,
    /// The range of keys in what the convolution puts out, each head
    /// normalized and repeated for the value heads.
    Keys,
    /// The range of values in what the convolution puts out.
    Values,
    /// The logarithm of each head's decay: minus the exponential of its tensor
    /// value, times the soft rectification of its alpha and its bias.
    Decay,
    /// The logistic function of each head's beta.
    Beta,
}

/// What a projection reads.
pub open spec fn projection_reads(tensor: LayerTensor, input: Value) -> Seq<(Source, Value)> {
    seq![(Source::Weights(0), Value::Tensor(tensor)), (Source::Input, input)]
}

/// What a step reads, in the order in which its kernel does.
pub open spec fn reads(index: int) -> Seq<(Source, Value)> {
    if index == 0 {
        projection_reads(LayerTensor::Joint, Value::Hidden)
    } else if index == 1 {
        projection_reads(LayerTensor::Gates, Value::Hidden)
    } else if index == 2 {
        projection_reads(LayerTensor::Alpha, Value::Hidden)
    } else if index == 3 {
        projection_reads(LayerTensor::Beta, Value::Hidden)
    } else if index == 4 {
        seq![
            (Source::Input, Value::Output(0)),
            (Source::Weights(0), Value::Tensor(LayerTensor::Convolution)),
            (Source::State, Value::EmptyMemory),
        ]
    } else if index == 5 {
        seq![
            (Source::Queries, Value::Queries),
            (Source::Keys, Value::Keys),
            (Source::Values, Value::Values),
            (Source::Gate, Value::Decay),
            (Source::Beta, Value::Beta),
            (Source::State, Value::EmptyState),
        ]
    } else if index == 6 {
        seq![
            (Source::Input, Value::Output(5)),
            (Source::Gate, Value::Output(1)),
            (Source::Weights(0), Value::Tensor(LayerTensor::Scales)),
        ]
    } else {
        projection_reads(LayerTensor::Output, Value::Output(6))
    }
}

/// What the host computes a value from. The hidden state, the tensors and the
/// empty states are given, and a step computes what it puts out.
pub open spec fn made_from(value: Value) -> Seq<Value> {
    match value {
        Value::Queries | Value::Keys | Value::Values => seq![Value::Output(4)],
        Value::Decay => seq![
            Value::Output(2),
            Value::Tensor(LayerTensor::Decay),
            Value::Tensor(LayerTensor::Bias),
        ],
        Value::Beta => seq![Value::Output(3)],
        _ => Seq::empty(),
    }
}

/// The time at which a value can be had: what is given from the start, what a
/// step puts out once it has run, and what the host computes right after the
/// last step that it needs.
pub open spec fn made_at(value: Value) -> int {
    match value {
        Value::Hidden | Value::Tensor(_) | Value::EmptyMemory | Value::EmptyState => 0,
        Value::Output(step) => attention_flow::step_time(step as int),
        Value::Queries | Value::Keys | Value::Values => attention_flow::step_time(4) + 1,
        Value::Decay => attention_flow::step_time(2) + 1,
        Value::Beta => attention_flow::step_time(3) + 1,
    }
}

/// Every value that a step reads was made before the step runs.
pub proof fn law_steps_read_what_was_made(index: int, read: int)
    requires
        0 <= index < LAYER_STEPS,
        0 <= read < reads(index).len(),
    ensures
        made_at(reads(index)[read].1) < attention_flow::step_time(index),
{
}

/// Every value that the host computes is made from values that were made before.
pub proof fn law_values_come_from_earlier_ones(value: Value, source: int)
    requires
        0 <= source < made_from(value).len(),
    ensures
        made_at(made_from(value)[source]) < made_at(value),
{
}

/// The sources that a step reads.
pub open spec fn read_sources(index: int) -> Seq<Source> {
    reads(index).map_values(|read: (Source, Value)| read.0)
}

proof fn lemma_f32_projection_takes(placed: PlacedTensor, input: usize)
    requires
        gated_delta::f32_projection_plan(placed, input) is Ok,
    ensures
        attention_flow::takes(
            gated_delta::f32_projection_plan(placed, input)->Ok_0.plan,
            seq![Source::Weights(0), Source::Input],
        ),
{
}

proof fn lemma_convolution_takes(shape: GatedDeltaShape, tensors: GatedDeltaTensors)
    requires
        gated_delta::convolution_step(shape, tensors) is Ok,
    ensures
        attention_flow::takes(
            gated_delta::convolution_step(shape, tensors)->Ok_0,
            seq![Source::Input, Source::Weights(0), Source::State],
        ),
{
}

proof fn lemma_update_takes(input: GatedDeltaInput, switches: Switches, limit: u64)
    requires
        recurrent::gated_delta_plan(input, switches, limit) is Ok,
    ensures
        attention_flow::takes(
            recurrent::gated_delta_plan(input, switches, limit)->Ok_0,
            seq![
                Source::Queries,
                Source::Keys,
                Source::Values,
                Source::Gate,
                Source::Beta,
                Source::State,
            ],
        ),
{
}

proof fn lemma_gated_norm_takes(shape: GatedDeltaShape, tensors: GatedDeltaTensors)
    requires
        gated_delta::gated_norm_step(shape, tensors) is Ok,
    ensures
        attention_flow::takes(
            gated_delta::gated_norm_step(shape, tensors)->Ok_0,
            seq![Source::Input, Source::Gate, Source::Weights(0)],
        ),
{
}

/// A step that is launched runs one kernel, and that kernel reads what the
/// step is said to read, in the same order.
pub proof fn law_steps_read_what_kernels_take(
    shape: GatedDeltaShape,
    tensors: GatedDeltaTensors,
    hidden: usize,
    switches: Switches,
    limit: u64,
    index: int,
)
    requires
        0 <= index < LAYER_STEPS,
        gated_delta::layer_outcomes(shape, tensors, hidden, switches, limit)[index] is Ok,
    ensures
        attention_flow::takes(
            attention_flow::plan_of_step(
                gated_delta::layer_outcomes(
                    shape,
                    tensors,
                    hidden,
                    switches,
                    limit,
                )[index]->Ok_0,
            ),
            read_sources(index),
        ),
{
    if index == 0 {
        attention_flow::lemma_projection_takes(tensors.qkv, hidden, switches);
        assert(read_sources(0) =~= seq![Source::Weights(0), Source::Input]);
    } else if index == 1 {
        attention_flow::lemma_projection_takes(tensors.z, hidden, switches);
        assert(read_sources(1) =~= seq![Source::Weights(0), Source::Input]);
    } else if index == 2 {
        lemma_f32_projection_takes(tensors.alpha, hidden);
        assert(read_sources(2) =~= seq![Source::Weights(0), Source::Input]);
    } else if index == 3 {
        lemma_f32_projection_takes(tensors.beta, hidden);
        assert(read_sources(3) =~= seq![Source::Weights(0), Source::Input]);
    } else if index == 4 {
        lemma_convolution_takes(shape, tensors);
        assert(read_sources(4) =~= seq![Source::Input, Source::Weights(0), Source::State]);
    } else if index == 5 {
        lemma_update_takes(gated_delta::first_update_input(shape, tensors), switches, limit);
        assert(read_sources(5) =~= seq![
            Source::Queries,
            Source::Keys,
            Source::Values,
            Source::Gate,
            Source::Beta,
            Source::State,
        ]);
    } else if index == 6 {
        lemma_gated_norm_takes(shape, tensors);
        assert(read_sources(6) =~= seq![Source::Input, Source::Gate, Source::Weights(0)]);
    } else {
        let width = (shape.value_heads * shape.head_dim) as usize;
        attention_flow::lemma_projection_takes(tensors.output, width, switches);
        assert(read_sources(7) =~= seq![Source::Weights(0), Source::Input]);
    }
}

/// What a step reads, in the order in which its kernel does.
pub fn step_reads(index: usize) -> (list: Vec<(Source, Value)>)
    ensures
        list@ == reads(index as int),
{
    let list: Vec<(Source, Value)> = if index == 4 {
        vec![
            (Source::Input, Value::Output(0)),
            (Source::Weights(0), Value::Tensor(LayerTensor::Convolution)),
            (Source::State, Value::EmptyMemory),
        ]
    } else if index == 5 {
        vec![
            (Source::Queries, Value::Queries),
            (Source::Keys, Value::Keys),
            (Source::Values, Value::Values),
            (Source::Gate, Value::Decay),
            (Source::Beta, Value::Beta),
            (Source::State, Value::EmptyState),
        ]
    } else if index == 6 {
        vec![
            (Source::Input, Value::Output(5)),
            (Source::Gate, Value::Output(1)),
            (Source::Weights(0), Value::Tensor(LayerTensor::Scales)),
        ]
    } else {
        let (tensor, input) = if index == 0 {
            (LayerTensor::Joint, Value::Hidden)
        } else if index == 1 {
            (LayerTensor::Gates, Value::Hidden)
        } else if index == 2 {
            (LayerTensor::Alpha, Value::Hidden)
        } else if index == 3 {
            (LayerTensor::Beta, Value::Hidden)
        } else {
            (LayerTensor::Output, Value::Output(6))
        };
        vec![(Source::Weights(0), Value::Tensor(tensor)), (Source::Input, input)]
    };
    proof {
        assert(list@ =~= reads(index as int));
    }
    list
}

/// What the host computes a value from.
pub fn value_sources(value: Value) -> (list: Vec<Value>)
    ensures
        list@ == made_from(value),
{
    let list: Vec<Value> = match value {
        Value::Queries | Value::Keys | Value::Values => vec![Value::Output(4)],
        Value::Decay => vec![
            Value::Output(2),
            Value::Tensor(LayerTensor::Decay),
            Value::Tensor(LayerTensor::Bias),
        ],
        Value::Beta => vec![Value::Output(3)],
        _ => Vec::new(),
    };
    proof {
        assert(list@ =~= made_from(value));
    }
    list
}

/// What a value is directly computed from: by a step from what it reads, or by the host.
pub open spec fn inputs_of(value: Value) -> Seq<Value> {
    match value {
        Value::Output(step) => reads(step as int).map_values(|read: (Source, Value)| read.1),
        _ => made_from(value),
    }
}

/// Whether a value is computed from another, in at most so many computations.
pub open spec fn comes_from(value: Value, origin: Value, computations: nat) -> bool
    decreases computations,
{
    value == origin || (computations > 0 && exists|i: int|
        0 <= i < inputs_of(value).len() && comes_from(
            #[trigger] inputs_of(value)[i],
            origin,
            (computations - 1) as nat,
        ))
}

/// One more computation.
proof fn lemma_comes_from(value: Value, origin: Value, computations: nat, index: int)
    requires
        0 <= index < inputs_of(value).len(),
        comes_from(inputs_of(value)[index], origin, computations),
    ensures
        comes_from(value, origin, computations + 1),
{
}

/// What a value comes from is among what its inputs come from.
proof fn lemma_comes_only_from(value: Value, origin: Value, computations: nat)
    requires
        comes_from(value, origin, computations),
        value != origin,
    ensures
        computations > 0,
        exists|i: int|
            0 <= i < inputs_of(value).len() && comes_from(
                #[trigger] inputs_of(value)[i],
                origin,
                (computations - 1) as nat,
            ),
{
}

/// Whether a value is computed from a tensor at all.
pub open spec fn uses(value: Value, tensor: LayerTensor) -> bool {
    exists|computations: nat| #[trigger]
        comes_from(value, Value::Tensor(tensor), computations)
}

/// A value uses what one of its inputs uses.
proof fn lemma_uses(value: Value, tensor: LayerTensor)
    ensures
        uses(value, tensor) <==> value == Value::Tensor(tensor) || exists|i: int|
            0 <= i < inputs_of(value).len() && uses(#[trigger] inputs_of(value)[i], tensor),
{
    let origin = Value::Tensor(tensor);
    if uses(value, tensor) && value != origin {
        let computations = choose|computations: nat| #[trigger]
            comes_from(value, origin, computations);
        lemma_comes_only_from(value, origin, computations);
        let i = choose|i: int|
            0 <= i < inputs_of(value).len() && comes_from(
                #[trigger] inputs_of(value)[i],
                origin,
                (computations - 1) as nat,
            );
        assert(uses(inputs_of(value)[i], tensor));
    }
    if value == origin {
        assert(comes_from(value, origin, 0));
    }
    if exists|i: int|
        0 <= i < inputs_of(value).len() && uses(#[trigger] inputs_of(value)[i], tensor) {
        let i = choose|i: int|
            0 <= i < inputs_of(value).len() && uses(#[trigger] inputs_of(value)[i], tensor);
        let computations = choose|computations: nat| #[trigger]
            comes_from(inputs_of(value)[i], origin, computations);
        lemma_comes_from(value, origin, computations, i);
    }
}

/// A value with one input uses what its input uses.
proof fn lemma_uses_one(value: Value, input: Value, tensor: LayerTensor)
    requires
        inputs_of(value) == seq![input],
        !(value is Tensor),
    ensures
        uses(value, tensor) <==> uses(input, tensor),
{
    lemma_uses(value, tensor);
    assert(inputs_of(value)[0] == input);
}

/// A value with two inputs uses what either uses.
proof fn lemma_uses_two(value: Value, first: Value, second: Value, tensor: LayerTensor)
    requires
        inputs_of(value) == seq![first, second],
        !(value is Tensor),
    ensures
        uses(value, tensor) <==> uses(first, tensor) || uses(second, tensor),
{
    lemma_uses(value, tensor);
    assert(inputs_of(value)[0] == first);
    assert(inputs_of(value)[1] == second);
}

/// A projection uses its tensor and what its input uses.
proof fn lemma_projection_uses(step: usize, weights: LayerTensor, input: Value, tensor: LayerTensor)
    requires
        reads(step as int) == projection_reads(weights, input),
    ensures
        uses(Value::Output(step), tensor) <==> tensor == weights || uses(input, tensor),
{
    let value = Value::Output(step);
    assert(inputs_of(value) =~= seq![Value::Tensor(weights), input]);
    lemma_uses_two(value, Value::Tensor(weights), input, tensor);
    lemma_uses(Value::Tensor(weights), tensor);
}

/// What the recurrent update takes as queries, keys and values is made with the
/// joint projection and the convolution. Its decay is made with the tensors of
/// alpha, the decay and the bias, and its rate with that of beta. What gates
/// the normalization is made with a tensor of its own, and the layer gives a
/// projection of what was normalized, made with every tensor of the layer.
pub proof fn law_roles_are_kept(tensor: LayerTensor)
    ensures
        ({
            let mixed = tensor == LayerTensor::Joint || tensor == LayerTensor::Convolution;
            &&& uses(Value::Queries, tensor) <==> mixed
            &&& uses(Value::Keys, tensor) <==> mixed
            &&& uses(Value::Values, tensor) <==> mixed
            &&& reads(5)[0] == (Source::Queries, Value::Queries)
            &&& reads(5)[1] == (Source::Keys, Value::Keys)
            &&& reads(5)[2] == (Source::Values, Value::Values)
            &&& reads(5)[3].0 == Source::Gate
            &&& uses(reads(5)[3].1, tensor) <==> tensor == LayerTensor::Alpha || tensor
                == LayerTensor::Decay || tensor == LayerTensor::Bias
            &&& reads(5)[4].0 == Source::Beta
            &&& uses(reads(5)[4].1, tensor) <==> tensor == LayerTensor::Beta
            &&& reads(5)[5] == (Source::State, Value::EmptyState)
            &&& reads(6)[1].0 == Source::Gate
            &&& uses(reads(6)[1].1, tensor) <==> tensor == LayerTensor::Gates
            &&& uses(reads(7)[1].1, tensor) <==> tensor != LayerTensor::Output
            &&& uses(Value::Output(7), tensor)
        }),
{
    lemma_uses(Value::Hidden, tensor);
    lemma_uses(Value::EmptyMemory, tensor);
    lemma_uses(Value::EmptyState, tensor);
    lemma_uses(Value::Tensor(LayerTensor::Convolution), tensor);
    lemma_uses(Value::Tensor(LayerTensor::Decay), tensor);
    lemma_uses(Value::Tensor(LayerTensor::Bias), tensor);
    lemma_uses(Value::Tensor(LayerTensor::Scales), tensor);
    lemma_projection_uses(0, LayerTensor::Joint, Value::Hidden, tensor);
    lemma_projection_uses(1, LayerTensor::Gates, Value::Hidden, tensor);
    lemma_projection_uses(2, LayerTensor::Alpha, Value::Hidden, tensor);
    lemma_projection_uses(3, LayerTensor::Beta, Value::Hidden, tensor);
    let convolved = Value::Output(4);
    lemma_uses(convolved, tensor);
    assert(inputs_of(convolved) =~= seq![
        Value::Output(0),
        Value::Tensor(LayerTensor::Convolution),
        Value::EmptyMemory,
    ]);
    assert(inputs_of(convolved)[0] == Value::Output(0));
    assert(inputs_of(convolved)[1] == Value::Tensor(LayerTensor::Convolution));
    lemma_uses_one(Value::Queries, convolved, tensor);
    lemma_uses_one(Value::Keys, convolved, tensor);
    lemma_uses_one(Value::Values, convolved, tensor);
    lemma_uses(Value::Decay, tensor);
    assert(inputs_of(Value::Decay)[0] == Value::Output(2));
    assert(inputs_of(Value::Decay)[1] == Value::Tensor(LayerTensor::Decay));
    assert(inputs_of(Value::Decay)[2] == Value::Tensor(LayerTensor::Bias));
    lemma_uses_one(Value::Beta, Value::Output(3), tensor);
    let updated = Value::Output(5);
    lemma_uses(updated, tensor);
    assert(inputs_of(updated) =~= seq![
        Value::Queries,
        Value::Keys,
        Value::Values,
        Value::Decay,
        Value::Beta,
        Value::EmptyState,
    ]);
    assert(inputs_of(updated)[0] == Value::Queries);
    assert(inputs_of(updated)[3] == Value::Decay);
    assert(inputs_of(updated)[4] == Value::Beta);
    let normalized = Value::Output(6);
    lemma_uses(normalized, tensor);
    assert(inputs_of(normalized) =~= seq![
        updated,
        Value::Output(1),
        Value::Tensor(LayerTensor::Scales),
    ]);
    assert(inputs_of(normalized)[0] == updated);
    assert(inputs_of(normalized)[1] == Value::Output(1));
    assert(inputs_of(normalized)[2] == Value::Tensor(LayerTensor::Scales));
    lemma_projection_uses(7, LayerTensor::Output, normalized, tensor);
}

} // verus!
