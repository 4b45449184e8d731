//! Which buffers the launches of a step read and write, and where its outputs are.
use vstd::prelude::*;

use super::kernel::Kernel;

verus! {

/// A buffer that a launch takes: one that the step is given, or one that it
/// allocates for intermediate values and outputs.
#[derive(Debug, Clone, Copy, PartialEq, Eq, Structural)]
pub enum Slot {
    Operand(usize),
    Buffer(usize),
}

/// How the launches of a step are connected. Unless said otherwise the
/// operands are those of the kernel in its order, and each output is a buffer
/// of its own.
#[derive(Debug, Clone, Copy, PartialEq, Eq, Structural)]
pub enum Wiring {
    /// One launch.
    Alone,
    /// One launch that also updates the operand of this number, which is the second output.
    Stateful(usize),
    /// One launch whose buffers hold the outputs of so many candidates, one
    /// candidate after the other.
    Batch(usize),
    /// One launch for each matrix. The operands are the matrices and, last,
    /// the vector that all of them multiply.
    Group,
    /// A gated product and a projection of it. The operands are gate, up
    /// and down matrix and the vector.
    Mlp,
    /// A whole attention step. The operands are the query, key, value and
    /// output matrices, the scales of queries and keys, the vector, and the
    /// caches of keys and values. The buffers hold queries, keys and values,
    /// queries and keys normalized, both rotated, what was attended and what
    /// was projected.
    Chained,
}

/// What a step reads: weights by their number in the step's order, or something
/// that the host has.
#[derive(Debug, Clone, Copy, PartialEq, Eq, Structural)]
pub enum Source {
    Weights(usize),
    /// The vector that a step works on, or the vectors of a batch.
    Input,
    Gate,
    Beta,
    /// The state that a recurrent step updates.
    State,
    Queries,
    Keys,
    Values,
    KeyCache,
    ValueCache,
}

/// What a kernel reads from the buffers before those that it writes, in its order.
pub open spec fn kernel_sources(kernel: Kernel) -> Seq<Source> {
    match kernel {
        Kernel::RmsNorm | Kernel::RmsNormBf16Heads | Kernel::RmsNormHeads => seq![
            Source::Input,
            Source::Weights(0),
        ],
        Kernel::RmsNormGated => seq![Source::Input, Source::Gate, Source::Weights(0)],
        Kernel::Q4KEmbeddingRow | Kernel::Bf16EmbeddingRow => seq![Source::Weights(0)],
        Kernel::Rope => seq![Source::Input],
        Kernel::CausalConv1dStep => seq![Source::Input, Source::Weights(0), Source::State],
        Kernel::Q4KFusedGateUp
        | Kernel::Bf16BitpackMatvec
        | Kernel::Bf16FusedGateUp
        | Kernel::Bf16FusedGateUpMany => seq![
            Source::Weights(0),
            Source::Weights(1),
            Source::Input,
        ],
        Kernel::Bf16FusedQkv | Kernel::Bf16FusedQkvMany => seq![
            Source::Weights(0),
            Source::Weights(1),
            Source::Weights(2),
            Source::Input,
        ],
        Kernel::AttentionDecode => seq![
            Source::Queries,
            Source::KeyCache,
            Source::ValueCache,
            Source::Keys,
            Source::Values,
        ],
        Kernel::GatedDeltaStep | Kernel::GatedDeltaStepParallel => seq![
            Source::Queries,
            Source::Keys,
            Source::Values,
            Source::Gate,
            Source::Beta,
            Source::State,
        ],
        _ => seq![Source::Weights(0), Source::Input],
    }
}

/// How many buffers a kernel reads before those that it writes. The state of a
/// recurrent step is among them.
pub open spec fn operand_count(kernel: Kernel) -> nat {
    kernel_sources(kernel).len()
}

/// How many buffers a kernel writes.
pub open spec fn result_count(kernel: Kernel) -> nat {
    match kernel {
        Kernel::Bf16FusedQkv | Kernel::Bf16FusedQkvMany => 3,
        Kernel::Bf16FusedGateUp | Kernel::Bf16FusedGateUpMany => 2,
        _ => 1,
    }
}

/// The buffers of a launch that has a step to itself.
pub open spec fn own_slots(kernel: Kernel) -> Seq<Slot> {
    let operands = operand_count(kernel);
    Seq::new(
        operands + result_count(kernel),
        |i: int|
            if i < operands {
                Slot::Operand(i as usize)
            } else {
                Slot::Buffer((i - operands) as usize)
            },
    )
}

/// The buffers of the launches of an attention step.
pub open spec fn chained_slots(launch: int) -> Seq<Slot> {
    if launch == 0 {
        seq![
            Slot::Operand(0),
            Slot::Operand(1),
            Slot::Operand(2),
            Slot::Operand(6),
            Slot::Buffer(0),
            Slot::Buffer(1),
            Slot::Buffer(2),
        ]
    } else if launch == 1 {
        seq![Slot::Buffer(0), Slot::Operand(4), Slot::Buffer(3)]
    } else if launch == 2 {
        seq![Slot::Buffer(1), Slot::Operand(5), Slot::Buffer(4)]
    } else if launch == 3 {
        seq![Slot::Buffer(3), Slot::Buffer(5)]
    } else if launch == 4 {
        seq![Slot::Buffer(4), Slot::Buffer(6)]
    } else if launch == 5 {
        seq![
            Slot::Buffer(5),
            Slot::Operand(7),
            Slot::Operand(8),
            Slot::Buffer(6),
            Slot::Buffer(2),
            Slot::Buffer(7),
        ]
    } else {
        seq![Slot::Operand(3), Slot::Buffer(7), Slot::Buffer(8)]
    }
}

/// The buffers of the launches of an MLP.
pub open spec fn mlp_slots(launch: int) -> Seq<Slot> {
    if launch == 0 {
        seq![Slot::Operand(0), Slot::Operand(1), Slot::Operand(3), Slot::Buffer(0)]
    } else {
        seq![Slot::Operand(2), Slot::Buffer(0), Slot::Buffer(1)]
    }
}

/// The buffers of one of the launches of a step, in the order in which its
/// kernel takes them before its constants.
pub open spec fn launch_slots(wiring: Wiring, launches: usize, launch: int, kernel: Kernel) -> Seq<
    Slot,
> {
    match wiring {
        Wiring::Alone | Wiring::Stateful(_) | Wiring::Batch(_) => own_slots(kernel),
        Wiring::Group => seq![
            Slot::Operand(launch as usize),
            Slot::Operand(launches),
            Slot::Buffer(launch as usize),
        ],
        Wiring::Mlp => mlp_slots(launch),
        Wiring::Chained => chained_slots(launch),
    }
}

/// Where an output is: its buffer, and the number of values before it.
pub open spec fn output_place(wiring: Wiring, output: int, values: int) -> (Slot, int) {
    match wiring {
        Wiring::Alone | Wiring::Group => (Slot::Buffer(output as usize), 0),
        Wiring::Stateful(state) => if output == 0 {
            (Slot::Buffer(0), 0)
        } else {
            (Slot::Operand(state), 0)
        },
        Wiring::Batch(candidates) => (
            Slot::Buffer((output / candidates as int) as usize),
            (output % candidates as int) * values,
        ),
        Wiring::Mlp => (Slot::Buffer(1), 0),
        Wiring::Chained => (
            Slot::Buffer(
                if output == 0 {
                    8
                } else if output == 1 {
                    6
                } else {
                    2
                },
            ),
            0,
        ),
    }
}

/// What a kernel reads, in its order.
pub fn list_sources(kernel: Kernel) -> (sources: Vec<Source>)
    ensures
        sources@ == kernel_sources(kernel),
{
    let sources: Vec<Source> = match kernel {
        Kernel::RmsNorm | Kernel::RmsNormBf16Heads | Kernel::RmsNormHeads => vec![
            Source::Input,
            Source::Weights(0),
        ],
        Kernel::RmsNormGated => vec![Source::Input, Source::Gate, Source::Weights(0)],
        Kernel::Q4KEmbeddingRow | Kernel::Bf16EmbeddingRow => vec![Source::Weights(0)],
        Kernel::Rope => vec![Source::Input],
        Kernel::CausalConv1dStep => vec![Source::Input, Source::Weights(0), Source::State],
        Kernel::Q4KFusedGateUp
        | Kernel::Bf16BitpackMatvec
        | Kernel::Bf16FusedGateUp
        | Kernel::Bf16FusedGateUpMany => vec![
            Source::Weights(0),
            Source::Weights(1),
            Source::Input,
        ],
        Kernel::Bf16FusedQkv | Kernel::Bf16FusedQkvMany => vec![
            Source::Weights(0),
            Source::Weights(1),
            Source::Weights(2),
            Source::Input,
        ],
        Kernel::AttentionDecode => vec![
            Source::Queries,
            Source::KeyCache,
            Source::ValueCache,
            Source::Keys,
            Source::Values,
        ],
        Kernel::GatedDeltaStep | Kernel::GatedDeltaStepParallel => vec![
            Source::Queries,
            Source::Keys,
            Source::Values,
            Source::Gate,
            Source::Beta,
            Source::State,
        ],
        _ => vec![Source::Weights(0), Source::Input],
    };
    proof {
        assert(sources@ =~= kernel_sources(kernel));
    }
    sources
}

fn count_results(kernel: Kernel) -> (count: usize)
    ensures
        count == result_count(kernel),
{
    match kernel {
        Kernel::Bf16FusedQkv | Kernel::Bf16FusedQkvMany => 3,
        Kernel::Bf16FusedGateUp | Kernel::Bf16FusedGateUpMany => 2,
        _ => 1,
    }
}

fn list_own_slots(kernel: Kernel) -> (slots: Vec<Slot>)
    ensures
        slots@ == own_slots(kernel),
{
    let operands: usize = list_sources(kernel).len();
    let results: usize = count_results(kernel);
    let mut slots: Vec<Slot> = Vec::new();
    let mut operand: usize = 0;
    while operand < operands
        invariant
            operand <= operands,
            operands == operand_count(kernel),
            slots@ =~= own_slots(kernel).take(operand as int),
        decreases operands - operand,
    {
        slots.push(Slot::Operand(operand));
        operand += 1;
    }
    let mut result: usize = 0;
    while result < results
        invariant
            result <= results,
            operands == operand_count(kernel),
            results == result_count(kernel),
            operands <= 6,
            slots@ =~= own_slots(kernel).take(operands + result),
        decreases results - result,
    {
        slots.push(Slot::Buffer(result));
        result += 1;
    }
    proof {
        assert(own_slots(kernel).take(operands + result) =~= own_slots(kernel));
    }
    slots
}

fn list_chained_slots(launch: usize) -> (slots: Vec<Slot>)
    ensures
        slots@ == chained_slots(launch as int),
{
    let slots: Vec<Slot> = if launch == 0 {
        vec![
            Slot::Operand(0),
            Slot::Operand(1),
            Slot::Operand(2),
            Slot::Operand(6),
            Slot::Buffer(0),
            Slot::Buffer(1),
            Slot::Buffer(2),
        ]
    } else if launch == 1 {
        vec![Slot::Buffer(0), Slot::Operand(4), Slot::Buffer(3)]
    } else if launch == 2 {
        vec![Slot::Buffer(1), Slot::Operand(5), Slot::Buffer(4)]
    } else if launch == 3 {
        vec![Slot::Buffer(3), Slot::Buffer(5)]
    } else if launch == 4 {
        vec![Slot::Buffer(4), Slot::Buffer(6)]
    } else if launch == 5 {
        vec![
            Slot::Buffer(5),
            Slot::Operand(7),
            Slot::Operand(8),
            Slot::Buffer(6),
            Slot::Buffer(2),
            Slot::Buffer(7),
        ]
    } else {
        vec![Slot::Operand(3), Slot::Buffer(7), Slot::Buffer(8)]
    };
    proof {
        assert(slots@ =~= chained_slots(launch as int));
    }
    slots
}

impl Wiring {
    /// The buffers of one of the launches of a step, in the order in which its
    /// kernel takes them before its constants.
    pub fn slots(self, launches: usize, launch: usize, kernel: Kernel) -> (slots: Vec<Slot>)
        ensures
            slots@ == launch_slots(self, launches, launch as int, kernel),
    {
        match self {
            Wiring::Alone | Wiring::Stateful(_) | Wiring::Batch(_) => list_own_slots(kernel),
            Wiring::Group => {
                let slots: Vec<Slot> = vec![
                    Slot::Operand(launch),
                    Slot::Operand(launches),
                    Slot::Buffer(launch),
                ];
                proof {
                    assert(slots@ =~= launch_slots(self, launches, launch as int, kernel));
                }
                slots
            },
            Wiring::Mlp => {
                let slots: Vec<Slot> = if launch == 0 {
                    vec![Slot::Operand(0), Slot::Operand(1), Slot::Operand(3), Slot::Buffer(0)]
                } else {
                    vec![Slot::Operand(2), Slot::Buffer(0), Slot::Buffer(1)]
                };
                proof {
                    assert(slots@ =~= mlp_slots(launch as int));
                }
                slots
            },
            Wiring::Chained => list_chained_slots(launch),
        }
    }

    /// Where an output of so many values is: its buffer, and the number of
    /// values before it.
    pub fn place(self, output: usize, values: usize) -> (place: (Slot, usize))
        requires
            self matches Wiring::Batch(candidates) ==> candidates > 0 && candidates * values
                <= usize::MAX,
        ensures
            (place.0, place.1 as int) == output_place(self, output as int, values as int),
    {
        match self {
            Wiring::Alone | Wiring::Group => (Slot::Buffer(output), 0),
            Wiring::Stateful(state) => if output == 0 {
                (Slot::Buffer(0), 0)
            } else {
                (Slot::Operand(state), 0)
            },
            Wiring::Batch(candidates) => {
                let candidate: usize = output % candidates;
                proof {
                    assert(0 <= candidate * values <= candidates * values) by (nonlinear_arith)
                        requires
                            candidate < candidates,
                            0 <= values,
                    ;
                }
                (Slot::Buffer(output / candidates), candidate * values)
            },
            Wiring::Mlp => (Slot::Buffer(1), 0),
            Wiring::Chained => (
                Slot::Buffer(
                    if output == 0 {
                        8
                    } else if output == 1 {
                        6
                    } else {
                        2
                    },
                ),
                0,
            ),
        }
    }
}

/// The kernels of an attention step.
pub open spec fn chained_kernels() -> Seq<Kernel> {
    seq![
        Kernel::Bf16FusedQkv,
        Kernel::RmsNormBf16Heads,
        Kernel::RmsNormBf16Heads,
        Kernel::Rope,
        Kernel::Rope,
        Kernel::AttentionDecode,
        Kernel::Bf16Matvec,
    ]
}

/// Whether a kernel multiplies a matrix by a vector.
pub open spec fn multiplies(kernel: Kernel) -> bool {
    kernel_sources(kernel) == seq![Source::Weights(0), Source::Input] && result_count(kernel) == 1
}

/// Whether kernels can be launched with a wiring.
pub open spec fn wiring_fits(wiring: Wiring, kernels: Seq<Kernel>) -> bool {
    match wiring {
        Wiring::Alone | Wiring::Batch(_) => kernels.len() == 1,
        Wiring::Stateful(state) => kernels.len() == 1 && state < operand_count(kernels[0]),
        Wiring::Group => kernels.len() <= usize::MAX && forall|i: int|
            0 <= i < kernels.len() ==> multiplies(#[trigger] kernels[i]),
        Wiring::Mlp => kernels.len() == 2 && kernels[0] == Kernel::Q4KFusedGateUp && multiplies(
            kernels[1],
        ),
        Wiring::Chained => kernels == chained_kernels(),
    }
}

/// Whether a launch of a step writes a buffer: it is among the last that the
/// kernel takes.
pub open spec fn writes(wiring: Wiring, kernels: Seq<Kernel>, launch: int, slot: Slot) -> bool {
    let slots = launch_slots(wiring, kernels.len() as usize, launch, kernels[launch]);
    exists|i: int|
        operand_count(kernels[launch]) <= i < slots.len() && (#[trigger] slots[i]) == slot
}

/// What a launch takes behind its operands is written.
pub proof fn lemma_writes(wiring: Wiring, kernels: Seq<Kernel>, launch: int, index: int)
    requires
        operand_count(kernels[launch]) <= index < launch_slots(
            wiring,
            kernels.len() as usize,
            launch,
            kernels[launch],
        ).len(),
    ensures
        writes(
            wiring,
            kernels,
            launch,
            launch_slots(wiring, kernels.len() as usize, launch, kernels[launch])[index],
        ),
{
}

/// A launch takes as many buffers as its kernel asks for. What it reads is
/// given to the step or was written by an earlier launch.
pub proof fn law_launches_read_what_was_written(
    wiring: Wiring,
    kernels: Seq<Kernel>,
    launch: int,
    read: int,
)
    requires
        wiring_fits(wiring, kernels),
        0 <= launch < kernels.len(),
        0 <= read < operand_count(kernels[launch]),
    ensures
        ({
            let slots = launch_slots(wiring, kernels.len() as usize, launch, kernels[launch]);
            &&& slots.len() == operand_count(kernels[launch]) + result_count(kernels[launch])
            &&& slots[read] is Buffer ==> exists|earlier: int|
                0 <= earlier < launch && #[trigger] writes(wiring, kernels, earlier, slots[read])
        }),
{
    match wiring {
        Wiring::Mlp => {
            lemma_writes(wiring, kernels, 0, 3);
        },
        Wiring::Chained => {
            lemma_writes(wiring, kernels, 0, 4);
            lemma_writes(wiring, kernels, 0, 5);
            lemma_writes(wiring, kernels, 0, 6);
            lemma_writes(wiring, kernels, 1, 2);
            lemma_writes(wiring, kernels, 2, 2);
            lemma_writes(wiring, kernels, 3, 1);
            lemma_writes(wiring, kernels, 4, 1);
            lemma_writes(wiring, kernels, 5, 5);
        },
        _ => {},
    }
}

/// No two launches of a step write the same buffer, and none writes over what
/// the step was given in another operand than its state.
pub proof fn law_buffers_are_written_once(
    wiring: Wiring,
    kernels: Seq<Kernel>,
    first: int,
    second: int,
    slot: Slot,
)
    requires
        wiring_fits(wiring, kernels),
        0 <= first < kernels.len(),
        0 <= second < kernels.len(),
        writes(wiring, kernels, first, slot),
        writes(wiring, kernels, second, slot),
    ensures
        first == second,
        slot is Buffer,
{
}

/// Whether a launch of a step takes a buffer as what its kernel reads from a source.
pub open spec fn takes(
    wiring: Wiring,
    kernels: Seq<Kernel>,
    launch: int,
    source: Source,
    slot: Slot,
) -> bool {
    let sources = kernel_sources(kernels[launch]);
    let slots = launch_slots(wiring, kernels.len() as usize, launch, kernels[launch]);
    exists|i: int|
        0 <= i < sources.len() && #[trigger] sources[i] == source && #[trigger] slots[i] == slot
}

/// Whether a launch of a step writes a result to a buffer.
pub open spec fn makes(
    wiring: Wiring,
    kernels: Seq<Kernel>,
    launch: int,
    result: int,
    slot: Slot,
) -> bool {
    let slots = launch_slots(wiring, kernels.len() as usize, launch, kernels[launch]);
    &&& 0 <= result < result_count(kernels[launch])
    &&& slots[operand_count(kernels[launch]) + result] == slot
}

/// What a kernel reads from a source is in the buffer of the same place.
proof fn lemma_takes(wiring: Wiring, kernels: Seq<Kernel>, launch: int, index: int)
    requires
        0 <= index < kernel_sources(kernels[launch]).len(),
    ensures
        takes(
            wiring,
            kernels,
            launch,
            kernel_sources(kernels[launch])[index],
            launch_slots(wiring, kernels.len() as usize, launch, kernels[launch])[index],
        ),
{
}

/// A single launch takes what it is given in the order in which its kernel
/// reads it, and writes each result to a buffer of its own, from where the
/// outputs are read back. A state that it updates is read back from where it
/// was given. Outputs of a batch stand in the buffer of their matrix, vector
/// behind vector.
pub proof fn law_single_launch_flow(
    wiring: Wiring,
    kernel: Kernel,
    source: int,
    result: int,
    values: int,
)
    requires
        wiring_fits(wiring, seq![kernel]),
        wiring is Alone || wiring is Stateful || wiring is Batch,
        0 <= source < kernel_sources(kernel).len(),
        0 <= result < result_count(kernel),
    ensures
        takes(
            wiring,
            seq![kernel],
            0,
            kernel_sources(kernel)[source],
            Slot::Operand(source as usize),
        ),
        makes(wiring, seq![kernel], 0, result, Slot::Buffer(result as usize)),
        wiring is Alone ==> output_place(wiring, result, values) == (
            Slot::Buffer(result as usize),
            0int,
        ),
        wiring matches Wiring::Stateful(state) ==> output_place(wiring, 0, values) == (
            Slot::Buffer(0),
            0int,
        ) && output_place(wiring, 1, values) == (Slot::Operand(state), 0int),
        wiring matches Wiring::Batch(candidates) ==> forall|candidate: int|
            0 <= candidate < candidates ==> #[trigger] output_place(
                wiring,
                result * candidates + candidate,
                values,
            ) == (Slot::Buffer(result as usize), candidate * values),
{
    lemma_takes(wiring, seq![kernel], 0, source);
    if let Wiring::Batch(candidates) = wiring {
        assert forall|candidate: int| 0 <= candidate < candidates implies #[trigger] output_place(
            wiring,
            result * candidates + candidate,
            values,
        ) == (Slot::Buffer(result as usize), candidate * values) by {
            let count = candidates as int;
            let output = result * count + candidate;
            assert(output / count == result && output % count == candidate) by (nonlinear_arith)
                requires
                    output == result * count + candidate,
                    0 <= candidate < count,
            ;
        }
    }
}

/// Each launch of a group multiplies its own matrix by the vector that stands
/// behind all matrices, and its product is the output of the same number.
pub proof fn law_group_flow(kernels: Seq<Kernel>, launch: int, values: int)
    requires
        wiring_fits(Wiring::Group, kernels),
        0 <= launch < kernels.len(),
    ensures
        takes(
            Wiring::Group,
            kernels,
            launch,
            Source::Weights(0),
            Slot::Operand(launch as usize),
        ),
        takes(
            Wiring::Group,
            kernels,
            launch,
            Source::Input,
            Slot::Operand(kernels.len() as usize),
        ),
        makes(Wiring::Group, kernels, launch, 0, Slot::Buffer(launch as usize)),
        output_place(Wiring::Group, launch, values) == (Slot::Buffer(launch as usize), 0int),
{
    assert(multiplies(kernels[launch]));
    lemma_takes(Wiring::Group, kernels, launch, 0);
    lemma_takes(Wiring::Group, kernels, launch, 1);
}

/// In an MLP the gated product reads gate and up matrix and the vector, and
/// the down projection reads the down matrix and the gated product. Its
/// product is the output.
pub proof fn law_mlp_flow(kernels: Seq<Kernel>, values: int)
    requires
        wiring_fits(Wiring::Mlp, kernels),
    ensures
        takes(Wiring::Mlp, kernels, 0, Source::Weights(0), Slot::Operand(0)),
        takes(Wiring::Mlp, kernels, 0, Source::Weights(1), Slot::Operand(1)),
        takes(Wiring::Mlp, kernels, 0, Source::Input, Slot::Operand(3)),
        takes(Wiring::Mlp, kernels, 1, Source::Weights(0), Slot::Operand(2)),
        exists|gated: Slot|
            #![trigger makes(Wiring::Mlp, kernels, 0, 0, gated)]
            makes(Wiring::Mlp, kernels, 0, 0, gated) && takes(
                Wiring::Mlp,
                kernels,
                1,
                Source::Input,
                gated,
            ),
        makes(Wiring::Mlp, kernels, 1, 0, output_place(Wiring::Mlp, 0, values).0),
        output_place(Wiring::Mlp, 0, values).1 == 0,
{
    assert(multiplies(kernels[1]));
    lemma_takes(Wiring::Mlp, kernels, 0, 0);
    lemma_takes(Wiring::Mlp, kernels, 0, 1);
    lemma_takes(Wiring::Mlp, kernels, 0, 2);
    lemma_takes(Wiring::Mlp, kernels, 1, 0);
    lemma_takes(Wiring::Mlp, kernels, 1, 1);
    assert(makes(Wiring::Mlp, kernels, 0, 0, Slot::Buffer(0)));
}

/// Whether a launch of an attention step reads from a source what another has written.
pub open spec fn hands_on(writer: int, result: int, reader: int, source: Source) -> bool {
    exists|slot: Slot| #[trigger]
        makes(Wiring::Chained, chained_kernels(), writer, result, slot) && takes(
            Wiring::Chained,
            chained_kernels(),
            reader,
            source,
            slot,
        )
}

/// In an attention step the vector is projected to queries, keys and values.
/// Queries and keys are normalized, each with its own scale, and then rotated.
/// Rotated queries attend over the caches and over the rotated keys and the
/// values of the new token, and what was attended is projected. The outputs are
/// what was projected, and the new token's keys and values.
pub proof fn law_chained_flow(values: int)
    ensures
        ({
            let kernels = chained_kernels();
            let chained = Wiring::Chained;
            &&& takes(chained, kernels, 0, Source::Weights(0), Slot::Operand(0))
            &&& takes(chained, kernels, 0, Source::Weights(1), Slot::Operand(1))
            &&& takes(chained, kernels, 0, Source::Weights(2), Slot::Operand(2))
            &&& takes(chained, kernels, 0, Source::Input, Slot::Operand(6))
            &&& hands_on(0, 0, 1, Source::Input)
            &&& takes(chained, kernels, 1, Source::Weights(0), Slot::Operand(4))
            &&& hands_on(0, 1, 2, Source::Input)
            &&& takes(chained, kernels, 2, Source::Weights(0), Slot::Operand(5))
            &&& hands_on(1, 0, 3, Source::Input)
            &&& hands_on(2, 0, 4, Source::Input)
            &&& hands_on(3, 0, 5, Source::Queries)
            &&& hands_on(4, 0, 5, Source::Keys)
            &&& hands_on(0, 2, 5, Source::Values)
            &&& takes(chained, kernels, 5, Source::KeyCache, Slot::Operand(7))
            &&& takes(chained, kernels, 5, Source::ValueCache, Slot::Operand(8))
            &&& hands_on(5, 0, 6, Source::Input)
            &&& takes(chained, kernels, 6, Source::Weights(0), Slot::Operand(3))
            &&& makes(chained, kernels, 6, 0, output_place(chained, 0, values).0)
            &&& makes(chained, kernels, 4, 0, output_place(chained, 1, values).0)
            &&& makes(chained, kernels, 0, 2, output_place(chained, 2, values).0)
            &&& forall|output: int| (#[trigger] output_place(chained, output, values)).1 == 0
        }),
{
    let kernels = chained_kernels();
    let chained = Wiring::Chained;
    lemma_takes(chained, kernels, 0, 0);
    lemma_takes(chained, kernels, 0, 1);
    lemma_takes(chained, kernels, 0, 2);
    lemma_takes(chained, kernels, 0, 3);
    lemma_takes(chained, kernels, 1, 0);
    lemma_takes(chained, kernels, 1, 1);
    lemma_takes(chained, kernels, 2, 0);
    lemma_takes(chained, kernels, 2, 1);
    lemma_takes(chained, kernels, 3, 0);
    lemma_takes(chained, kernels, 4, 0);
    lemma_takes(chained, kernels, 5, 0);
    lemma_takes(chained, kernels, 5, 1);
    lemma_takes(chained, kernels, 5, 2);
    lemma_takes(chained, kernels, 5, 3);
    lemma_takes(chained, kernels, 5, 4);
    lemma_takes(chained, kernels, 6, 0);
    lemma_takes(chained, kernels, 6, 1);
    assert(makes(chained, kernels, 0, 0, Slot::Buffer(0)));
    assert(makes(chained, kernels, 0, 1, Slot::Buffer(1)));
    assert(makes(chained, kernels, 0, 2, Slot::Buffer(2)));
    assert(makes(chained, kernels, 1, 0, Slot::Buffer(3)));
    assert(makes(chained, kernels, 2, 0, Slot::Buffer(4)));
    assert(makes(chained, kernels, 3, 0, Slot::Buffer(5)));
    assert(makes(chained, kernels, 4, 0, Slot::Buffer(6)));
    assert(makes(chained, kernels, 5, 0, Slot::Buffer(7)));
    assert(makes(chained, kernels, 6, 0, Slot::Buffer(8)));
}

} // verus!
