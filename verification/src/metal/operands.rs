//! What a step is given, in the order in which its launches number it.
use vstd::prelude::*;

use super::attention;
use super::attention::ChainedAttentionBufferRequest;
use super::fused;
use super::fused::FusedProjection;
use super::group;
use super::kernel::{Kernel, Switches};
use super::matvec;
use super::plan::{Plan, PlanView};
use super::quantized_groups;
use super::recurrent;
use super::recurrent::GatedDeltaInput;
use super::weights::{Bf16Weight, QuantWeight};
use super::wiring;
use super::wiring::{Slot, Source, Wiring};
use crate::text;

verus! {

/// A place in a numbered device buffer.
#[derive(Debug, Clone, Copy, PartialEq, Eq, Structural)]
pub struct Place {
    pub buffer: u64,
    pub offset: u64,
}

/// What a step is given: what the device holds at a place, or what the host has.
#[derive(Debug, Clone, Copy, PartialEq, Eq, Structural)]
pub enum Operand {
    Held(Place),
    Host(Source),
}

/// Where a source is: weights of which the place is known are held there.
pub open spec fn operand_of(source: Source, held: Seq<Place>) -> Operand {
    match source {
        Source::Weights(number) => if number < held.len() {
            Operand::Held(held[number as int])
        } else {
            Operand::Host(source)
        },
        _ => Operand::Host(source),
    }
}

/// What a step reads, in the order of its operands. A group takes its matrices
/// and then the vector. An MLP takes its gate, up and down matrices and then
/// the vector. An attention step takes the query, key, value and output
/// matrices, the scales of queries and keys, the vector and both caches. Any
/// other step takes what its kernel reads.
pub open spec fn step_sources(wiring: Wiring, launches: nat, kernel: Kernel) -> Seq<Source> {
    match wiring {
        Wiring::Alone | Wiring::Stateful(_) | Wiring::Batch(_) => wiring::kernel_sources(kernel),
        Wiring::Group => Seq::new(launches, |i: int| Source::Weights(i as usize)).push(
            Source::Input,
        ),
        Wiring::Mlp => seq![
            Source::Weights(0),
            Source::Weights(1),
            Source::Weights(2),
            Source::Input,
        ],
        Wiring::Chained => seq![
            Source::Weights(0),
            Source::Weights(1),
            Source::Weights(2),
            Source::Weights(3),
            Source::Weights(4),
            Source::Weights(5),
            Source::Input,
            Source::KeyCache,
            Source::ValueCache,
        ],
    }
}

/// The operands of a step whose first weights the device holds.
pub open spec fn step_operands(
    wiring: Wiring,
    launches: nat,
    kernel: Kernel,
    held: Seq<Place>,
) -> Seq<Operand> {
    step_sources(wiring, launches, kernel).map_values(|source: Source| operand_of(source, held))
}

/// The operands of a plan; a plan without launches takes none.
pub open spec fn plan_operands(plan: PlanView, held: Seq<Place>) -> Seq<Operand> {
    match plan.command {
        Err(_) => Seq::empty(),
        Ok(command) => if command.len() == 0 {
            Seq::empty()
        } else {
            step_operands(plan.wiring, command.len(), command[0].kernel, held)
        },
    }
}

/// The number of the first weights that a launch of a step reads.
pub open spec fn first_weights(wiring: Wiring, launch: int) -> int {
    match wiring {
        Wiring::Alone | Wiring::Stateful(_) | Wiring::Batch(_) => 0,
        Wiring::Group => launch,
        Wiring::Mlp => if launch == 0 {
            0
        } else {
            2
        },
        Wiring::Chained => if launch == 1 {
            4
        } else if launch == 2 {
            5
        } else if launch == 6 {
            3
        } else {
            0
        },
    }
}

/// What a launch of a step reads where its kernel reads a source.
pub open spec fn launch_source(wiring: Wiring, launch: int, source: Source) -> Source {
    match source {
        Source::Weights(number) => Source::Weights(
            (first_weights(wiring, launch) + number) as usize,
        ),
        _ => source,
    }
}

/// An operand that a launch reads is one of the step's, and is what the kernel
/// reads in that position: the launch's own weights, or what the host has.
pub proof fn law_launches_read_their_operands(
    wiring: Wiring,
    kernels: Seq<Kernel>,
    launch: int,
    read: int,
)
    requires
        wiring::wiring_fits(wiring, kernels),
        0 <= launch < kernels.len(),
        0 <= read < wiring::operand_count(kernels[launch]),
    ensures
        ({
            let slots = wiring::launch_slots(
                wiring,
                kernels.len() as usize,
                launch,
                kernels[launch],
            );
            let sources = step_sources(wiring, kernels.len(), kernels[0]);
            slots[read] matches Slot::Operand(operand) ==> operand < sources.len()
                && sources[operand as int] == launch_source(
                wiring,
                launch,
                wiring::kernel_sources(kernels[launch])[read],
            )
        }),
{
    match wiring {
        Wiring::Group => {
            assert(wiring::multiplies(kernels[launch]));
        },
        Wiring::Mlp => {
            assert(wiring::multiplies(kernels[1]));
        },
        _ => {},
    }
}

fn place_source(source: Source, held: &[Place]) -> (operand: Operand)
    ensures
        operand == operand_of(source, held@),
{
    match source {
        Source::Weights(number) => if number < held.len() {
            Operand::Held(held[number])
        } else {
            Operand::Host(source)
        },
        _ => Operand::Host(source),
    }
}

fn list_step_sources(wiring: Wiring, launches: usize, kernel: Kernel) -> (sources: Vec<Source>)
    ensures
        sources@ == step_sources(wiring, launches as nat, kernel),
{
    let sources: Vec<Source> = match wiring {
        Wiring::Alone | Wiring::Stateful(_) | Wiring::Batch(_) => wiring::list_sources(kernel),
        Wiring::Group => {
            let mut sources: Vec<Source> = Vec::new();
            let mut launch: usize = 0;
            while launch < launches
                invariant
                    launch <= launches,
                    sources@ =~= Seq::new(launch as nat, |i: int| Source::Weights(i as usize)),
                decreases launches - launch,
            {
                sources.push(Source::Weights(launch));
                launch += 1;
            }
            sources.push(Source::Input);
            sources
        },
        Wiring::Mlp => vec![
            Source::Weights(0),
            Source::Weights(1),
            Source::Weights(2),
            Source::Input,
        ],
        Wiring::Chained => vec![
            Source::Weights(0),
            Source::Weights(1),
            Source::Weights(2),
            Source::Weights(3),
            Source::Weights(4),
            Source::Weights(5),
            Source::Input,
            Source::KeyCache,
            Source::ValueCache,
        ],
    };
    proof {
        assert(sources@ =~= step_sources(wiring, launches as nat, kernel));
    }
    sources
}

impl Wiring {
    /// The operands of a step whose first weights the device holds.
    pub fn operands(self, launches: usize, kernel: Kernel, held: &[Place]) -> (operands: Vec<
        Operand,
    >)
        ensures
            operands@ == step_operands(self, launches as nat, kernel, held@),
    {
        let sources = list_step_sources(self, launches, kernel);
        let ghost all = step_operands(self, launches as nat, kernel, held@);
        let mut operands: Vec<Operand> = Vec::new();
        let mut index: usize = 0;
        while index < sources.len()
            invariant
                index <= sources@.len(),
                sources@ == step_sources(self, launches as nat, kernel),
                all == step_operands(self, launches as nat, kernel, held@),
                operands@ =~= all.take(index as int),
            decreases sources@.len() - index,
        {
            operands.push(place_source(sources[index], held));
            index += 1;
        }
        proof {
            assert(all.take(index as int) =~= all);
        }
        operands
    }
}

impl Plan {
    /// The operands of the plan, where the device holds its first weights.
    pub fn operands(&self, held: &[Place]) -> (operands: Vec<Operand>)
        ensures
            operands@ == plan_operands(self@, held@),
    {
        match &self.command {
            Err(_) => Vec::new(),
            Ok(command) => if command.len() == 0 {
                Vec::new()
            } else {
                self.wiring.operands(command.len(), command[0].kernel, held)
            },
        }
    }
}

/// Where BF16 weights are.
pub open spec fn bf16_place(weight: Bf16Weight) -> Place {
    Place { buffer: weight.buffer, offset: weight.offset }
}

/// Where a quantized matrix is.
pub open spec fn quant_place(weight: QuantWeight) -> Place {
    Place { buffer: weight.buffer, offset: weight.offset }
}

impl Bf16Weight {
    pub fn place(&self) -> (place: Place)
        ensures
            place == bf16_place(*self),
    {
        Place { buffer: self.buffer, offset: self.offset }
    }

    /// Where the bytes from `start` on are.
    pub fn place_behind(&self, start: usize) -> (place: Place)
        requires
            self.offset + start <= u64::MAX,
        ensures
            place == (Place { buffer: self.buffer, offset: (self.offset + start) as u64 }),
    {
        Place { buffer: self.buffer, offset: self.offset + start as u64 }
    }
}

impl QuantWeight {
    pub fn place(&self) -> (place: Place)
        ensures
            place == quant_place(*self),
    {
        Place { buffer: self.buffer, offset: self.offset }
    }
}

/// Where the matrices of a step are.
pub open spec fn bf16_places(matrices: Seq<(Bf16Weight, usize, usize)>) -> Seq<Place> {
    matrices.map_values(|matrix: (Bf16Weight, usize, usize)| bf16_place(matrix.0))
}

/// Where the matrices of a step are.
pub fn places_of_matrices(matrices: &[(Bf16Weight, usize, usize)]) -> (places: Vec<Place>)
    ensures
        places@ == bf16_places(matrices@),
{
    let mut places: Vec<Place> = Vec::new();
    let mut index: usize = 0;
    while index < matrices.len()
        invariant
            index <= matrices@.len(),
            places@ =~= bf16_places(matrices@).take(index as int),
        decreases matrices@.len() - index,
    {
        places.push(matrices[index].0.place());
        index += 1;
    }
    proof {
        assert(bf16_places(matrices@).take(index as int) =~= bf16_places(matrices@));
    }
    places
}

/// Where the retained matrices of a step are.
pub open spec fn quant_places(weights: Seq<(QuantWeight, usize, usize)>) -> Seq<Place> {
    weights.map_values(|weight: (QuantWeight, usize, usize)| quant_place(weight.0))
}

/// Where the retained matrices of a step are.
pub fn places_of_weights(weights: &[(QuantWeight, usize, usize)]) -> (places: Vec<Place>)
    ensures
        places@ == quant_places(weights@),
{
    let mut places: Vec<Place> = Vec::new();
    let mut index: usize = 0;
    while index < weights.len()
        invariant
            index <= weights@.len(),
            places@ =~= quant_places(weights@).take(index as int),
        decreases weights@.len() - index,
    {
        places.push(weights[index].0.place());
        index += 1;
    }
    proof {
        assert(quant_places(weights@).take(index as int) =~= quant_places(weights@));
    }
    places
}

/// Where the matrices of an attention step are: query, key, value and output.
pub open spec fn chained_places(request: ChainedAttentionBufferRequest) -> Seq<Place> {
    seq![
        bf16_place(request.q.0),
        bf16_place(request.k.0),
        bf16_place(request.v.0),
        bf16_place(request.o.0),
    ]
}

impl ChainedAttentionBufferRequest {
    /// Where the matrices are: query, key, value and output.
    pub fn places(&self) -> (places: Vec<Place>)
        ensures
            places@ == chained_places(*self),
    {
        let places: Vec<Place> = vec![
            self.q.0.place(),
            self.k.0.place(),
            self.v.0.place(),
            self.o.0.place(),
        ];
        proof {
            assert(places@ =~= chained_places(*self));
        }
        places
    }
}

/// Places as operands.
pub open spec fn held_operands(places: Seq<Place>) -> Seq<Operand> {
    places.map_values(|place: Place| Operand::Held(place))
}

/// An attention step takes its query, key, value and output matrices where
/// they are held, then the scales of queries and keys, the vector, and the
/// caches of keys and values.
pub proof fn law_chained_step_takes_its_matrices(request: ChainedAttentionBufferRequest)
    requires
        attention::chained_plan(request) is Ok,
        attention::chained_plan(request)->Ok_0.command is Ok,
    ensures
        plan_operands(attention::chained_plan(request)->Ok_0, chained_places(request)) == seq![
            Operand::Held(bf16_place(request.q.0)),
            Operand::Held(bf16_place(request.k.0)),
            Operand::Held(bf16_place(request.v.0)),
            Operand::Held(bf16_place(request.o.0)),
            Operand::Host(Source::Weights(4)),
            Operand::Host(Source::Weights(5)),
            Operand::Host(Source::Input),
            Operand::Host(Source::KeyCache),
            Operand::Host(Source::ValueCache),
        ],
{
    text::lemma_collected_values(attention::chained_launches(request));
    assert(plan_operands(attention::chained_plan(request)->Ok_0, chained_places(request)) =~= seq![
        Operand::Held(bf16_place(request.q.0)),
        Operand::Held(bf16_place(request.k.0)),
        Operand::Held(bf16_place(request.v.0)),
        Operand::Held(bf16_place(request.o.0)),
        Operand::Host(Source::Weights(4)),
        Operand::Host(Source::Weights(5)),
        Operand::Host(Source::Input),
        Operand::Host(Source::KeyCache),
        Operand::Host(Source::ValueCache),
    ]);
}

/// A recurrent step updates the operand that holds its state.
pub proof fn law_recurrent_steps_update_their_state(
    input: GatedDeltaInput,
    switches: Switches,
    limit: u64,
    values: usize,
    state: usize,
    weights: usize,
    channels: usize,
    kernel_size: usize,
)
    ensures
        updates_state(recurrent::gated_delta_plan(input, switches, limit)),
        updates_state(
            recurrent::causal_conv_plan(values, state, weights, channels, kernel_size),
        ),
{
}

/// Whether an accepted plan, where it has launches, updates the state that it is given.
pub open spec fn updates_state(plan: Result<PlanView, Seq<char>>) -> bool {
    plan is Ok && plan->Ok_0.command is Ok ==> match plan->Ok_0.wiring {
        Wiring::Stateful(operand) => operand < plan_operands(plan->Ok_0, Seq::empty()).len()
            && plan_operands(plan->Ok_0, Seq::empty())[operand as int] == Operand::Host(
            Source::State,
        ),
        _ => false,
    }
}

/// A fused MLP takes its gate, up and down matrices where they are held, and
/// then the vector.
pub proof fn law_fused_mlp_takes_its_matrices(
    gate: QuantWeight,
    up: QuantWeight,
    down: QuantWeight,
    gate_rows: usize,
    columns: usize,
    down_rows: usize,
    input: usize,
    switches: Switches,
)
    requires
        quantized_groups::fused_mlp_plan(
            gate,
            up,
            down,
            gate_rows,
            columns,
            down_rows,
            input,
            switches,
        ) is Ok,
        quantized_groups::fused_mlp_plan(
            gate,
            up,
            down,
            gate_rows,
            columns,
            down_rows,
            input,
            switches,
        )->Ok_0.command is Ok,
    ensures
        plan_operands(
            quantized_groups::fused_mlp_plan(
                gate,
                up,
                down,
                gate_rows,
                columns,
                down_rows,
                input,
                switches,
            )->Ok_0,
            quant_places(
                seq![(gate, gate_rows, columns), (up, gate_rows, columns), (down, down_rows, gate_rows)],
            ),
        ) == seq![
            Operand::Held(quant_place(gate)),
            Operand::Held(quant_place(up)),
            Operand::Held(quant_place(down)),
            Operand::Host(Source::Input),
        ],
{
    let planned = quantized_groups::fused_mlp_plan(
        gate,
        up,
        down,
        gate_rows,
        columns,
        down_rows,
        input,
        switches,
    )->Ok_0;
    quantized_groups::law_fused_mlp_is_separate_steps(
        gate,
        up,
        down,
        gate_rows,
        columns,
        down_rows,
        input,
        switches,
    );
    assert(planned.command->Ok_0.len() == 2);
    let places = quant_places(
        seq![(gate, gate_rows, columns), (up, gate_rows, columns), (down, down_rows, gate_rows)],
    );
    assert(plan_operands(planned, places) =~= seq![
        Operand::Held(quant_place(gate)),
        Operand::Held(quant_place(up)),
        Operand::Held(quant_place(down)),
        Operand::Host(Source::Input),
    ]);
}

/// A group of BF16 products takes its matrices where they are held, and then
/// the vector.
pub proof fn law_bf16_group_takes_its_matrices(
    matrices: Seq<(Bf16Weight, usize, usize)>,
    input: usize,
)
    requires
        matrices.len() <= usize::MAX,
        matvec::bf16_many_plan(matrices, input) is Ok,
        matvec::bf16_many_plan(matrices, input)->Ok_0.command is Ok,
    ensures
        plan_operands(matvec::bf16_many_plan(matrices, input)->Ok_0, bf16_places(matrices))
            == held_operands(bf16_places(matrices)).push(Operand::Host(Source::Input)),
{
    text::lemma_collected_values(matvec::matrix_launches(matrices));
    assert(plan_operands(matvec::bf16_many_plan(matrices, input)->Ok_0, bf16_places(matrices))
        =~= held_operands(bf16_places(matrices)).push(Operand::Host(Source::Input)));
}

/// A group of retained products takes its matrices where they are held, and
/// then the vector.
pub proof fn law_retained_group_takes_its_matrices(
    weights: Seq<(QuantWeight, usize, usize)>,
    input: usize,
    switches: Switches,
)
    requires
        weights.len() <= usize::MAX,
        quantized_groups::many_weights_plan(weights, input, switches) is Ok,
        quantized_groups::many_weights_plan(weights, input, switches)->Ok_0.command is Ok,
    ensures
        plan_operands(
            quantized_groups::many_weights_plan(weights, input, switches)->Ok_0,
            quant_places(weights),
        ) == held_operands(quant_places(weights)).push(Operand::Host(Source::Input)),
{
    let outcomes = quantized_groups::retained_members(weights, input, switches);
    text::lemma_collected_values(outcomes);
    let members = text::collected(outcomes)->Ok_0;
    text::lemma_collected_values(
        group::member_launches(members, quantized_groups::retained_group(input)),
    );
    let planned = quantized_groups::many_weights_plan(weights, input, switches)->Ok_0;
    assert(plan_operands(planned, quant_places(weights)) =~= held_operands(
        quant_places(weights),
    ).push(Operand::Host(Source::Input)));
}

/// A fused projection, of one vector or of a batch, takes its matrices where
/// they are held, and then the vectors.
pub proof fn law_fused_projection_takes_its_matrices(
    kind: FusedProjection,
    matrices: Seq<(Bf16Weight, usize, usize)>,
    batch: usize,
    inputs: usize,
    limit: Option<u64>,
)
    ensures
        fused::fused_plan(kind, matrices, inputs) is Ok && fused::fused_plan(
            kind,
            matrices,
            inputs,
        )->Ok_0.command is Ok ==> plan_operands(
            fused::fused_plan(kind, matrices, inputs)->Ok_0,
            bf16_places(matrices),
        ) == held_operands(bf16_places(matrices)).push(Operand::Host(Source::Input)),
        fused::fused_many_plan(kind, matrices, batch, inputs, limit) is Ok && fused::fused_many_plan(
            kind,
            matrices,
            batch,
            inputs,
            limit,
        )->Ok_0.command is Ok ==> plan_operands(
            fused::fused_many_plan(kind, matrices, batch, inputs, limit)->Ok_0,
            bf16_places(matrices),
        ) == held_operands(bf16_places(matrices)).push(Operand::Host(Source::Input)),
{
    let taken = held_operands(bf16_places(matrices)).push(Operand::Host(Source::Input));
    let single = fused::fused_plan(kind, matrices, inputs);
    if single is Ok && single->Ok_0.command is Ok {
        assert(plan_operands(single->Ok_0, bf16_places(matrices)) =~= taken);
    }
    let many = fused::fused_many_plan(kind, matrices, batch, inputs, limit);
    if many is Ok && many->Ok_0.command is Ok {
        assert(plan_operands(many->Ok_0, bf16_places(matrices)) =~= taken);
    }
}

} // verus!
