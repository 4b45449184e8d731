//! Plans for products with BF16, bit-packed and F32 matrices.
use vstd::arithmetic::div_mod::*;
use vstd::prelude::*;

use super::attention;
use super::context::MetalContext;
use super::group;
use super::kernel::{Constants, Dispatch, Grid, Kernel, Switches, Threads};
use super::norm;
use super::plan;
use super::plan::{Plan, PlanView, Profile, SlicePlan, SliceView};
use super::quantized;
use super::stats::Submission;
use super::validate;
use super::weights;
use super::weights::Bf16Weight;
use super::wiring;
use super::wiring::Wiring;
use crate::lossless::matrix;
use crate::quant;
use crate::tensor;
use crate::tensor::{GgufTensorView, TensorView};
use crate::text;

verus! {

/// What is wrong with a matrix that multiplies an input, if anything is.
pub open spec fn bf16_matrix(matrix: (Bf16Weight, usize, usize), input: usize) -> Result<
    usize,
    Seq<char>,
> {
    let (weight, rows, columns) = matrix;
    if rows * columns > usize::MAX || rows * columns * 2 > usize::MAX {
        Err("BF16 matrix dimensions overflow"@)
    } else if rows == 0 || columns == 0 || input != columns || weight.bytes != rows * columns * 2 {
        Err("BF16 matvec dimensions or byte length are invalid"@)
    } else {
        Ok(rows)
    }
}

fn check_bf16_matrix(matrix: &(Bf16Weight, usize, usize), input: usize) -> (result: Result<
    usize,
    String,
>)
    ensures
        text::outcome(result) == bf16_matrix(*matrix, input),
{
    let (weight, rows, columns) = *matrix;
    let expected: usize = match validate::checked_bf16_bytes(rows, columns) {
        Some(bytes) => bytes,
        None => {
            return Err("BF16 matrix dimensions overflow".to_owned());
        },
    };
    if rows == 0 || columns == 0 || input != columns || weight.bytes != expected as u64 {
        return Err("BF16 matvec dimensions or byte length are invalid".to_owned());
    }
    Ok(rows)
}

pub open spec fn matrix_rows(matrices: Seq<(Bf16Weight, usize, usize)>, input: usize) -> Seq<
    Result<usize, Seq<char>>,
> {
    matrices.map_values(|matrix: (Bf16Weight, usize, usize)| bf16_matrix(matrix, input))
}

pub open spec fn matrix_weights(matrices: Seq<(Bf16Weight, usize, usize)>) -> Seq<Bf16Weight> {
    matrices.map_values(|matrix: (Bf16Weight, usize, usize)| matrix.0)
}

pub open spec fn matrix_launches(matrices: Seq<(Bf16Weight, usize, usize)>) -> Seq<
    Result<Dispatch, Seq<char>>,
> {
    matrices.map_values(
        |matrix: (Bf16Weight, usize, usize)|
            attention::bf16_matvec_launch(matrix.1 as int, matrix.2 as int),
    )
}

/// The plan of products of several bound matrices with one vector.
pub open spec fn bf16_many_plan(matrices: Seq<(Bf16Weight, usize, usize)>, input: usize) -> Result<
    PlanView,
    Seq<char>,
> {
    if matrices.len() == 0 {
        Err("batched BF16 matvec requires at least one matrix"@)
    } else {
        match text::collected(matrix_rows(matrices, input)) {
            Err(message) => Err(message),
            Ok(rows) => Ok(
                group::outputs_plan(
                    weights::weights_profile(
                        matrix_weights(matrices),
                        group::group_scratch(input, rows),
                    ),
                    text::collected(matrix_launches(matrices)),
                    Wiring::Group,
                    Submission::Pending,
                    rows,
                    "command"@,
                ),
            ),
        }
    }
}

/// The weights of matrices.
pub fn weights_of(matrices: &[(Bf16Weight, usize, usize)]) -> (bound: Vec<Bf16Weight>)
    ensures
        bound@ == matrix_weights(matrices@),
{
    let mut bound: Vec<Bf16Weight> = Vec::new();
    let mut index: usize = 0;
    while index < matrices.len()
        invariant
            index <= matrices@.len(),
            bound@ =~= matrix_weights(matrices@).take(index as int),
        decreases matrices@.len() - index,
    {
        bound.push(matrices[index].0);
        index += 1;
    }
    proof {
        assert(matrix_weights(matrices@).take(index as int) =~= matrix_weights(matrices@));
    }
    bound
}

fn plan_matrix_launches(matrices: &[(Bf16Weight, usize, usize)]) -> (command: Result<
    Vec<Dispatch>,
    String,
>)
    ensures
        plan::command_view(command) == text::collected(matrix_launches(matrices@)),
{
    let mut launches: Vec<Result<Dispatch, String>> = Vec::new();
    let mut index: usize = 0;
    while index < matrices.len()
        invariant
            index <= matrices@.len(),
            plan::launch_views(launches@) =~= matrix_launches(matrices@).take(index as int),
        decreases matrices@.len() - index,
    {
        let ghost before = launches@;
        let (_, rows, columns) = matrices[index];
        launches.push(attention::plan_bf16_matvec(rows, columns));
        proof {
            assert(plan::launch_views(launches@) =~= plan::launch_views(before).push(
                attention::bf16_matvec_launch(rows as int, columns as int),
            ));
        }
        index += 1;
    }
    proof {
        assert(matrix_launches(matrices@).take(index as int) =~= matrix_launches(matrices@));
    }
    plan::collect_launches(&launches)
}

fn plan_bf16_many(matrices: &[(Bf16Weight, usize, usize)], input: usize) -> (result: Result<
    Plan,
    String,
>)
    ensures
        text::outcome_view(result) == bf16_many_plan(matrices@, input),
{
    if matrices.len() == 0 {
        return Err("batched BF16 matvec requires at least one matrix".to_owned());
    }
    let ghost outcomes = matrix_rows(matrices@, input);
    let mut rows: Vec<usize> = Vec::new();
    let mut index: usize = 0;
    proof {
        assert(outcomes.take(0) =~= Seq::empty());
    }
    while index < matrices.len()
        invariant
            index <= matrices@.len(),
            outcomes == matrix_rows(matrices@, input),
            text::collected(outcomes.take(index as int)) == Ok::<Seq<usize>, Seq<char>>(rows@),
        decreases matrices@.len() - index,
    {
        proof {
            text::lemma_collected_step(outcomes, index as int);
        }
        match check_bf16_matrix(&matrices[index], input) {
            Ok(count) => rows.push(count),
            Err(message) => {
                return Err(message);
            },
        }
        index += 1;
    }
    proof {
        assert(outcomes.take(index as int) =~= outcomes);
    }
    let bound = weights_of(matrices);
    let scratch: u64 = group::scratch_of_group(input, &rows);
    Ok(
        group::plan_outputs(
            weights::profile_of_weights(&bound, scratch),
            plan_matrix_launches(matrices),
            Wiring::Group,
            Submission::Pending,
            rows,
            "command",
        ),
    )
}

/// The launches of several products can be connected as their plan says.
pub proof fn law_bf16_group_is_wired(matrices: Seq<(Bf16Weight, usize, usize)>, input: usize)
    requires
        matrices.len() <= usize::MAX,
        bf16_many_plan(matrices, input) is Ok,
    ensures
        plan::is_wired(bf16_many_plan(matrices, input)->Ok_0),
{
    let planned = bf16_many_plan(matrices, input)->Ok_0;
    if planned.command is Ok {
        let launches = matrix_launches(matrices);
        text::lemma_collected_values(launches);
        let kernels = plan::kernels_of(planned.command->Ok_0);
        assert forall|i: int| 0 <= i < kernels.len() implies wiring::multiplies(
            #[trigger] kernels[i],
        ) by {
            assert(launches[i] == attention::bf16_matvec_launch(
                matrices[i].1 as int,
                matrices[i].2 as int,
            ));
        }
    }
}

/// The plan of the product of one bound matrix with a vector.
pub open spec fn bf16_matvec_buffer_plan(
    weight: Bf16Weight,
    rows: usize,
    columns: usize,
    input: usize,
) -> Result<PlanView, Seq<char>> {
    bf16_many_plan(seq![(weight, rows, columns)], input)
}

fn plan_bf16_matvec_buffer(weight: &Bf16Weight, rows: usize, columns: usize, input: usize) -> (result: Result<
    Plan,
    String,
>)
    ensures
        text::outcome_view(result) == bf16_matvec_buffer_plan(*weight, rows, columns, input),
{
    let matrices: Vec<(Bf16Weight, usize, usize)> = vec![(*weight, rows, columns)];
    proof {
        assert(matrices@ =~= seq![(*weight, rows, columns)]);
    }
    plan_bf16_many(matrices.as_slice(), input)
}

/// The plan that a weight allows once it is bound.
pub open spec fn with_bound_weight(
    weight: Result<Bf16Weight, Seq<char>>,
    rows: usize,
    columns: usize,
    input: usize,
) -> Result<PlanView, Seq<char>> {
    match weight {
        Err(message) => Err(message),
        Ok(weight) => bf16_matvec_buffer_plan(weight, rows, columns, input),
    }
}

fn plan_with_bound_weight(
    weight: &Result<Bf16Weight, String>,
    rows: usize,
    columns: usize,
    input: usize,
) -> (result: Result<Plan, String>)
    ensures
        text::outcome_view(result) == with_bound_weight(
            text::outcome(*weight),
            rows,
            columns,
            input,
        ),
{
    match weight {
        Ok(weight) => plan_bf16_matvec_buffer(weight, rows, columns, input),
        Err(message) => Err(message.clone()),
    }
}

pub open spec fn bf16_matvec_plan(
    weight_len: nat,
    rows: usize,
    columns: usize,
    input: usize,
    weight: Result<Bf16Weight, Seq<char>>,
) -> Result<PlanView, Seq<char>> {
    if rows * columns > usize::MAX || rows * columns * 2 > usize::MAX {
        Err("BF16 matrix dimensions overflow"@)
    } else if rows == 0 || columns == 0 || input != columns || weight_len != rows * columns * 2 {
        Err("BF16 matvec dimensions or byte length are invalid"@)
    } else {
        with_bound_weight(weight, rows, columns, input)
    }
}

/// Once its bytes are bound, a product with bytes is the product with the
/// retained weight, and is refused for the same sizes.
pub proof fn law_bytes_and_buffer_agree(
    weight: Bf16Weight,
    rows: usize,
    columns: usize,
    input: usize,
)
    ensures
        bf16_matvec_plan(weight.bytes as nat, rows, columns, input, Ok(weight))
            == bf16_matvec_buffer_plan(weight, rows, columns, input),
{
    let matrices = seq![(weight, rows, columns)];
    let outcomes = matrix_rows(matrices, input);
    assert(outcomes =~= seq![bf16_matrix((weight, rows, columns), input)]);
    assert(outcomes.drop_last() =~= Seq::empty());
    assert(text::collected(outcomes.drop_last()) == Ok::<Seq<usize>, Seq<char>>(Seq::empty()));
}

/// What came of binding weights, with messages as character sequences.
pub open spec fn bound_outcomes(bound: Seq<Result<Bf16Weight, String>>) -> Seq<
    Result<Bf16Weight, Seq<char>>,
> {
    bound.map_values(|weight: Result<Bf16Weight, String>| text::outcome(weight))
}

/// Bound weights with their shapes, or the message of the first weight that
/// could not be bound.
pub open spec fn bound_matrices(
    bound: Seq<Result<Bf16Weight, String>>,
    shapes: Seq<(usize, usize)>,
) -> Result<Seq<(Bf16Weight, usize, usize)>, Seq<char>> {
    match text::collected(bound_outcomes(bound)) {
        Err(message) => Err(message),
        Ok(weights) => Ok(
            Seq::new(weights.len(), |i: int| (weights[i], shapes[i].0, shapes[i].1)),
        ),
    }
}

/// Bound weights with their shapes.
pub fn bind_matrices(bound: &[Result<Bf16Weight, String>], shapes: &[(usize, usize)]) -> (result: Result<
    Vec<(Bf16Weight, usize, usize)>,
    String,
>)
    requires
        bound@.len() == shapes@.len(),
    ensures
        text::outcome_view(result) == bound_matrices(bound@, shapes@),
{
    let ghost outcomes = bound_outcomes(bound@);
    let ghost mut weights: Seq<Bf16Weight> = Seq::empty();
    let mut matrices: Vec<(Bf16Weight, usize, usize)> = Vec::new();
    let mut index: usize = 0;
    proof {
        assert(outcomes.take(0) =~= Seq::empty());
    }
    while index < bound.len()
        invariant
            index <= bound@.len(),
            bound@.len() == shapes@.len(),
            outcomes == bound_outcomes(bound@),
            text::collected(outcomes.take(index as int)) == Ok::<Seq<Bf16Weight>, Seq<char>>(
                weights,
            ),
            weights.len() == index,
            matrices@ =~= Seq::new(
                weights.len(),
                |i: int| (weights[i], shapes@[i].0, shapes@[i].1),
            ),
        decreases bound@.len() - index,
    {
        proof {
            text::lemma_collected_step(outcomes, index as int);
        }
        match &bound[index] {
            Ok(weight) => {
                let (rows, columns) = shapes[index];
                matrices.push((*weight, rows, columns));
                proof {
                    weights = weights.push(*weight);
                }
            },
            Err(message) => {
                return Err(message.clone());
            },
        }
        index += 1;
    }
    proof {
        assert(outcomes.take(index as int) =~= outcomes);
    }
    Ok(matrices)
}

pub open spec fn bf16_many_tensors_plan(
    tensors: Seq<&TensorView>,
    bound: Seq<Result<Bf16Weight, String>>,
    input: usize,
) -> Result<PlanView, Seq<char>> {
    match validate::tensor_batch(tensors, input as int) {
        Err(message) => Err(message),
        Ok(shapes) => match bound_matrices(bound, shapes) {
            Err(message) => Err(message),
            Ok(matrices) => bf16_many_plan(matrices, input),
        },
    }
}

fn plan_bf16_many_tensors(
    tensors: &[&TensorView<'_>],
    bound: &[Result<Bf16Weight, String>],
    input: usize,
) -> (result: Result<Plan, String>)
    requires
        bound@.len() == tensors@.len(),
    ensures
        text::outcome_view(result) == bf16_many_tensors_plan(tensors@, bound@, input),
{
    let shapes = match validate::validate_matvec_tensor_batch(tensors, input) {
        Ok(shapes) => shapes,
        Err(message) => {
            return Err(message);
        },
    };
    proof {
        validate::lemma_batch_length(tensors@, input as int);
    }
    match bind_matrices(bound, shapes.as_slice()) {
        Ok(matrices) => plan_bf16_many(matrices.as_slice(), input),
        Err(message) => Err(message),
    }
}

/// The launch of a product of one BF16 matrix with several vectors.
pub open spec fn bf16_matmul_launch(rows: usize, columns: usize, batch: usize, limit: u64) -> Result<
    Dispatch,
    Seq<char>,
> {
    if limit < 32 {
        Err("batched matmul requires at least one 32-thread SIMD group"@)
    } else if columns > u32::MAX {
        Err("batched matmul columns exceed Metal limits"@)
    } else if rows > u32::MAX {
        Err("batched matmul rows exceed Metal limits"@)
    } else {
        Ok(
            Dispatch {
                kernel: Kernel::Bf16MatmulMany,
                constants: Constants::Three(columns as u32, rows as u32, batch as u32),
                grid: Grid::Groups(rows as u64),
                threads: Threads::Exactly(32),
            },
        )
    }
}

/// The plan of the product of one bound matrix with one to eight vectors.
/// `limit` is the threads that the kernel allows in a group, if it is loaded.
pub open spec fn bf16_matmul_many_plan(
    weight: Bf16Weight,
    rows: usize,
    columns: usize,
    batch: usize,
    inputs: usize,
    limit: Option<u64>,
) -> Result<PlanView, Seq<char>> {
    if weight.bytes > usize::MAX {
        Err("BF16 weight length exceeds usize"@)
    } else {
        match validate::matmul_many_shape(
            rows as int,
            columns as int,
            batch as int,
            weight.bytes as int,
            inputs as int,
        ) {
            Err(message) => Err(message),
            Ok(()) => match limit {
                None => Err("batched matmul is disabled; set SI_VERIFY_MANY=1"@),
                Some(limit) => if batch * rows > usize::MAX {
                    Err("batched matmul output dimensions overflow"@)
                } else if batch * rows * 4 > usize::MAX {
                    Err("batched matmul output byte length overflows"@)
                } else {
                    Ok(
                        quantized::batch_plan(
                            Profile {
                                weights: if weight.persistent && !weight.mapped {
                                    0
                                } else {
                                    weight.bytes
                                },
                                state: 0,
                                scratch: plan::plus(
                                    plan::value_bytes(inputs as int),
                                    plan::value_bytes(batch * rows),
                                ),
                                mapped: weight.mapped,
                            },
                            norm::launch_of(bf16_matmul_launch(rows, columns, batch, limit)),
                            rows,
                            batch,
                            "batched matmul command"@,
                        ),
                    )
                },
            },
        }
    }
}

pub open spec fn bf16_matmul_many_tensor_plan(
    tensor: TensorView,
    weight: Result<Bf16Weight, Seq<char>>,
    batch: usize,
    inputs: usize,
    limit: Option<u64>,
) -> Result<PlanView, Seq<char>> {
    if !tensor::is_bf16_matrix(*tensor.info) {
        Err("batched matmul requires a rank-2 BF16 tensor"@)
    } else {
        match weight {
            Err(message) => Err(message),
            Ok(weight) => bf16_matmul_many_plan(
                weight,
                tensor.info.shape@[0],
                tensor.info.shape@[1],
                batch,
                inputs,
                limit,
            ),
        }
    }
}

/// Whether tile offsets start at zero, never fall and end at the payload's end.
pub open spec fn offsets_complete(offsets: Seq<u32>, packed_len: nat) -> bool {
    &&& offsets.len() > 0
    &&& offsets[0] == 0
    &&& offsets.last() == packed_len
    &&& forall|i: int, j: int| 0 <= i <= j < offsets.len() ==> offsets[i] <= offsets[j]
}

/// The launch of a product with a bit-packed matrix.
pub open spec fn bitpack_launch(
    enabled: bool,
    rows: usize,
    columns: usize,
    tile_rows: usize,
) -> Result<Dispatch, Seq<char>> {
    if !enabled {
        Err("BF16 bitpack Metal probe is disabled; set SI_LOSSLESS_GPU=1"@)
    } else if rows > u32::MAX {
        Err("BF16 bitpack rows exceed Metal limits"@)
    } else if columns > u32::MAX {
        Err("BF16 bitpack columns exceed Metal limits"@)
    } else if tile_rows > u32::MAX {
        Err("BF16 bitpack tile rows exceed Metal limits"@)
    } else {
        Ok(
            Dispatch {
                kernel: Kernel::Bf16BitpackMatvec,
                constants: Constants::Three(rows as u32, columns as u32, tile_rows as u32),
                grid: Grid::Groups(rows as u64),
                threads: Threads::AtMost(128),
            },
        )
    }
}

pub open spec fn bf16_bitpack_matvec_plan(
    packed_len: nat,
    offsets: Seq<u32>,
    rows: usize,
    columns: usize,
    tile_rows: usize,
    input: usize,
    enabled: bool,
) -> Result<PlanView, Seq<char>> {
    if rows == 0 || columns == 0 || tile_rows == 0 || input != columns {
        Err("BF16 bitpack matvec dimensions are invalid"@)
    } else if packed_len < 4 {
        Err("BF16 bitpack payload is too short"@)
    } else if offsets.len() != matrix::tile_count(rows as int, tile_rows as int) + 1 {
        Err("BF16 bitpack offset count does not match matrix tiles"@)
    } else if packed_len > u32::MAX {
        Err("BF16 bitpack payload exceeds 4 GiB offset range"@)
    } else if !offsets_complete(offsets, packed_len) {
        Err("BF16 bitpack offsets are not monotonic or complete"@)
    } else if rows * 4 > usize::MAX {
        Err("BF16 bitpack output dimensions overflow"@)
    } else {
        Ok(
            plan::single_output(
                Profile {
                    weights: plan::plus(
                        packed_len as u64,
                        plan::value_bytes(offsets.len() as int),
                    ),
                    state: 0,
                    scratch: plan::plus(
                        plan::value_bytes(input as int),
                        plan::value_bytes(rows as int),
                    ),
                    mapped: false,
                },
                "Metal could not bind the mapped BF16 bitpack buffers"@,
                norm::launch_of(bitpack_launch(enabled, rows, columns, tile_rows)),
                rows,
                "BF16 bitpack matvec command"@,
            ),
        )
    }
}

/// A packed matrix is accepted together with its offsets: what packing a
/// matrix returns can be multiplied as it stands.
pub proof fn law_packed_matrix_is_accepted(
    source: Seq<u8>,
    rows: usize,
    columns: usize,
    tile_rows: usize,
    enabled: bool,
)
    requires
        matrix::matrix_encoding(source, rows as int, columns as int, tile_rows as int) is Ok,
        rows * 4 <= usize::MAX,
    ensures
        ({
            let (packed, offsets) = matrix::matrix_encoding(
                source,
                rows as int,
                columns as int,
                tile_rows as int,
            )->Ok_0;
            bf16_bitpack_matvec_plan(
                packed.len(),
                offsets,
                rows,
                columns,
                tile_rows,
                columns,
                enabled,
            ) is Ok
        }),
{
    matrix::law_offsets_never_fall(source, rows as int, columns as int, tile_rows as int);
}

fn check_offsets(offsets: &[u32], packed_len: usize) -> (complete: bool)
    ensures
        complete == offsets_complete(offsets@, packed_len as nat),
{
    if offsets.len() == 0 || offsets[0] != 0 || offsets[offsets.len() - 1] as u64
        != packed_len as u64 {
        return false;
    }
    let length: usize = offsets.len();
    let mut index: usize = 1;
    while index < length
        invariant
            1 <= index <= length,
            length == offsets@.len(),
            forall|i: int, j: int| 0 <= i <= j < index ==> offsets@[i] <= offsets@[j],
        decreases length - index,
    {
        if offsets[index - 1] > offsets[index] {
            proof {
                assert(offsets@[index - 1] > offsets@[index as int]);
            }
            return false;
        }
        index += 1;
    }
    true
}

pub open spec fn bf16_matvec_tensor_plan(
    tensor: TensorView,
    weight: Result<Bf16Weight, Seq<char>>,
    input: usize,
) -> Result<PlanView, Seq<char>> {
    if !tensor::is_bf16_matrix(*tensor.info) {
        Err("matvec requires a rank-2 BF16 tensor"@)
    } else {
        with_bound_weight(weight, tensor.info.shape@[0], tensor.info.shape@[1], input)
    }
}

/// Rows of a matrix and the bytes of the tensor that they take.
#[derive(Debug, Clone, Copy, PartialEq, Eq, Structural)]
pub struct RowChunk {
    pub row_start: usize,
    pub row_count: usize,
    pub byte_start: usize,
    pub byte_end: usize,
}

/// The chunk of at most `max_rows` rows from a multiple of `max_rows` on.
pub open spec fn row_chunk(index: int, rows: int, row_bytes: int, max_rows: int) -> RowChunk {
    let row_start = index * max_rows;
    let row_count = if max_rows < rows - row_start {
        max_rows
    } else {
        rows - row_start
    };
    RowChunk {
        row_start: row_start as usize,
        row_count: row_count as usize,
        byte_start: (row_start * row_bytes) as usize,
        byte_end: (row_start * row_bytes + row_count * row_bytes) as usize,
    }
}

pub open spec fn row_chunks(rows: int, row_bytes: int, max_rows: int) -> Seq<RowChunk> {
    Seq::new(
        matrix::tile_count(rows, max_rows) as nat,
        |index: int| row_chunk(index, rows, row_bytes, max_rows),
    )
}

pub open spec fn chunked_rows(tensor: TensorView, input: usize, max_rows: usize) -> Result<
    Seq<RowChunk>,
    Seq<char>,
> {
    let rows = tensor.info.shape@[0];
    let columns = tensor.info.shape@[1];
    let row_bytes = columns * 2;
    if !tensor::is_bf16_matrix(*tensor.info) || max_rows == 0 {
        Err("chunked matvec requires a rank-2 BF16 tensor and non-zero row cap"@)
    } else if row_bytes > usize::MAX {
        Err("chunked matvec row byte length overflow"@)
    } else if rows * row_bytes > usize::MAX {
        Err("chunked matvec dimensions overflow"@)
    } else if tensor.bytes@.len() != rows * row_bytes || input != columns {
        Err("chunked matvec tensor bytes or input length is invalid"@)
    } else {
        Ok(row_chunks(rows as int, row_bytes, max_rows as int))
    }
}

proof fn lemma_chunk_bounds(index: int, rows: int, row_bytes: int, max_rows: int)
    requires
        0 <= index < matrix::tile_count(rows, max_rows),
        max_rows > 0,
        rows >= 0,
        row_bytes >= 0,
    ensures
        0 <= index * max_rows < rows,
        rows - index * max_rows <= max_rows <==> index == matrix::tile_count(rows, max_rows) - 1,
        0 <= index * max_rows * row_bytes,
        index * max_rows * row_bytes + (rows - index * max_rows) * row_bytes == rows * row_bytes,
        max_rows < rows - index * max_rows ==> 0 <= max_rows * row_bytes <= (rows - index
            * max_rows) * row_bytes,
        0 <= (rows - index * max_rows) * row_bytes <= rows * row_bytes,
{
    let count = matrix::tile_count(rows, max_rows);
    lemma_fundamental_div_mod(rows + max_rows - 1, max_rows);
    let rest = (rows + max_rows - 1) % max_rows;
    assert(0 <= rest < max_rows) by {
        lemma_mod_bound(rows + max_rows - 1, max_rows);
    }
    assert(max_rows * count == rows + max_rows - 1 - rest);
    assert(index * max_rows <= (count - 1) * max_rows) by (nonlinear_arith)
        requires
            index <= count - 1,
            max_rows > 0,
    ;
    assert((count - 1) * max_rows == max_rows * count - max_rows) by (nonlinear_arith);
    assert(index * max_rows >= 0) by (nonlinear_arith)
        requires
            index >= 0,
            max_rows > 0,
    ;
    if index < count - 1 {
        assert((index + 1) * max_rows <= (count - 1) * max_rows) by (nonlinear_arith)
            requires
                index + 1 <= count - 1,
                max_rows > 0,
        ;
        assert((index + 1) * max_rows == index * max_rows + max_rows) by (nonlinear_arith);
    }
    let start = index * max_rows;
    assert(start * row_bytes >= 0) by (nonlinear_arith)
        requires
            start >= 0,
            row_bytes >= 0,
    ;
    assert(start * row_bytes + (rows - start) * row_bytes == rows * row_bytes) by (nonlinear_arith);
    assert((rows - start) * row_bytes >= 0) by (nonlinear_arith)
        requires
            rows - start >= 0,
            row_bytes >= 0,
    ;
    if max_rows < rows - start {
        assert(0 <= max_rows * row_bytes <= (rows - start) * row_bytes) by (nonlinear_arith)
            requires
                0 < max_rows <= rows - start,
                row_bytes >= 0,
        ;
    }
}

/// The chunks cover all rows and bytes of the matrix in order and without a
/// gap, and none is empty or has more rows than the cap.
pub proof fn law_chunks_cover_rows(tensor: TensorView, input: usize, max_rows: usize)
    requires
        chunked_rows(tensor, input, max_rows) is Ok,
    ensures
        ({
            let chunks = chunked_rows(tensor, input, max_rows)->Ok_0;
            let rows = tensor.info.shape@[0];
            let row_bytes = tensor.info.shape@[1] * 2;
            &&& chunks.len() == 0 <==> rows == 0
            &&& chunks.len() > 0 ==> chunks[0].row_start == 0 && chunks[0].byte_start == 0
                && chunks.last().row_start + chunks.last().row_count == rows
                && chunks.last().byte_end == tensor.bytes@.len()
            &&& forall|i: int|
                0 <= i < chunks.len() ==> {
                    &&& 0 < (#[trigger] chunks[i]).row_count <= max_rows
                    &&& chunks[i].byte_end - chunks[i].byte_start == chunks[i].row_count * row_bytes
                    &&& chunks[i].byte_end - chunks[i].byte_start <= max_rows * row_bytes
                }
            &&& forall|i: int, j: int|
                0 <= i && j == i + 1 && j < chunks.len() ==> {
                    &&& (#[trigger] chunks[j]).row_start == (#[trigger] chunks[i]).row_start
                        + chunks[i].row_count
                    &&& chunks[j].byte_start == chunks[i].byte_end
                }
        }),
{
    let rows = tensor.info.shape@[0] as int;
    let row_bytes = tensor.info.shape@[1] * 2;
    let cap = max_rows as int;
    let chunks = row_chunks(rows, row_bytes, cap);
    let count = matrix::tile_count(rows, cap);
    lemma_fundamental_div_mod(rows + cap - 1, cap);
    lemma_mod_bound(rows + cap - 1, cap);
    assert(count >= 0) by {
        lemma_div_pos_is_pos(rows + cap - 1, cap);
    }
    if rows == 0 {
        lemma_basic_div(cap - 1, cap);
    } else if count == 0 {
        assert(cap * count == 0) by (nonlinear_arith)
            requires
                count == 0,
        ;
    }
    assert forall|i: int| 0 <= i < chunks.len() implies {
        &&& 0 < (#[trigger] chunks[i]).row_count <= max_rows
        &&& chunks[i].byte_end - chunks[i].byte_start == chunks[i].row_count * row_bytes
        &&& chunks[i].byte_end - chunks[i].byte_start <= max_rows * row_bytes
    } by {
        lemma_chunk_bounds(i, rows, row_bytes, cap);
        let counted = chunks[i].row_count as int;
        assert(counted * row_bytes <= cap * row_bytes) by (nonlinear_arith)
            requires
                counted <= cap,
                row_bytes >= 0,
        ;
    }
    assert forall|i: int, j: int| 0 <= i && j == i + 1 && j < chunks.len() implies {
        &&& (#[trigger] chunks[j]).row_start == (#[trigger] chunks[i]).row_start
            + chunks[i].row_count
        &&& chunks[j].byte_start == chunks[i].byte_end
    } by {
        lemma_chunk_bounds(i, rows, row_bytes, cap);
        lemma_chunk_bounds(j, rows, row_bytes, cap);
        assert(j * cap == i * cap + cap) by (nonlinear_arith)
            requires
                j == i + 1,
        ;
        let first = i * cap;
        assert((first + cap) * row_bytes == first * row_bytes + cap * row_bytes)
            by (nonlinear_arith);
    }
    if count > 0 {
        lemma_chunk_bounds(0, rows, row_bytes, cap);
        lemma_chunk_bounds(count - 1, rows, row_bytes, cap);
        assert(0 * cap == 0 && 0 * cap * row_bytes == 0) by (nonlinear_arith);
    }
}

/// Where the bytes of a row range start and end in a tensor, or what is wrong
/// with the range.
pub open spec fn row_range(tensor: TensorView, input: usize, row_start: usize, row_count: usize) -> Result<
    (usize, usize),
    Seq<char>,
> {
    let row_bytes = tensor.info.shape@[1] * 2;
    let start = row_start * row_bytes;
    let len = row_count * row_bytes;
    if !tensor::is_bf16_matrix(*tensor.info) || row_count == 0 || row_start + row_count
        > tensor.info.shape@[0] || input != tensor.info.shape@[1] {
        Err("row-range matvec dimensions are invalid"@)
    } else if row_bytes > usize::MAX {
        Err("row-range matvec row byte length overflow"@)
    } else if start > usize::MAX {
        Err("row-range matvec byte offset overflow"@)
    } else if len > usize::MAX {
        Err("row-range matvec byte length overflow"@)
    } else if start + len > usize::MAX {
        Err("row-range matvec byte end overflow"@)
    } else if start + len > tensor.bytes@.len() {
        Err("row-range matvec bytes are shorter than requested range"@)
    } else {
        Ok((start as usize, (start + len) as usize))
    }
}

/// Where the bytes of a row range start and end in a tensor.
pub fn row_range_bytes(
    tensor: &TensorView<'_>,
    input: usize,
    row_start: usize,
    row_count: usize,
) -> (result: Result<(usize, usize), String>)
    ensures
        text::outcome(result) == row_range(*tensor, input, row_start, row_count),
{
    if !tensor.info.has_bf16_matrix() || row_count == 0 {
        return Err("row-range matvec dimensions are invalid".to_owned());
    }
    let rows: usize = tensor.info.shape[0];
    let columns: usize = tensor.info.shape[1];
    let fits = match row_start.checked_add(row_count) {
        Some(end) => end <= rows,
        None => false,
    };
    if !fits || input != columns {
        return Err("row-range matvec dimensions are invalid".to_owned());
    }
    let row_bytes: usize = match columns.checked_mul(2) {
        Some(bytes) => bytes,
        None => {
            return Err("row-range matvec row byte length overflow".to_owned());
        },
    };
    let start: usize = match row_start.checked_mul(row_bytes) {
        Some(start) => start,
        None => {
            return Err("row-range matvec byte offset overflow".to_owned());
        },
    };
    let len: usize = match row_count.checked_mul(row_bytes) {
        Some(len) => len,
        None => {
            return Err("row-range matvec byte length overflow".to_owned());
        },
    };
    let end: usize = match start.checked_add(len) {
        Some(end) => end,
        None => {
            return Err("row-range matvec byte end overflow".to_owned());
        },
    };
    if end > tensor.bytes.len() {
        return Err("row-range matvec bytes are shorter than requested range".to_owned());
    }
    Ok((start, end))
}

pub open spec fn bf16_matvec_tensor_rows_plan(
    tensor: TensorView,
    input: usize,
    row_start: usize,
    row_count: usize,
    weight: Result<Bf16Weight, Seq<char>>,
) -> Result<SliceView, Seq<char>> {
    match row_range(tensor, input, row_start, row_count) {
        Err(message) => Err(message),
        Ok((start, end)) => plan::slice_plan(
            start as int,
            end as int,
            with_bound_weight(weight, row_count, tensor.info.shape@[1], input),
        ),
    }
}

pub open spec fn f32_matvec_plan(values: nat, rows: usize, columns: usize, input: usize) -> Result<
    PlanView,
    Seq<char>,
> {
    if rows * columns > usize::MAX {
        Err("F32 matvec dimensions overflow"@)
    } else if rows == 0 || columns == 0 || input != columns || values != rows * columns {
        Err("F32 matvec dimensions or byte length are invalid"@)
    } else {
        Ok(
            plan::single_output(
                Profile {
                    weights: plan::value_bytes(values as int),
                    state: 0,
                    scratch: plan::plus(
                        plan::value_bytes(input as int),
                        plan::value_bytes(rows as int),
                    ),
                    mapped: true,
                },
                "Metal could not bind the mapped F32 weight values"@,
                norm::launch_of(
                    plan::matrix_launch(
                        Kernel::F32Matvec,
                        columns as int,
                        rows as int,
                        "F32 matvec columns exceed Metal limits"@,
                        "F32 matvec rows exceed Metal limits"@,
                        rows as u64,
                        128,
                    ),
                ),
                rows,
                "F32 matvec command"@,
            ),
        )
    }
}

fn plan_f32_matvec(values: usize, rows: usize, columns: usize, input: usize) -> (result: Result<
    Plan,
    String,
>)
    ensures
        text::outcome_view(result) == f32_matvec_plan(values as nat, rows, columns, input),
{
    let expected: usize = match rows.checked_mul(columns) {
        Some(values) => values,
        None => {
            return Err("F32 matvec dimensions overflow".to_owned());
        },
    };
    if rows == 0 || columns == 0 || input != columns || values != expected {
        return Err("F32 matvec dimensions or byte length are invalid".to_owned());
    }
    let profile = Profile {
        weights: plan::bytes_of_values(values),
        state: 0,
        scratch: plan::sum(plan::bytes_of_values(input), plan::bytes_of_values(rows)),
        mapped: true,
    };
    let launch = plan::plan_matrix(
        Kernel::F32Matvec,
        columns,
        rows,
        "F32 matvec columns exceed Metal limits",
        "F32 matvec rows exceed Metal limits",
        rows as u64,
        128,
    );
    Ok(
        plan::plan_of(
            profile,
            "Metal could not bind the mapped F32 weight values",
            norm::command_of(launch),
            rows,
            "F32 matvec command",
        ),
    )
}

/// The plan of a product with the bytes of F32 values at an address.
pub open spec fn f32_matvec_bytes_plan(
    weight_len: nat,
    address: int,
    rows: usize,
    columns: usize,
    input: usize,
) -> Result<PlanView, Seq<char>> {
    if rows * columns > usize::MAX || rows * columns * 4 > usize::MAX {
        Err("F32 matvec byte length overflows"@)
    } else if weight_len != rows * columns * 4 {
        Err("F32 matvec byte length is invalid"@)
    } else if weight_len > 0 && address % 4 != 0 {
        Err("F32 matvec bytes are not 4-byte aligned"@)
    } else {
        f32_matvec_plan((rows * columns) as nat, rows, columns, input)
    }
}

fn plan_f32_matvec_bytes(
    weight_len: usize,
    aligned: bool,
    rows: usize,
    columns: usize,
    input: usize,
    Ghost(address): Ghost<int>,
) -> (result: Result<Plan, String>)
    requires
        aligned == (address % 4 == 0),
    ensures
        text::outcome_view(result) == f32_matvec_bytes_plan(
            weight_len as nat,
            address,
            rows,
            columns,
            input,
        ),
{
    proof {
        assert(rows * columns >= 0) by (nonlinear_arith);
    }
    let values: usize = match rows.checked_mul(columns) {
        Some(values) => values,
        None => {
            return Err("F32 matvec byte length overflows".to_owned());
        },
    };
    let expected: usize = match values.checked_mul(4) {
        Some(bytes) => bytes,
        None => {
            return Err("F32 matvec byte length overflows".to_owned());
        },
    };
    if weight_len != expected {
        return Err("F32 matvec byte length is invalid".to_owned());
    }
    if weight_len > 0 && !aligned {
        return Err("F32 matvec bytes are not 4-byte aligned".to_owned());
    }
    plan_f32_matvec(values, rows, columns, input)
}

/// The plan of a product with some rows of an F32 tensor whose bytes lie at an address.
pub open spec fn f32_rows_plan(
    tensor: GgufTensorView,
    address: int,
    row_start: usize,
    row_count: usize,
    input: usize,
) -> Result<SliceView, Seq<char>> {
    let columns = tensor.info.shape@[0];
    let rows = tensor.info.shape@[1];
    let row_bytes = columns * 4;
    let start = row_start * row_bytes;
    let len = row_count * row_bytes;
    if tensor.info.ggml_type != quant::GGML_TYPE_F32 || tensor.info.shape@.len() != 2 {
        Err("F32 matvec requires a rank-2 F32 tensor"@)
    } else if row_count == 0 || row_start >= rows || row_count > rows - row_start {
        Err("F32 row range is invalid"@)
    } else if input != columns {
        Err("F32 tensor columns or input length is invalid"@)
    } else if row_bytes > usize::MAX {
        Err("F32 row byte length overflows"@)
    } else if start > usize::MAX {
        Err("F32 row byte range overflows"@)
    } else if len > usize::MAX {
        Err("F32 row byte length overflows"@)
    } else if start + len > usize::MAX {
        Err("F32 row byte range overflows"@)
    } else if start + len > tensor.bytes@.len() {
        Err("F32 tensor payload is shorter than its shape"@)
    } else {
        plan::slice_plan(
            start,
            start + len,
            f32_matvec_bytes_plan(len as nat, address + start, row_count, columns, input),
        )
    }
}

pub open spec fn gguf_rows_plan(
    tensor: GgufTensorView,
    address: int,
    row_start: usize,
    row_count: usize,
    input: usize,
    switches: Switches,
) -> Result<SliceView, Seq<char>> {
    if tensor.info.ggml_type == quant::GGML_TYPE_F32 {
        f32_rows_plan(tensor, address, row_start, row_count, input)
    } else {
        quantized::gguf_quant_matvec_tensor_rows_plan(
            tensor,
            row_start,
            row_count,
            input,
            switches,
        )
    }
}

impl MetalContext {
    /// Plans the product of the bytes of a BF16 matrix with a vector, given the
    /// buffer that the device made of them and how many it could bind.
    pub fn bf16_matvec(
        &self,
        weight_bytes: &[u8],
        rows: usize,
        columns: usize,
        input: usize,
        buffer: u64,
        bound: u64,
    ) -> (result: Result<Plan, String>)
        ensures
            text::outcome_view(result) == bf16_matvec_plan(
                weight_bytes@.len(),
                rows,
                columns,
                input,
                weights::mapped_weight(weight_bytes@.len(), buffer, bound),
            ),
    {
        let expected: usize = match validate::checked_bf16_bytes(rows, columns) {
            Some(bytes) => bytes,
            None => {
                return Err("BF16 matrix dimensions overflow".to_owned());
            },
        };
        if rows == 0 || columns == 0 || input != columns || weight_bytes.len() != expected {
            return Err("BF16 matvec dimensions or byte length are invalid".to_owned());
        }
        let weight = weights::map_bf16_weight(weight_bytes, buffer, bound);
        plan_with_bound_weight(&weight, rows, columns, input)
    }

    /// Plans the product of a bound BF16 matrix with a vector.
    pub fn bf16_matvec_buffer(
        &self,
        weight: &Bf16Weight,
        rows: usize,
        columns: usize,
        input: usize,
    ) -> (result: Result<Plan, String>)
        ensures
            text::outcome_view(result) == bf16_matvec_buffer_plan(*weight, rows, columns, input),
    {
        plan_bf16_matvec_buffer(weight, rows, columns, input)
    }

    /// Plans the product of a bound BF16 matrix with a vector for a command
    /// that is waited for later.
    pub fn bf16_matvec_buffer_async(
        &self,
        weight: &Bf16Weight,
        rows: usize,
        columns: usize,
        input: usize,
    ) -> (result: Result<Plan, String>)
        ensures
            text::outcome_view(result) == bf16_matvec_buffer_plan(*weight, rows, columns, input),
    {
        plan_bf16_matvec_buffer(weight, rows, columns, input)
    }

    /// Plans the products of several tensors with one vector, given what came
    /// of binding each of them.
    pub fn bf16_matvec_many_tensors(
        &self,
        tensors: &[&TensorView<'_>],
        bound: &[Result<Bf16Weight, String>],
        input: usize,
    ) -> (result: Result<Plan, String>)
        requires
            bound@.len() == tensors@.len(),
        ensures
            text::outcome_view(result) == bf16_many_tensors_plan(tensors@, bound@, input),
    {
        plan_bf16_many_tensors(tensors, bound, input)
    }

    /// Plans the products of several tensors with one vector for a command
    /// that is waited for later.
    pub fn bf16_matvec_many_tensors_async(
        &self,
        tensors: &[&TensorView<'_>],
        bound: &[Result<Bf16Weight, String>],
        input: usize,
    ) -> (result: Result<Plan, String>)
        requires
            bound@.len() == tensors@.len(),
        ensures
            text::outcome_view(result) == bf16_many_tensors_plan(tensors@, bound@, input),
    {
        plan_bf16_many_tensors(tensors, bound, input)
    }

    /// Plans the products of several bound matrices with one vector.
    pub fn bf16_matvec_many_buffer(
        &self,
        matrices: &[(Bf16Weight, usize, usize)],
        input: usize,
    ) -> (result: Result<Plan, String>)
        ensures
            text::outcome_view(result) == bf16_many_plan(matrices@, input),
    {
        plan_bf16_many(matrices, input)
    }

    /// Plans the products of several bound matrices with one vector for a
    /// command that is waited for later.
    pub fn bf16_matvec_many_buffer_async(
        &self,
        matrices: &[(Bf16Weight, usize, usize)],
        input: usize,
    ) -> (result: Result<Plan, String>)
        ensures
            text::outcome_view(result) == bf16_many_plan(matrices@, input),
    {
        plan_bf16_many(matrices, input)
    }

    /// Plans the product of one bound matrix with one to eight vectors.
    pub fn bf16_matmul_many_buffer(
        &self,
        weight: &Bf16Weight,
        rows: usize,
        columns: usize,
        batch: usize,
        inputs: usize,
    ) -> (result: Result<Plan, String>)
        ensures
            text::outcome_view(result) == bf16_matmul_many_plan(
                *weight,
                rows,
                columns,
                batch,
                inputs,
                self@.pipelines.batched_matmul,
            ),
    {
        if weight.bytes > usize::MAX as u64 {
            return Err("BF16 weight length exceeds usize".to_owned());
        }
        match validate::validate_matmul_many_shape(
            rows,
            columns,
            batch,
            weight.bytes as usize,
            inputs,
        ) {
            Ok(()) => {},
            Err(message) => {
                return Err(message);
            },
        }
        let limit: u64 = match self.pipelines().batched_matmul {
            Some(limit) => limit,
            None => {
                return Err("batched matmul is disabled; set SI_VERIFY_MANY=1".to_owned());
            },
        };
        let elements: usize = match batch.checked_mul(rows) {
            Some(elements) => elements,
            None => {
                return Err("batched matmul output dimensions overflow".to_owned());
            },
        };
        if elements.checked_mul(4).is_none() {
            return Err("batched matmul output byte length overflows".to_owned());
        }
        let profile = Profile {
            weights: if weight.persistent && !weight.mapped { 0 } else { weight.bytes },
            state: 0,
            scratch: plan::sum(plan::bytes_of_values(inputs), plan::bytes_of_values(elements)),
            mapped: weight.mapped,
        };
        let launch: Result<Dispatch, String> = if limit < 32 {
            Err("batched matmul requires at least one 32-thread SIMD group".to_owned())
        } else if columns as u64 > 0xffff_ffff {
            Err("batched matmul columns exceed Metal limits".to_owned())
        } else if rows as u64 > 0xffff_ffff {
            Err("batched matmul rows exceed Metal limits".to_owned())
        } else {
            Ok(
                Dispatch {
                    kernel: Kernel::Bf16MatmulMany,
                    constants: Constants::Three(columns as u32, rows as u32, batch as u32),
                    grid: Grid::Groups(rows as u64),
                    threads: Threads::Exactly(32),
                },
            )
        };
        Ok(
            quantized::plan_batch(
                profile,
                norm::command_of(launch),
                rows,
                batch,
                elements,
                "batched matmul command",
            ),
        )
    }

    /// Plans the product of one tensor with one to eight vectors, given what
    /// came of binding it.
    pub fn bf16_matmul_many_tensor(
        &self,
        tensor: &TensorView<'_>,
        weight: &Result<Bf16Weight, String>,
        batch: usize,
        inputs: usize,
    ) -> (result: Result<Plan, String>)
        ensures
            text::outcome_view(result) == bf16_matmul_many_tensor_plan(
                *tensor,
                text::outcome(*weight),
                batch,
                inputs,
                self@.pipelines.batched_matmul,
            ),
    {
        if !tensor.info.has_bf16_matrix() {
            return Err("batched matmul requires a rank-2 BF16 tensor".to_owned());
        }
        match weight {
            Ok(weight) => self.bf16_matmul_many_buffer(
                weight,
                tensor.info.shape[0],
                tensor.info.shape[1],
                batch,
                inputs,
            ),
            Err(message) => Err(message.clone()),
        }
    }

    /// Plans the product of a bit-packed BF16 matrix with a vector. The
    /// offsets say where each tile of rows starts in the payload.
    pub fn bf16_bitpack_matvec(
        &self,
        packed: &[u8],
        offsets: &[u32],
        rows: usize,
        columns: usize,
        tile_rows: usize,
        input: usize,
    ) -> (result: Result<Plan, String>)
        ensures
            text::outcome_view(result) == bf16_bitpack_matvec_plan(
                packed@.len(),
                offsets@,
                rows,
                columns,
                tile_rows,
                input,
                self@.pipelines.bitpack,
            ),
    {
        if rows == 0 || columns == 0 || tile_rows == 0 || input != columns {
            return Err("BF16 bitpack matvec dimensions are invalid".to_owned());
        }
        if packed.len() < 4 {
            return Err("BF16 bitpack payload is too short".to_owned());
        }
        proof {
            lemma_tile_count(rows as int, tile_rows as int);
        }
        let whole: usize = rows / tile_rows;
        let tiles: usize = if rows % tile_rows == 0 { whole } else { whole + 1 };
        if offsets.len() == 0 || offsets.len() - 1 != tiles {
            return Err("BF16 bitpack offset count does not match matrix tiles".to_owned());
        }
        if packed.len() as u64 > 0xffff_ffff {
            return Err("BF16 bitpack payload exceeds 4 GiB offset range".to_owned());
        }
        if !check_offsets(offsets, packed.len()) {
            return Err("BF16 bitpack offsets are not monotonic or complete".to_owned());
        }
        if rows.checked_mul(4).is_none() {
            return Err("BF16 bitpack output dimensions overflow".to_owned());
        }
        let profile = Profile {
            weights: plan::sum(packed.len() as u64, plan::bytes_of_values(offsets.len())),
            state: 0,
            scratch: plan::sum(plan::bytes_of_values(input), plan::bytes_of_values(rows)),
            mapped: false,
        };
        let launch: Result<Dispatch, String> = if !self.pipelines().bitpack {
            Err("BF16 bitpack Metal probe is disabled; set SI_LOSSLESS_GPU=1".to_owned())
        } else if rows as u64 > 0xffff_ffff {
            Err("BF16 bitpack rows exceed Metal limits".to_owned())
        } else if columns as u64 > 0xffff_ffff {
            Err("BF16 bitpack columns exceed Metal limits".to_owned())
        } else if tile_rows as u64 > 0xffff_ffff {
            Err("BF16 bitpack tile rows exceed Metal limits".to_owned())
        } else {
            Ok(
                Dispatch {
                    kernel: Kernel::Bf16BitpackMatvec,
                    constants: Constants::Three(rows as u32, columns as u32, tile_rows as u32),
                    grid: Grid::Groups(rows as u64),
                    threads: Threads::AtMost(128),
                },
            )
        };
        Ok(
            plan::plan_of(
                profile,
                "Metal could not bind the mapped BF16 bitpack buffers",
                norm::command_of(launch),
                rows,
                "BF16 bitpack matvec command",
            ),
        )
    }

    /// Plans the product of a tensor with a vector, given what came of binding it.
    pub fn bf16_matvec_tensor(
        &self,
        tensor: &TensorView<'_>,
        weight: &Result<Bf16Weight, String>,
        input: usize,
    ) -> (result: Result<Plan, String>)
        ensures
            text::outcome_view(result) == bf16_matvec_tensor_plan(
                *tensor,
                text::outcome(*weight),
                input,
            ),
    {
        if !tensor.info.has_bf16_matrix() {
            return Err("matvec requires a rank-2 BF16 tensor".to_owned());
        }
        plan_with_bound_weight(weight, tensor.info.shape[0], tensor.info.shape[1], input)
    }

    /// Plans the product of a tensor with a vector in chunks of at most
    /// `max_rows` rows. Each chunk is bound and multiplied on its own, and the
    /// outputs follow each other.
    pub fn bf16_matvec_tensor_chunked(
        &self,
        tensor: &TensorView<'_>,
        input: usize,
        max_rows: usize,
    ) -> (result: Result<Vec<RowChunk>, String>)
        ensures
            text::outcome_view(result) == chunked_rows(*tensor, input, max_rows),
    {
        if !tensor.info.has_bf16_matrix() || max_rows == 0 {
            return Err(
                "chunked matvec requires a rank-2 BF16 tensor and non-zero row cap".to_owned(),
            );
        }
        let rows: usize = tensor.info.shape[0];
        let columns: usize = tensor.info.shape[1];
        let row_bytes: usize = match columns.checked_mul(2) {
            Some(bytes) => bytes,
            None => {
                return Err("chunked matvec row byte length overflow".to_owned());
            },
        };
        let expected: usize = match rows.checked_mul(row_bytes) {
            Some(bytes) => bytes,
            None => {
                return Err("chunked matvec dimensions overflow".to_owned());
            },
        };
        if tensor.bytes.len() != expected || input != columns {
            return Err("chunked matvec tensor bytes or input length is invalid".to_owned());
        }
        let ghost all = row_chunks(rows as int, row_bytes as int, max_rows as int);
        let ghost count = matrix::tile_count(rows as int, max_rows as int);
        let mut chunks: Vec<RowChunk> = Vec::new();
        let mut row_start: usize = 0;
        proof {
            lemma_tile_count(rows as int, max_rows as int);
            assert(0 * max_rows == 0) by (nonlinear_arith);
        }
        while row_start < rows
            invariant
                row_start <= rows,
                max_rows > 0,
                expected == rows * row_bytes,
                count == matrix::tile_count(rows as int, max_rows as int),
                all == row_chunks(rows as int, row_bytes as int, max_rows as int),
                chunks@.len() <= count,
                chunks@ =~= all.take(chunks@.len() as int),
                row_start < rows ==> row_start == chunks@.len() * max_rows,
                row_start < rows <==> chunks@.len() < count,
            decreases rows - row_start,
        {
            let ghost index = chunks@.len() as int;
            let rest: usize = rows - row_start;
            let row_count: usize = if max_rows < rest { max_rows } else { rest };
            proof {
                lemma_chunk_bounds(index, rows as int, row_bytes as int, max_rows as int);
                assert((index + 1) * max_rows == index * max_rows + max_rows) by (nonlinear_arith);
            }
            let byte_start: usize = row_start * row_bytes;
            let byte_end: usize = byte_start + row_count * row_bytes;
            chunks.push(RowChunk { row_start, row_count, byte_start, byte_end });
            proof {
                assert(all[index] == row_chunk(
                    index,
                    rows as int,
                    row_bytes as int,
                    max_rows as int,
                ));
            }
            row_start = row_start + row_count;
        }
        proof {
            assert(all.take(chunks@.len() as int) =~= all);
        }
        Ok(chunks)
    }

    /// Plans the product of a row range of a tensor with a vector, given what
    /// came of binding the bytes of the range.
    pub fn bf16_matvec_tensor_rows(
        &self,
        tensor: &TensorView<'_>,
        input: usize,
        row_start: usize,
        row_count: usize,
        weight: &Result<Bf16Weight, String>,
    ) -> (result: Result<SlicePlan, String>)
        ensures
            text::outcome_view(result) == bf16_matvec_tensor_rows_plan(
                *tensor,
                input,
                row_start,
                row_count,
                text::outcome(*weight),
            ),
    {
        match row_range_bytes(tensor, input, row_start, row_count) {
            Ok((start, end)) => plan::plan_slice(
                start,
                end,
                plan_with_bound_weight(weight, row_count, tensor.info.shape[1], input),
            ),
            Err(message) => Err(message),
        }
    }

    /// Plans the product of a resident tensor with a vector.
    pub fn bf16_matvec_tensor_buffer(
        &self,
        tensor: &TensorView<'_>,
        weight: &Bf16Weight,
        input: usize,
    ) -> (result: Result<Plan, String>)
        ensures
            text::outcome_view(result) == bf16_matvec_tensor_plan(*tensor, Ok(*weight), input),
    {
        if !tensor.info.has_bf16_matrix() {
            return Err("matvec requires a rank-2 BF16 tensor".to_owned());
        }
        plan_bf16_matvec_buffer(weight, tensor.info.shape[0], tensor.info.shape[1], input)
    }

    /// Plans the product of an F32 matrix with a vector.
    pub fn f32_matvec(
        &self,
        weight_values: usize,
        rows: usize,
        columns: usize,
        input: usize,
    ) -> (result: Result<Plan, String>)
        ensures
            text::outcome_view(result) == f32_matvec_plan(
                weight_values as nat,
                rows,
                columns,
                input,
            ),
    {
        plan_f32_matvec(weight_values, rows, columns, input)
    }

    /// Plans the product of the bytes of an F32 matrix, which lie at an
    /// address, with a vector.
    pub fn f32_matvec_bytes(
        &self,
        weight_bytes: &[u8],
        address: usize,
        rows: usize,
        columns: usize,
        input: usize,
    ) -> (result: Result<Plan, String>)
        ensures
            text::outcome_view(result) == f32_matvec_bytes_plan(
                weight_bytes@.len(),
                address as int,
                rows,
                columns,
                input,
            ),
    {
        plan_f32_matvec_bytes(
            weight_bytes.len(),
            address % 4 == 0,
            rows,
            columns,
            input,
            Ghost(address as int),
        )
    }

    /// Plans the product of some rows of an F32 tensor, whose bytes lie at an
    /// address, with a vector.
    pub fn f32_matvec_tensor_rows(
        &self,
        tensor: &GgufTensorView<'_>,
        address: usize,
        row_start: usize,
        row_count: usize,
        input: usize,
    ) -> (result: Result<SlicePlan, String>)
        ensures
            text::outcome_view(result) == f32_rows_plan(
                *tensor,
                address as int,
                row_start,
                row_count,
                input,
            ),
    {
        if tensor.info.ggml_type != quant::GGML_TYPE_F32 || tensor.info.shape.len() != 2 {
            return Err("F32 matvec requires a rank-2 F32 tensor".to_owned());
        }
        let columns: usize = tensor.info.shape[0];
        let rows: usize = tensor.info.shape[1];
        if row_count == 0 || row_start >= rows || row_count > rows - row_start {
            return Err("F32 row range is invalid".to_owned());
        }
        if input != columns {
            return Err("F32 tensor columns or input length is invalid".to_owned());
        }
        let row_bytes: usize = match columns.checked_mul(4) {
            Some(bytes) => bytes,
            None => {
                return Err("F32 row byte length overflows".to_owned());
            },
        };
        let start: usize = match row_start.checked_mul(row_bytes) {
            Some(start) => start,
            None => {
                return Err("F32 row byte range overflows".to_owned());
            },
        };
        let len: usize = match row_count.checked_mul(row_bytes) {
            Some(len) => len,
            None => {
                return Err("F32 row byte length overflows".to_owned());
            },
        };
        let end: usize = match start.checked_add(len) {
            Some(end) => end,
            None => {
                return Err("F32 row byte range overflows".to_owned());
            },
        };
        if end > tensor.bytes.len() {
            return Err("F32 tensor payload is shorter than its shape".to_owned());
        }
        plan::plan_slice(
            start,
            end,
            plan_f32_matvec_bytes(
                len,
                (address % 4 + start % 4) % 4 == 0,
                row_count,
                columns,
                input,
                Ghost(address + start),
            ),
        )
    }

    /// Plans the product of some rows of an F32 or quantized tensor with a vector.
    pub fn gguf_matvec_tensor_rows(
        &self,
        tensor: &GgufTensorView<'_>,
        address: usize,
        row_start: usize,
        row_count: usize,
        input: usize,
        switches: &Switches,
    ) -> (result: Result<SlicePlan, String>)
        ensures
            text::outcome_view(result) == gguf_rows_plan(
                *tensor,
                address as int,
                row_start,
                row_count,
                input,
                *switches,
            ),
    {
        if tensor.info.ggml_type == quant::GGML_TYPE_F32 {
            self.f32_matvec_tensor_rows(tensor, address, row_start, row_count, input)
        } else {
            self.gguf_quant_matvec_tensor_rows(tensor, row_start, row_count, input, switches)
        }
    }
}

/// The quotient rounded up.
pub proof fn lemma_tile_count(rows: int, tile_rows: int)
    requires
        rows >= 0,
        tile_rows > 0,
    ensures
        matrix::tile_count(rows, tile_rows) == if rows % tile_rows == 0 {
            rows / tile_rows
        } else {
            rows / tile_rows + 1
        },
        0 <= matrix::tile_count(rows, tile_rows) <= rows,
        matrix::tile_count(rows, tile_rows) == 0 <==> rows == 0,
{
    let quotient = rows / tile_rows;
    let rest = rows % tile_rows;
    lemma_fundamental_div_mod(rows, tile_rows);
    lemma_mod_bound(rows, tile_rows);
    lemma_div_pos_is_pos(rows, tile_rows);
    lemma_div_is_ordered_by_denominator(rows, 1, tile_rows);
    lemma_div_basics(rows);
    if rest == 0 {
        lemma_fundamental_div_mod_converse(
            rows + tile_rows - 1,
            tile_rows,
            quotient,
            tile_rows - 1,
        );
        assert(quotient * tile_rows == tile_rows * quotient) by (nonlinear_arith);
        if rows > 0 && quotient == 0 {
            assert(tile_rows * quotient == 0) by (nonlinear_arith)
                requires
                    quotient == 0,
            ;
        }
    } else {
        assert((quotient + 1) * tile_rows == tile_rows * quotient + tile_rows) by (nonlinear_arith);
        lemma_fundamental_div_mod_converse(
            rows + tile_rows - 1,
            tile_rows,
            quotient + 1,
            rest - 1,
        );
        assert(tile_rows >= 2);
        assert(tile_rows * quotient >= 2 * quotient) by (nonlinear_arith)
            requires
                tile_rows >= 2,
                quotient >= 0,
        ;
    }
}

} // verus!
