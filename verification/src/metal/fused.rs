//! Plans for projections that share one input and one launch.
use vstd::prelude::*;

use super::context;
use super::context::MetalContext;
use super::group;
use super::kernel;
use super::kernel::{Constants, Dispatch, Grid, Kernel, Switches, Threads};
use super::matvec;
use super::norm;
use super::plan;
use super::plan::{Plan, PlanView};
use super::stats;
use super::stats::Submission;
use super::validate;
use super::weights;
use super::weights::Bf16Weight;
use super::wiring;
use super::wiring::{Slot, Wiring};
use crate::tensor::TensorView;
use crate::text;

verus! {

/// Which projections are fused.
#[derive(Debug, Clone, Copy, PartialEq, Eq, Structural)]
pub enum FusedProjection {
    /// Queries, keys and values.
    Qkv,
    /// Both projections of a gated product.
    GateUp,
}

/// How many matrices a fused projection has.
pub open spec fn matrix_count(kind: FusedProjection) -> nat {
    match kind {
        FusedProjection::Qkv => 3,
        FusedProjection::GateUp => 2,
    }
}

fn count_matrices(kind: FusedProjection) -> (count: usize)
    ensures
        count == matrix_count(kind),
{
    match kind {
        FusedProjection::Qkv => 3,
        FusedProjection::GateUp => 2,
    }
}

/// The message for a wrong number of matrices.
pub open spec fn matrices_message(kind: FusedProjection) -> Seq<char> {
    match kind {
        FusedProjection::Qkv => "fused QKV requires exactly three matrices"@,
        FusedProjection::GateUp => "fused gate/up requires exactly two matrices"@,
    }
}

fn matrices_error(kind: FusedProjection) -> (message: String)
    ensures
        message@ == matrices_message(kind),
{
    match kind {
        FusedProjection::Qkv => "fused QKV requires exactly three matrices".to_owned(),
        FusedProjection::GateUp => "fused gate/up requires exactly two matrices".to_owned(),
    }
}

/// The message for a wrong number of tensors.
pub open spec fn tensors_message(kind: FusedProjection) -> Seq<char> {
    match kind {
        FusedProjection::Qkv => "fused QKV requires exactly three tensors"@,
        FusedProjection::GateUp => "fused gate/up requires exactly two tensors"@,
    }
}

fn tensors_error(kind: FusedProjection) -> (message: String)
    ensures
        message@ == tensors_message(kind),
{
    match kind {
        FusedProjection::Qkv => "fused QKV requires exactly three tensors".to_owned(),
        FusedProjection::GateUp => "fused gate/up requires exactly two tensors".to_owned(),
    }
}

/// The launch of a fused projection: one group of threads for each row of each matrix.
pub open spec fn fused_launch(kind: FusedProjection, columns: usize, rows: Seq<usize>) -> Result<
    Dispatch,
    Seq<char>,
> {
    match kind {
        FusedProjection::Qkv => if columns > u32::MAX {
            Err("fused QKV columns exceed Metal limits"@)
        } else if rows[0] > u32::MAX {
            Err("fused QKV query rows exceed Metal limits"@)
        } else if rows[1] > u32::MAX {
            Err("fused QKV key rows exceed Metal limits"@)
        } else if rows[2] > u32::MAX {
            Err("fused QKV value rows exceed Metal limits"@)
        } else {
            Ok(
                Dispatch {
                    kernel: Kernel::Bf16FusedQkv,
                    constants: Constants::Four(
                        columns as u32,
                        rows[0] as u32,
                        rows[1] as u32,
                        rows[2] as u32,
                    ),
                    grid: Grid::Groups((rows[0] + rows[1] + rows[2]) as u64),
                    threads: Threads::AtMost(128),
                },
            )
        },
        FusedProjection::GateUp => if columns > u32::MAX {
            Err("fused gate/up columns exceed Metal limits"@)
        } else if rows[0] > u32::MAX {
            Err("fused gate rows exceed Metal limits"@)
        } else if rows[1] > u32::MAX {
            Err("fused up rows exceed Metal limits"@)
        } else {
            Ok(
                Dispatch {
                    kernel: Kernel::Bf16FusedGateUp,
                    constants: Constants::Three(columns as u32, rows[0] as u32, rows[1] as u32),
                    grid: Grid::Groups((rows[0] + rows[1]) as u64),
                    threads: Threads::AtMost(128),
                },
            )
        },
    }
}

fn plan_fused_launch(kind: FusedProjection, columns: usize, rows: &Vec<usize>) -> (launch: Result<
    Dispatch,
    String,
>)
    requires
        rows@.len() == matrix_count(kind),
    ensures
        text::outcome(launch) == fused_launch(kind, columns, rows@),
{
    match kind {
        FusedProjection::Qkv => {
            if columns as u64 > 0xffff_ffff {
                return Err("fused QKV columns exceed Metal limits".to_owned());
            }
            if rows[0] as u64 > 0xffff_ffff {
                return Err("fused QKV query rows exceed Metal limits".to_owned());
            }
            if rows[1] as u64 > 0xffff_ffff {
                return Err("fused QKV key rows exceed Metal limits".to_owned());
            }
            if rows[2] as u64 > 0xffff_ffff {
                return Err("fused QKV value rows exceed Metal limits".to_owned());
            }
            Ok(
                Dispatch {
                    kernel: Kernel::Bf16FusedQkv,
                    constants: Constants::Four(
                        columns as u32,
                        rows[0] as u32,
                        rows[1] as u32,
                        rows[2] as u32,
                    ),
                    grid: Grid::Groups(rows[0] as u64 + rows[1] as u64 + rows[2] as u64),
                    threads: Threads::AtMost(128),
                },
            )
        },
        FusedProjection::GateUp => {
            if columns as u64 > 0xffff_ffff {
                return Err("fused gate/up columns exceed Metal limits".to_owned());
            }
            if rows[0] as u64 > 0xffff_ffff {
                return Err("fused gate rows exceed Metal limits".to_owned());
            }
            if rows[1] as u64 > 0xffff_ffff {
                return Err("fused up rows exceed Metal limits".to_owned());
            }
            Ok(
                Dispatch {
                    kernel: Kernel::Bf16FusedGateUp,
                    constants: Constants::Three(columns as u32, rows[0] as u32, rows[1] as u32),
                    grid: Grid::Groups(rows[0] as u64 + rows[1] as u64),
                    threads: Threads::AtMost(128),
                },
            )
        },
    }
}

/// The rows and columns of bound matrices.
pub open spec fn matrix_shapes(matrices: Seq<(Bf16Weight, usize, usize)>) -> Seq<(usize, usize)> {
    matrices.map_values(|matrix: (Bf16Weight, usize, usize)| (matrix.1, matrix.2))
}

/// The rows of bound matrices.
pub open spec fn matrix_rows(matrices: Seq<(Bf16Weight, usize, usize)>) -> Seq<usize> {
    matrices.map_values(|matrix: (Bf16Weight, usize, usize)| matrix.1)
}

fn shapes_of(matrices: &[(Bf16Weight, usize, usize)]) -> (shapes: Vec<(usize, usize)>)
    ensures
        shapes@ == matrix_shapes(matrices@),
{
    let mut shapes: Vec<(usize, usize)> = Vec::new();
    let mut index: usize = 0;
    while index < matrices.len()
        invariant
            index <= matrices@.len(),
            shapes@ =~= matrix_shapes(matrices@).take(index as int),
        decreases matrices@.len() - index,
    {
        let (_, rows, columns) = matrices[index];
        shapes.push((rows, columns));
        index += 1;
    }
    proof {
        assert(matrix_shapes(matrices@).take(index as int) =~= matrix_shapes(matrices@));
    }
    shapes
}

fn rows_of(matrices: &[(Bf16Weight, usize, usize)]) -> (rows: Vec<usize>)
    ensures
        rows@ == matrix_rows(matrices@),
{
    let mut rows: Vec<usize> = Vec::new();
    let mut index: usize = 0;
    while index < matrices.len()
        invariant
            index <= matrices@.len(),
            rows@ =~= matrix_rows(matrices@).take(index as int),
        decreases matrices@.len() - index,
    {
        rows.push(matrices[index].1);
        index += 1;
    }
    proof {
        assert(matrix_rows(matrices@).take(index as int) =~= matrix_rows(matrices@));
    }
    rows
}

/// The plan of a fused projection of one vector.
pub open spec fn fused_plan(
    kind: FusedProjection,
    matrices: Seq<(Bf16Weight, usize, usize)>,
    input: usize,
) -> Result<PlanView, Seq<char>> {
    if matrices.len() != matrix_count(kind) {
        Err(matrices_message(kind))
    } else {
        match validate::fused_shapes(matrix_shapes(matrices), input as int) {
            Err(message) => Err(message),
            Ok(()) => Ok(
                group::outputs_plan(
                    weights::weights_profile(
                        matvec::matrix_weights(matrices),
                        group::group_scratch(input, matrix_rows(matrices)),
                    ),
                    norm::launch_of(fused_launch(kind, matrices[0].2, matrix_rows(matrices))),
                    Wiring::Alone,
                    Submission::Pending,
                    matrix_rows(matrices),
                    "command"@,
                ),
            ),
        }
    }
}

fn plan_fused(kind: FusedProjection, matrices: &[(Bf16Weight, usize, usize)], input: usize) -> (result: Result<
    Plan,
    String,
>)
    ensures
        text::outcome_view(result) == fused_plan(kind, matrices@, input),
{
    if matrices.len() != count_matrices(kind) {
        return Err(matrices_error(kind));
    }
    let shapes = shapes_of(matrices);
    match validate::validate_fused_projection_shapes(shapes.as_slice(), input) {
        Ok(()) => {},
        Err(message) => {
            return Err(message);
        },
    }
    let rows = rows_of(matrices);
    let bound = matvec::weights_of(matrices);
    let scratch: u64 = group::scratch_of_group(input, &rows);
    let launch = plan_fused_launch(kind, matrices[0].2, &rows);
    Ok(
        group::plan_outputs(
            weights::profile_of_weights(&bound, scratch),
            norm::command_of(launch),
            Wiring::Alone,
            Submission::Pending,
            rows,
            "command",
        ),
    )
}

/// A fused projection puts out what separate products of its matrices put
/// out, with the same memory.
pub proof fn law_fused_matches_separate_products(
    kind: FusedProjection,
    matrices: Seq<(Bf16Weight, usize, usize)>,
    input: usize,
)
    requires
        matrices.len() == matrix_count(kind),
        matvec::bf16_many_plan(matrices, input) is Ok,
    ensures
        ({
            let fused = fused_plan(kind, matrices, input);
            let separate = matvec::bf16_many_plan(matrices, input)->Ok_0;
            &&& fused is Ok
            &&& fused->Ok_0.profile == separate.profile
            &&& fused->Ok_0.buffers == separate.buffers
            &&& fused->Ok_0.outputs == separate.outputs
        }),
{
    let rows = matvec::matrix_rows(matrices, input);
    text::lemma_collected_values(rows);
    let outcomes = matrix_shapes(matrices).map_values(
        |shape: (usize, usize)| validate::fused_shape(shape, input as int),
    );
    assert forall|i: int| 0 <= i < outcomes.len() implies (#[trigger] outcomes[i]) is Ok by {
        assert(rows[i] == matvec::bf16_matrix(matrices[i], input));
    }
    text::lemma_all_collected(outcomes);
    assert(text::collected(rows)->Ok_0 =~= matrix_rows(matrices)) by {
        assert forall|i: int| 0 <= i < matrices.len() implies text::collected(rows)->Ok_0[i]
            == matrix_rows(matrices)[i] by {
            assert(rows[i] == matvec::bf16_matrix(matrices[i], input));
        }
    }
}

/// The plan of a fused projection of tensors, given what came of binding them.
pub open spec fn fused_tensors_plan(
    kind: FusedProjection,
    tensors: Seq<&TensorView>,
    bound: Seq<Result<Bf16Weight, String>>,
    input: usize,
) -> Result<PlanView, Seq<char>> {
    if tensors.len() != matrix_count(kind) {
        Err(tensors_message(kind))
    } else {
        match validate::tensor_batch(tensors, input as int) {
            Err(message) => Err(message),
            Ok(shapes) => match matvec::bound_matrices(bound, shapes) {
                Err(message) => Err(message),
                Ok(matrices) => fused_plan(kind, matrices, input),
            },
        }
    }
}

fn plan_fused_tensors(
    kind: FusedProjection,
    tensors: &[&TensorView<'_>],
    bound: &[Result<Bf16Weight, String>],
    input: usize,
) -> (result: Result<Plan, String>)
    requires
        bound@.len() == tensors@.len(),
    ensures
        text::outcome_view(result) == fused_tensors_plan(kind, tensors@, bound@, input),
{
    if tensors.len() != count_matrices(kind) {
        return Err(tensors_error(kind));
    }
    let shapes = match validate::validate_matvec_tensor_batch(tensors, input) {
        Ok(shapes) => shapes,
        Err(message) => {
            return Err(message);
        },
    };
    proof {
        validate::lemma_batch_length(tensors@, input as int);
    }
    match matvec::bind_matrices(bound, shapes.as_slice()) {
        Ok(matrices) => plan_fused(kind, matrices.as_slice(), input),
        Err(message) => Err(message),
    }
}

/// Byte matrices by their lengths, rows and columns.
pub open spec fn byte_matrices(matrices: Seq<(&[u8], usize, usize)>) -> Seq<(nat, usize, usize)> {
    matrices.map_values(|matrix: (&[u8], usize, usize)| (matrix.0@.len(), matrix.1, matrix.2))
}

/// Owned byte matrices by their lengths, rows and columns.
pub open spec fn owned_matrices(matrices: Seq<(Vec<u8>, usize, usize)>) -> Seq<
    (nat, usize, usize),
> {
    matrices.map_values(|matrix: (Vec<u8>, usize, usize)| (matrix.0@.len(), matrix.1, matrix.2))
}

/// The weights that byte matrices give, given for each the buffer that the
/// device made of it and how many bytes it could bind.
pub open spec fn mapped_weights(
    matrices: Seq<(nat, usize, usize)>,
    bound: Seq<(u64, u64)>,
) -> Seq<Result<Bf16Weight, Seq<char>>> {
    Seq::new(
        matrices.len(),
        |i: int| weights::mapped_weight(matrices[i].0, bound[i].0, bound[i].1),
    )
}

/// Byte matrices as bound ones, or the message of the first that could not be bound.
pub open spec fn mapped_matrices(
    matrices: Seq<(nat, usize, usize)>,
    bound: Seq<(u64, u64)>,
) -> Result<Seq<(Bf16Weight, usize, usize)>, Seq<char>> {
    match text::collected(mapped_weights(matrices, bound)) {
        Err(message) => Err(message),
        Ok(weights) => Ok(
            Seq::new(weights.len(), |i: int| (weights[i], matrices[i].1, matrices[i].2)),
        ),
    }
}

/// The plan of a fused projection of byte matrices.
pub open spec fn fused_bytes_plan(
    kind: FusedProjection,
    matrices: Seq<(nat, usize, usize)>,
    bound: Seq<(u64, u64)>,
    input: usize,
) -> Result<PlanView, Seq<char>> {
    if matrices.len() != matrix_count(kind) {
        Err(matrices_message(kind))
    } else {
        match mapped_matrices(matrices, bound) {
            Err(message) => Err(message),
            Ok(mapped) => fused_plan(kind, mapped, input),
        }
    }
}

fn map_matrices(matrices: &[(&[u8], usize, usize)], bound: &[(u64, u64)]) -> (result: Result<
    Vec<(Bf16Weight, usize, usize)>,
    String,
>)
    requires
        bound@.len() == matrices@.len(),
    ensures
        text::outcome_view(result) == mapped_matrices(byte_matrices(matrices@), bound@),
{
    let ghost outcomes = mapped_weights(byte_matrices(matrices@), bound@);
    let ghost mut weights: Seq<Bf16Weight> = Seq::empty();
    let mut mapped: Vec<(Bf16Weight, usize, usize)> = Vec::new();
    let mut index: usize = 0;
    proof {
        assert(outcomes.take(0) =~= Seq::empty());
    }
    while index < matrices.len()
        invariant
            index <= matrices@.len(),
            bound@.len() == matrices@.len(),
            outcomes == mapped_weights(byte_matrices(matrices@), bound@),
            text::collected(outcomes.take(index as int)) == Ok::<Seq<Bf16Weight>, Seq<char>>(
                weights,
            ),
            weights.len() == index,
            mapped@ =~= Seq::new(
                weights.len(),
                |i: int| (weights[i], matrices@[i].1, matrices@[i].2),
            ),
        decreases matrices@.len() - index,
    {
        proof {
            text::lemma_collected_step(outcomes, index as int);
        }
        let (bytes, rows, columns) = matrices[index];
        let (buffer, length) = bound[index];
        match weights::map_bf16_weight(bytes, buffer, length) {
            Ok(weight) => {
                mapped.push((weight, rows, columns));
                proof {
                    weights = weights.push(weight);
                }
            },
            Err(message) => {
                return Err(message);
            },
        }
        index += 1;
    }
    proof {
        assert(outcomes.take(index as int) =~= outcomes);
        let all = byte_matrices(matrices@);
        assert(mapped@ =~= Seq::new(weights.len(), |i: int| (weights[i], all[i].1, all[i].2)));
    }
    Ok(mapped)
}

fn plan_fused_bytes(
    kind: FusedProjection,
    matrices: &[(&[u8], usize, usize)],
    bound: &[(u64, u64)],
    input: usize,
) -> (result: Result<Plan, String>)
    requires
        bound@.len() == matrices@.len(),
    ensures
        text::outcome_view(result) == fused_bytes_plan(kind, byte_matrices(matrices@), bound@, input),
{
    if matrices.len() != count_matrices(kind) {
        return Err(matrices_error(kind));
    }
    match map_matrices(matrices, bound) {
        Ok(mapped) => plan_fused(kind, mapped.as_slice(), input),
        Err(message) => Err(message),
    }
}

/// A plan together with the bytes that must stay alive until its command has
/// been waited for.
#[derive(Debug)]
pub struct OwnedPlan {
    pub plan: Plan,
    pub keepalive: Vec<Vec<u8>>,
}

/// The bytes of owned matrices.
pub open spec fn owned_bytes(matrices: Seq<(Vec<u8>, usize, usize)>) -> Seq<Seq<u8>> {
    matrices.map_values(|matrix: (Vec<u8>, usize, usize)| matrix.0@)
}

/// The plan of a fused projection of owned byte matrices, which keeps their bytes.
pub open spec fn is_owned_plan(
    kind: FusedProjection,
    matrices: Seq<(Vec<u8>, usize, usize)>,
    bound: Seq<(u64, u64)>,
    input: usize,
    result: Result<OwnedPlan, String>,
) -> bool {
    match fused_bytes_plan(kind, owned_matrices(matrices), bound, input) {
        Err(message) => result is Err && result->Err_0@ == message,
        Ok(planned) => {
            &&& result is Ok
            &&& result->Ok_0.plan@ == planned
            &&& stats::kept_bytes(result->Ok_0.keepalive@) == owned_bytes(matrices)
        },
    }
}

/// The bytes of owned matrices in their order.
fn take_bytes(matrices: Vec<(Vec<u8>, usize, usize)>) -> (bytes: Vec<Vec<u8>>)
    ensures
        stats::kept_bytes(bytes@) == owned_bytes(matrices@),
{
    let ghost all = owned_bytes(matrices@);
    let mut matrices = matrices;
    let mut bytes: Vec<Vec<u8>> = Vec::new();
    while matrices.len() > 0
        invariant
            owned_bytes(matrices@) + stats::kept_bytes(bytes@) =~= all,
        decreases matrices@.len(),
    {
        let ghost before = matrices@;
        let ghost kept = bytes@;
        match matrices.pop() {
            Some((last, _, _)) => {
                bytes.insert(0, last);
                proof {
                    assert(owned_bytes(before) =~= owned_bytes(matrices@).push(last@));
                    assert(stats::kept_bytes(bytes@) =~= seq![last@] + stats::kept_bytes(kept));
                }
            },
            None => {},
        }
    }
    proof {
        assert(stats::kept_bytes(bytes@) =~= all);
    }
    bytes
}

fn plan_fused_owned(
    kind: FusedProjection,
    matrices: Vec<(Vec<u8>, usize, usize)>,
    bound: &[(u64, u64)],
    input: usize,
) -> (result: Result<OwnedPlan, String>)
    requires
        bound@.len() == matrices@.len(),
    ensures
        is_owned_plan(kind, matrices@, bound@, input, result),
{
    let mut borrowed: Vec<(&[u8], usize, usize)> = Vec::new();
    let mut index: usize = 0;
    while index < matrices.len()
        invariant
            index <= matrices@.len(),
            byte_matrices(borrowed@) =~= owned_matrices(matrices@).take(index as int),
        decreases matrices@.len() - index,
    {
        let ghost before = borrowed@;
        let matrix = &matrices[index];
        borrowed.push((matrix.0.as_slice(), matrix.1, matrix.2));
        proof {
            assert(byte_matrices(borrowed@) =~= byte_matrices(before).push(
                (matrices@[index as int].0@.len(), matrices@[index as int].1, matrices@[index as int].2),
            ));
        }
        index += 1;
    }
    proof {
        assert(owned_matrices(matrices@).take(index as int) =~= owned_matrices(matrices@));
    }
    match plan_fused_bytes(kind, borrowed.as_slice(), bound, input) {
        Ok(plan) => Ok(OwnedPlan { plan, keepalive: take_bytes(matrices) }),
        Err(message) => Err(message),
    }
}

/// Whether a weight has the bytes of its matrix.
pub open spec fn many_weight(matrix: (Bf16Weight, usize, usize)) -> Result<(), Seq<char>> {
    let (weight, rows, columns) = matrix;
    if rows * columns > usize::MAX || rows * columns * 2 > usize::MAX {
        Err("batched fused projection weight dimensions overflow"@)
    } else if weight.bytes != rows * columns * 2 {
        Err("batched fused projection weight byte length is invalid"@)
    } else {
        Ok(())
    }
}

pub open spec fn many_weights(matrices: Seq<(Bf16Weight, usize, usize)>) -> Seq<
    Result<(), Seq<char>>,
> {
    matrices.map_values(|matrix: (Bf16Weight, usize, usize)| many_weight(matrix))
}

/// The number of values that one projection puts out for all candidates.
pub open spec fn many_output(rows: usize, batch: usize) -> Result<usize, Seq<char>> {
    if batch * rows > usize::MAX {
        Err("batched fused projection output dimensions overflow"@)
    } else if batch * rows * 4 > usize::MAX {
        Err("batched fused projection output byte length overflows"@)
    } else {
        Ok((batch * rows) as usize)
    }
}

pub open spec fn many_outputs(rows: Seq<usize>, batch: usize) -> Seq<Result<usize, Seq<char>>> {
    rows.map_values(|count: usize| many_output(count, batch))
}

/// The outputs of all candidates, projection by projection.
pub open spec fn candidate_outputs(rows: Seq<usize>, batch: usize) -> Seq<usize>
    decreases rows.len(),
{
    if rows.len() == 0 {
        Seq::empty()
    } else {
        candidate_outputs(rows.drop_last(), batch) + Seq::new(
            batch as nat,
            |candidate: int| rows.last(),
        )
    }
}

/// The sum of the rows of all projections.
pub open spec fn total_rows(rows: Seq<usize>) -> int
    decreases rows.len(),
{
    if rows.len() == 0 {
        0
    } else {
        total_rows(rows.drop_last()) + rows.last()
    }
}

/// The launch of a batched fused projection: a group of 32 threads for each
/// row of each matrix.
pub open spec fn fused_many_launch(
    kind: FusedProjection,
    columns: int,
    rows: Seq<usize>,
    batch: usize,
) -> Result<Dispatch, Seq<char>> {
    if columns > u32::MAX {
        Err("batched fused projection columns exceed Metal limits"@)
    } else if exists|i: int| 0 <= i < rows.len() && (#[trigger] rows[i]) > u32::MAX {
        Err("batched fused projection rows exceed Metal limits"@)
    } else {
        Ok(
            Dispatch {
                kernel: match kind {
                    FusedProjection::Qkv => Kernel::Bf16FusedQkvMany,
                    FusedProjection::GateUp => Kernel::Bf16FusedGateUpMany,
                },
                constants: match kind {
                    FusedProjection::Qkv => Constants::Five(
                        columns as u32,
                        rows[0] as u32,
                        rows[1] as u32,
                        rows[2] as u32,
                        batch as u32,
                    ),
                    FusedProjection::GateUp => Constants::Four(
                        columns as u32,
                        rows[0] as u32,
                        rows[1] as u32,
                        batch as u32,
                    ),
                },
                grid: Grid::Groups(total_rows(rows) as u64),
                threads: Threads::Exactly(32),
            },
        )
    }
}

fn plan_fused_many_launch(
    kind: FusedProjection,
    columns: usize,
    rows: &Vec<usize>,
    batch: usize,
) -> (launch: Result<Dispatch, String>)
    requires
        rows@.len() == matrix_count(kind),
        batch <= 8,
    ensures
        text::outcome(launch) == fused_many_launch(kind, columns as int, rows@, batch),
{
    if columns as u64 > 0xffff_ffff {
        return Err("batched fused projection columns exceed Metal limits".to_owned());
    }
    proof {
        reveal_with_fuel(total_rows, 4);
        assert(rows@.drop_last().drop_last() =~= rows@.take(rows@.len() - 2));
    }
    match kind {
        FusedProjection::Qkv => {
            let (first, second, third) = (rows[0], rows[1], rows[2]);
            if first as u64 > 0xffff_ffff || second as u64 > 0xffff_ffff || third as u64
                > 0xffff_ffff {
                return Err("batched fused projection rows exceed Metal limits".to_owned());
            }
            Ok(
                Dispatch {
                    kernel: Kernel::Bf16FusedQkvMany,
                    constants: Constants::Five(
                        columns as u32,
                        first as u32,
                        second as u32,
                        third as u32,
                        batch as u32,
                    ),
                    grid: Grid::Groups(first as u64 + second as u64 + third as u64),
                    threads: Threads::Exactly(32),
                },
            )
        },
        FusedProjection::GateUp => {
            let (first, second) = (rows[0], rows[1]);
            if first as u64 > 0xffff_ffff || second as u64 > 0xffff_ffff {
                return Err("batched fused projection rows exceed Metal limits".to_owned());
            }
            Ok(
                Dispatch {
                    kernel: Kernel::Bf16FusedGateUpMany,
                    constants: Constants::Four(
                        columns as u32,
                        first as u32,
                        second as u32,
                        batch as u32,
                    ),
                    grid: Grid::Groups(first as u64 + second as u64),
                    threads: Threads::Exactly(32),
                },
            )
        },
    }
}

/// The number of values that each candidate of a batch has.
pub open spec fn candidate_columns(inputs: int, batch: int) -> int {
    if batch >= 1 {
        inputs / batch
    } else {
        inputs
    }
}

/// What is wrong with a batched fused projection before its kernel is looked at.
pub open spec fn fused_many_check(
    kind: FusedProjection,
    matrices: Seq<(Bf16Weight, usize, usize)>,
    batch: usize,
    inputs: usize,
) -> Result<(), Seq<char>> {
    if matrices.len() != matrix_count(kind) {
        Err(
            "batched fused projection requires exactly "@ + text::decimal(matrix_count(kind))
                + " matrices"@,
        )
    } else if inputs == 0 || (batch >= 1 && inputs % batch != 0) {
        Err("batched fused projection input length is invalid"@)
    } else {
        match validate::fused_many_shapes(
            matrix_shapes(matrices),
            batch as int,
            candidate_columns(inputs as int, batch as int),
        ) {
            Err(message) => Err(message),
            Ok(()) => match text::collected(many_weights(matrices)) {
                Err(message) => Err(message),
                Ok(_) => Ok(()),
            },
        }
    }
}

/// The plan of a fused projection of one to eight vectors. `limit` is the
/// threads that the kernel allows in a group, if it is loaded.
pub open spec fn fused_many_plan(
    kind: FusedProjection,
    matrices: Seq<(Bf16Weight, usize, usize)>,
    batch: usize,
    inputs: usize,
    limit: Option<u64>,
) -> Result<PlanView, Seq<char>> {
    match fused_many_check(kind, matrices, batch, inputs) {
        Err(message) => Err(message),
        Ok(()) => match limit {
            None => Err("batched fused projection is disabled; set SI_VERIFY_MANY=1"@),
            Some(limit) => if limit < 32 {
                Err("batched fused projection requires one 32-thread SIMD group"@)
            } else {
                match text::collected(many_outputs(matrix_rows(matrices), batch)) {
                    Err(message) => Err(message),
                    Ok(elements) => Ok(
                        PlanView {
                            profile: weights::weights_profile(
                                matvec::matrix_weights(matrices),
                                group::group_scratch(inputs, elements),
                            ),
                            unbound: ""@,
                            command: norm::launch_of(
                                fused_many_launch(
                                    kind,
                                    candidate_columns(inputs as int, batch as int),
                                    matrix_rows(matrices),
                                    batch,
                                ),
                            ),
                            wiring: Wiring::Batch(batch),
                            submission: Submission::AtOnce,
                            buffers: group::row_bytes(elements),
                            outputs: candidate_outputs(matrix_rows(matrices), batch),
                            operation: "batched fused projection command"@,
                        },
                    ),
                }
            },
        },
    }
}

fn check_many_weights(matrices: &[(Bf16Weight, usize, usize)]) -> (result: Result<(), String>)
    ensures
        text::outcome(result) == match text::collected(many_weights(matrices@)) {
            Err(message) => Err(message),
            Ok(_) => Ok(()),
        },
{
    let ghost outcomes = many_weights(matrices@);
    let mut index: usize = 0;
    proof {
        assert(outcomes.take(0) =~= Seq::empty());
    }
    while index < matrices.len()
        invariant
            index <= matrices@.len(),
            outcomes == many_weights(matrices@),
            text::collected(outcomes.take(index as int)) is Ok,
        decreases matrices@.len() - index,
    {
        proof {
            text::lemma_collected_step(outcomes, index as int);
        }
        let (weight, rows, columns) = matrices[index];
        match validate::checked_bf16_bytes(rows, columns) {
            None => {
                return Err("batched fused projection weight dimensions overflow".to_owned());
            },
            Some(expected) => {
                if weight.bytes != expected as u64 {
                    return Err(
                        "batched fused projection weight byte length is invalid".to_owned(),
                    );
                }
            },
        }
        index += 1;
    }
    proof {
        assert(outcomes.take(index as int) =~= outcomes);
    }
    Ok(())
}

fn check_many_outputs(rows: &Vec<usize>, batch: usize) -> (result: Result<Vec<usize>, String>)
    ensures
        text::outcome_view(result) == text::collected(many_outputs(rows@, batch)),
{
    let ghost outcomes = many_outputs(rows@, batch);
    let mut elements: Vec<usize> = Vec::new();
    let mut index: usize = 0;
    proof {
        assert(outcomes.take(0) =~= Seq::empty());
    }
    while index < rows.len()
        invariant
            index <= rows@.len(),
            outcomes == many_outputs(rows@, batch),
            text::collected(outcomes.take(index as int)) == Ok::<Seq<usize>, Seq<char>>(elements@),
        decreases rows@.len() - index,
    {
        proof {
            text::lemma_collected_step(outcomes, index as int);
        }
        match batch.checked_mul(rows[index]) {
            None => {
                return Err("batched fused projection output dimensions overflow".to_owned());
            },
            Some(count) => {
                if count.checked_mul(4).is_none() {
                    return Err("batched fused projection output byte length overflows".to_owned());
                }
                elements.push(count);
            },
        }
        index += 1;
    }
    proof {
        assert(outcomes.take(index as int) =~= outcomes);
    }
    Ok(elements)
}

fn outputs_of_candidates(rows: &Vec<usize>, batch: usize) -> (outputs: Vec<usize>)
    ensures
        outputs@ == candidate_outputs(rows@, batch),
{
    let mut outputs: Vec<usize> = Vec::new();
    let mut index: usize = 0;
    proof {
        assert(rows@.take(0) =~= Seq::empty());
    }
    while index < rows.len()
        invariant
            index <= rows@.len(),
            outputs@ == candidate_outputs(rows@.take(index as int), batch),
        decreases rows@.len() - index,
    {
        let count: usize = rows[index];
        let ghost before = outputs@;
        let mut candidate: usize = 0;
        while candidate < batch
            invariant
                candidate <= batch,
                outputs@ =~= before + Seq::new(candidate as nat, |candidate: int| count),
            decreases batch - candidate,
        {
            outputs.push(count);
            candidate += 1;
        }
        proof {
            let through = rows@.take(index + 1);
            assert(through.drop_last() =~= rows@.take(index as int));
            assert(through.last() == count);
            assert(outputs@ =~= candidate_outputs(through.drop_last(), batch) + Seq::new(
                batch as nat,
                |candidate: int| through.last(),
            ));
        }
        index += 1;
    }
    proof {
        assert(rows@.take(index as int) =~= rows@);
    }
    outputs
}

fn check_fused_many(
    kind: FusedProjection,
    matrices: &[(Bf16Weight, usize, usize)],
    batch: usize,
    inputs: usize,
) -> (result: Result<(), String>)
    ensures
        text::outcome(result) == fused_many_check(kind, matrices@, batch, inputs),
{
    let expected: usize = count_matrices(kind);
    if matrices.len() != expected {
        return Err(
            text::concat3(
                "batched fused projection requires exactly ",
                text::decimal_text(expected as u64).as_str(),
                " matrices",
            ),
        );
    }
    if inputs == 0 || (batch >= 1 && inputs % batch != 0) {
        return Err("batched fused projection input length is invalid".to_owned());
    }
    let columns: usize = if batch >= 1 { inputs / batch } else { inputs };
    let shapes = shapes_of(matrices);
    match validate::validate_fused_projection_many_shapes(shapes.as_slice(), batch, columns) {
        Ok(()) => {},
        Err(message) => {
            return Err(message);
        },
    }
    check_many_weights(matrices)
}

fn plan_fused_many(
    kind: FusedProjection,
    matrices: &[(Bf16Weight, usize, usize)],
    batch: usize,
    inputs: usize,
    limit: Option<u64>,
) -> (result: Result<Plan, String>)
    ensures
        text::outcome_view(result) == fused_many_plan(kind, matrices@, batch, inputs, limit),
{
    match check_fused_many(kind, matrices, batch, inputs) {
        Ok(()) => {},
        Err(message) => {
            return Err(message);
        },
    }
    let allowed: u64 = match limit {
        Some(allowed) => allowed,
        None => {
            return Err("batched fused projection is disabled; set SI_VERIFY_MANY=1".to_owned());
        },
    };
    if allowed < 32 {
        return Err("batched fused projection requires one 32-thread SIMD group".to_owned());
    }
    let columns: usize = if batch >= 1 { inputs / batch } else { inputs };
    let rows = rows_of(matrices);
    let elements = match check_many_outputs(&rows, batch) {
        Ok(elements) => elements,
        Err(message) => {
            return Err(message);
        },
    };
    let bound = matvec::weights_of(matrices);
    let scratch: u64 = group::scratch_of_group(inputs, &elements);
    let launch = plan_fused_many_launch(kind, columns, &rows, batch);
    Ok(
        Plan {
            profile: weights::profile_of_weights(&bound, scratch),
            unbound: "".to_owned(),
            command: norm::command_of(launch),
            wiring: Wiring::Batch(batch),
            submission: Submission::AtOnce,
            buffers: group::bytes_of_rows(&elements),
            outputs: outputs_of_candidates(&rows, batch),
            operation: "batched fused projection command".to_owned(),
        },
    )
}

/// The product of one matrix of a fused projection with the same batch.
pub open spec fn batched_product(
    matrix: (Bf16Weight, usize, usize),
    batch: usize,
    inputs: usize,
    limit: u64,
) -> Result<PlanView, Seq<char>> {
    matvec::bf16_matmul_many_plan(matrix.0, matrix.1, matrix.2, batch, inputs, Some(limit))
}

/// The outputs of all candidates stand projection by projection.
proof fn lemma_candidate_outputs(rows: Seq<usize>, batch: usize, index: int, candidate: int)
    requires
        0 <= index < rows.len(),
        0 <= candidate < batch,
    ensures
        candidate_outputs(rows, batch).len() == rows.len() * batch,
        0 <= index * batch + candidate < rows.len() * batch,
        candidate_outputs(rows, batch)[index * batch + candidate] == rows[index],
    decreases rows.len(),
{
    let before = rows.drop_last();
    lemma_candidate_count(rows, batch);
    lemma_candidate_count(before, batch);
    assert(index * batch + batch <= rows.len() * batch) by (nonlinear_arith)
        requires
            index + 1 <= rows.len(),
            0 <= batch,
    ;
    assert(0 <= index * batch) by (nonlinear_arith)
        requires
            0 <= index,
            0 <= batch,
    ;
    if index < before.len() {
        lemma_candidate_outputs(before, batch, index, candidate);
        assert(before[index] == rows[index]);
    }
}

/// Each projection has an output for each candidate.
pub proof fn lemma_candidate_count(rows: Seq<usize>, batch: usize)
    ensures
        candidate_outputs(rows, batch).len() == rows.len() * batch,
    decreases rows.len(),
{
    if rows.len() > 0 {
        lemma_candidate_count(rows.drop_last(), batch);
        assert((rows.len() - 1) * batch + batch == rows.len() * batch) by (nonlinear_arith);
    } else {
        assert(rows.len() * batch == 0) by (nonlinear_arith)
            requires
                rows.len() == 0,
        ;
    }
}

/// One matrix passes the checks of a batched fused projection exactly where
/// its own batched product is accepted.
proof fn lemma_batched_matrix(
    matrix: (Bf16Weight, usize, usize),
    batch: usize,
    inputs: usize,
    limit: u64,
)
    requires
        1 <= batch <= 8,
    ensures
        batched_product(matrix, batch, inputs, limit) is Ok <==> inputs != 0 && inputs % batch == 0
            && validate::fused_shape((matrix.1, matrix.2), (inputs / batch) as int) is Ok
            && many_weight(matrix) is Ok && many_output(matrix.1, batch) is Ok,
{
    let columns = matrix.2 as int;
    assert(inputs == batch * columns <==> inputs % batch == 0 && columns == inputs / batch)
        by (nonlinear_arith)
        requires
            batch >= 1,
            0 <= columns,
            0 <= inputs,
    ;
    if columns > 0 {
        assert(batch * columns > 0) by (nonlinear_arith)
            requires
                batch >= 1,
                columns > 0,
        ;
    }
}

/// Whether a fused projection has the output of a product for a candidate, in
/// the same place of its buffer.
pub open spec fn holds_output(
    fused: PlanView,
    product: PlanView,
    index: int,
    rows: int,
    batch: int,
    candidate: int,
) -> bool {
    &&& fused.outputs[index * batch + candidate] == product.outputs[candidate]
    &&& wiring::output_place(fused.wiring, index * batch + candidate, rows) == (
        Slot::Buffer(index as usize),
        candidate * rows,
    )
    &&& wiring::output_place(product.wiring, candidate, rows) == (
        Slot::Buffer(0),
        candidate * rows,
    )
}

/// Whether a fused projection has the buffer of a product with one of its
/// matrices, and for every candidate the output of the product in the same
/// place of that buffer.
pub open spec fn holds_product(
    fused: PlanView,
    product: PlanView,
    index: int,
    rows: int,
    batch: int,
) -> bool {
    &&& product.buffers == seq![fused.buffers[index]]
    &&& product.outputs.len() == batch
    &&& forall|candidate: int|
        0 <= candidate < batch ==> #[trigger] holds_output(
            fused,
            product,
            index,
            rows,
            batch,
            candidate,
        )
}

/// What a batched fused projection puts out for one of its matrices is what
/// the batched product of the matrix puts out.
proof fn lemma_holds_product(
    kind: FusedProjection,
    matrices: Seq<(Bf16Weight, usize, usize)>,
    batch: usize,
    inputs: usize,
    fused_limit: u64,
    limit: u64,
    index: int,
)
    requires
        0 <= index < matrices.len(),
        fused_many_plan(kind, matrices, batch, inputs, Some(fused_limit)) is Ok,
        batched_product(matrices[index], batch, inputs, limit) is Ok,
    ensures
        holds_product(
            fused_many_plan(kind, matrices, batch, inputs, Some(fused_limit))->Ok_0,
            batched_product(matrices[index], batch, inputs, limit)->Ok_0,
            index,
            matrices[index].1 as int,
            batch as int,
        ),
{
    let fused = fused_many_plan(kind, matrices, batch, inputs, Some(fused_limit))->Ok_0;
    let product = batched_product(matrices[index], batch, inputs, limit)->Ok_0;
    let rows = matrix_rows(matrices);
    let values = matrices[index].1 as int;
    let count = batch as int;
    let outputs = many_outputs(rows, batch);
    text::lemma_collected_values(outputs);
    assert(outputs[index] == many_output(matrices[index].1, batch));
    assert(product.buffers =~= seq![fused.buffers[index]]);
    assert forall|candidate: int| 0 <= candidate < count implies #[trigger] holds_output(
        fused,
        product,
        index,
        values,
        count,
        candidate,
    ) by {
        lemma_candidate_outputs(rows, batch, index, candidate);
        let output = index * count + candidate;
        assert(output / count == index && output % count == candidate) by (nonlinear_arith)
            requires
                output == index * count + candidate,
                0 <= candidate < count,
                0 <= index,
        ;
        assert(candidate / count == 0 && candidate % count == candidate) by (nonlinear_arith)
            requires
                0 <= candidate < count,
        ;
    }
    assert(holds_product(fused, product, index, values, count));
}

/// A batched fused projection of the right number of matrices, on a kernel
/// that is loaded and allows enough threads, is accepted exactly where the
/// batched product of each matrix is. It then has the buffers of these
/// products, and for every matrix and candidate the output that the product
/// has, in the same place of its buffer. It is launched exactly where all
/// products are.
pub proof fn law_batched_fused_matches_batched_products(
    kind: FusedProjection,
    matrices: Seq<(Bf16Weight, usize, usize)>,
    batch: usize,
    inputs: usize,
    fused_limit: u64,
    limit: u64,
)
    requires
        matrices.len() == matrix_count(kind),
        fused_limit >= 32,
        limit >= 32,
    ensures
        ({
            let fused = fused_many_plan(kind, matrices, batch, inputs, Some(fused_limit));
            &&& fused is Ok <==> forall|i: int|
                0 <= i < matrices.len() ==> (#[trigger] batched_product(
                    matrices[i],
                    batch,
                    inputs,
                    limit,
                )) is Ok
            &&& fused is Ok ==> {
                &&& fused->Ok_0.buffers.len() == matrices.len()
                &&& fused->Ok_0.outputs.len() == matrices.len() * batch
                &&& forall|i: int|
                    0 <= i < matrices.len() ==> holds_product(
                        fused->Ok_0,
                        (#[trigger] batched_product(matrices[i], batch, inputs, limit))->Ok_0,
                        i,
                        matrices[i].1 as int,
                        batch as int,
                    )
                &&& fused->Ok_0.command is Ok <==> forall|i: int|
                    0 <= i < matrices.len() ==> (#[trigger] batched_product(
                        matrices[i],
                        batch,
                        inputs,
                        limit,
                    ))->Ok_0.command is Ok
            }
        }),
{
    let fused = fused_many_plan(kind, matrices, batch, inputs, Some(fused_limit));
    if 1 <= batch <= 8 {
        let columns = (inputs / batch) as int;
        let rows = matrix_rows(matrices);
        let shapes = matrix_shapes(matrices).map_values(
            |shape: (usize, usize)| validate::fused_shape(shape, columns),
        );
        let held = many_weights(matrices);
        let outputs = many_outputs(rows, batch);
        assert forall|i: int| 0 <= i < matrices.len() implies (#[trigger] batched_product(
            matrices[i],
            batch,
            inputs,
            limit,
        ) is Ok <==> inputs != 0 && inputs % batch == 0 && shapes[i] is Ok && held[i] is Ok
            && outputs[i] is Ok) by {
            lemma_batched_matrix(matrices[i], batch, inputs, limit);
        }
        if fused is Ok {
            text::lemma_collected_values(shapes);
            text::lemma_collected_values(held);
            text::lemma_collected_values(outputs);
            lemma_candidate_count(rows, batch);
            assert forall|i: int| 0 <= i < matrices.len() implies ({
                let product = #[trigger] batched_product(matrices[i], batch, inputs, limit);
                &&& product is Ok
                &&& holds_product(
                    fused->Ok_0,
                    product->Ok_0,
                    i,
                    matrices[i].1 as int,
                    batch as int,
                )
                &&& product->Ok_0.command is Ok <==> columns <= u32::MAX && rows[i] <= u32::MAX
            }) by {
                assert(shapes[i] is Ok && held[i] is Ok && outputs[i] is Ok);
                lemma_holds_product(kind, matrices, batch, inputs, fused_limit, limit, i);
            }
            assert(batched_product(matrices[0], batch, inputs, limit) is Ok);
            if fused->Ok_0.command is Err && columns <= u32::MAX {
                let i = choose|i: int| 0 <= i < rows.len() && (#[trigger] rows[i]) > u32::MAX;
                assert(batched_product(matrices[i], batch, inputs, limit)->Ok_0.command is Err);
            }
        } else if forall|i: int|
            0 <= i < matrices.len() ==> (#[trigger] batched_product(
                matrices[i],
                batch,
                inputs,
                limit,
            )) is Ok {
            assert forall|i: int| 0 <= i < matrices.len() implies shapes[i] is Ok && held[i] is Ok
                && outputs[i] is Ok by {
                assert(batched_product(matrices[i], batch, inputs, limit) is Ok);
            }
            assert(batched_product(matrices[0], batch, inputs, limit) is Ok);
            text::lemma_all_collected(shapes);
            text::lemma_all_collected(held);
            text::lemma_all_collected(outputs);
        }
    } else {
        assert(batched_product(matrices[0], batch, inputs, limit) is Err);
    }
}

/// The weights of one product as far as they count in a fused projection: as
/// soon as some product reads a mapping, only those that do.
pub open spec fn counted_weights(
    matrix: (Bf16Weight, usize, usize),
    batch: usize,
    inputs: usize,
    limit: u64,
    some_mapped: bool,
) -> u64 {
    let profile = batched_product(matrix, batch, inputs, limit)->Ok_0.profile;
    if some_mapped && !profile.mapped {
        0
    } else {
        profile.weights
    }
}

/// A batched fused projection accounts for the weights of the batched products
/// of its matrices, for the inputs once and for the buffers of all products,
/// and reads a mapping as soon as one product does. No weight is both mapped
/// and persistent.
pub proof fn law_batched_fused_accounts_for_products(
    kind: FusedProjection,
    matrices: Seq<(Bf16Weight, usize, usize)>,
    batch: usize,
    inputs: usize,
    fused_limit: u64,
    limit: u64,
)
    requires
        fused_limit >= 32,
        limit >= 32,
        fused_many_plan(kind, matrices, batch, inputs, Some(fused_limit)) is Ok,
        forall|i: int|
            0 <= i < matrices.len() ==> !((#[trigger] matrices[i]).0.mapped
                && matrices[i].0.persistent),
    ensures
        ({
            let fused = fused_many_plan(kind, matrices, batch, inputs, Some(fused_limit))->Ok_0;
            let some_mapped = exists|i: int|
                0 <= i < matrices.len() && (#[trigger] batched_product(
                    matrices[i],
                    batch,
                    inputs,
                    limit,
                ))->Ok_0.profile.mapped;
            &&& fused.profile.mapped == some_mapped
            &&& fused.profile.weights == plan::total(
                Seq::new(
                    matrices.len(),
                    |i: int| counted_weights(matrices[i], batch, inputs, limit, some_mapped),
                ),
            )
            &&& fused.profile.state == 0
            &&& fused.profile.scratch == plan::total(
                seq![plan::value_bytes(inputs as int)] + Seq::new(
                    matrices.len(),
                    |i: int| batched_product(matrices[i], batch, inputs, limit)->Ok_0.buffers[0],
                ),
            )
        }),
{
    let fused = fused_many_plan(kind, matrices, batch, inputs, Some(fused_limit))->Ok_0;
    law_batched_fused_matches_batched_products(kind, matrices, batch, inputs, fused_limit, limit);
    let held = matvec::matrix_weights(matrices);
    let mapped = held.map_values(|weight: Bf16Weight| weights::mapped_bytes(weight));
    let active = held.map_values(|weight: Bf16Weight| weights::active_bytes(weight));
    let some_mapped = exists|i: int|
        0 <= i < matrices.len() && (#[trigger] batched_product(
            matrices[i],
            batch,
            inputs,
            limit,
        ))->Ok_0.profile.mapped;
    plan::lemma_total_above_zero(mapped);
    let counted = Seq::new(
        matrices.len(),
        |i: int| counted_weights(matrices[i], batch, inputs, limit, some_mapped),
    );
    assert forall|i: int| 0 <= i < matrices.len() implies ({
        &&& (#[trigger] batched_product(matrices[i], batch, inputs, limit)) is Ok
        &&& matrices[i].0.bytes > 0
        &&& mapped[i] == weights::mapped_bytes(matrices[i].0)
        &&& active[i] == weights::active_bytes(matrices[i].0)
        &&& held[i] == matrices[i].0
    }) by {
        assert(batched_product(matrices[i], batch, inputs, limit) is Ok);
        assert(matrices[i].1 * matrices[i].2 * 2 > 0) by (nonlinear_arith)
            requires
                matrices[i].1 > 0,
                matrices[i].2 > 0,
        ;
    }
    if some_mapped {
        let i = choose|i: int|
            0 <= i < matrices.len() && (#[trigger] batched_product(
                matrices[i],
                batch,
                inputs,
                limit,
            ))->Ok_0.profile.mapped;
        assert(mapped[i] > 0);
        assert(counted =~= mapped);
    } else {
        assert forall|i: int| 0 <= i < mapped.len() implies (#[trigger] mapped[i]) == 0 by {
            assert(!batched_product(matrices[i], batch, inputs, limit)->Ok_0.profile.mapped);
        }
        assert(counted =~= active);
    }
    let elements = text::collected(many_outputs(matrix_rows(matrices), batch))->Ok_0;
    text::lemma_collected_values(many_outputs(matrix_rows(matrices), batch));
    assert(group::row_bytes(elements) =~= Seq::new(
        matrices.len(),
        |i: int| batched_product(matrices[i], batch, inputs, limit)->Ok_0.buffers[0],
    )) by {
        assert forall|i: int| 0 <= i < matrices.len() implies group::row_bytes(elements)[i]
            == batched_product(matrices[i], batch, inputs, limit)->Ok_0.buffers[0] by {
            assert(batched_product(matrices[i], batch, inputs, limit)->Ok_0.buffers
                == seq![fused.buffers[i]]);
        }
    }
}

/// Without a switch that loads their kernels, batched products and batched
/// fused projections are refused; where nothing else is wrong with them, the
/// message says which switch to set.
pub proof fn law_batches_need_their_switch(
    switches: Switches,
    limits: Seq<u64>,
    kind: FusedProjection,
    matrices: Seq<(Bf16Weight, usize, usize)>,
    matrix: (Bf16Weight, usize, usize),
    batch: usize,
    inputs: usize,
)
    requires
        !kernel::batched_kernels(switches),
    ensures
        ({
            let pipelines = context::pipelines_of(kernel::loaded_kernels(switches), limits);
            let product = matvec::bf16_matmul_many_plan(
                matrix.0,
                matrix.1,
                matrix.2,
                batch,
                inputs,
                pipelines.batched_matmul,
            );
            let limit = match kind {
                FusedProjection::Qkv => pipelines.batched_fused_qkv,
                FusedProjection::GateUp => pipelines.batched_fused_gate_up,
            };
            let fused = fused_many_plan(kind, matrices, batch, inputs, limit);
            &&& product is Err
            &&& fused is Err
            &&& matrix.0.bytes <= usize::MAX && validate::matmul_many_shape(
                matrix.1 as int,
                matrix.2 as int,
                batch as int,
                matrix.0.bytes as int,
                inputs as int,
            ) is Ok ==> product->Err_0 == "batched matmul is disabled; set SI_VERIFY_MANY=1"@
            &&& fused_many_check(kind, matrices, batch, inputs) is Ok ==> fused->Err_0
                == "batched fused projection is disabled; set SI_VERIFY_MANY=1"@
        }),
{
    kernel::law_switches_load_optional_kernels(switches, limits);
}

/// The message for a wrong number of tensors of a batch.
pub open spec fn many_tensors_message(kind: FusedProjection) -> Seq<char> {
    match kind {
        FusedProjection::Qkv => "batched fused QKV requires exactly three tensors"@,
        FusedProjection::GateUp => "batched fused gate/up requires exactly two tensors"@,
    }
}

pub open spec fn fused_many_tensors_plan(
    kind: FusedProjection,
    tensors: Seq<&TensorView>,
    bound: Seq<Result<Bf16Weight, String>>,
    batch: usize,
    inputs: usize,
    limit: Option<u64>,
) -> Result<PlanView, Seq<char>> {
    if tensors.len() != matrix_count(kind) {
        Err(many_tensors_message(kind))
    } else {
        match validate::tensor_many(tensors, batch as int, inputs as int) {
            Err(message) => Err(message),
            Ok(shapes) => match matvec::bound_matrices(bound, shapes) {
                Err(message) => Err(message),
                Ok(matrices) => fused_many_plan(kind, matrices, batch, inputs, limit),
            },
        }
    }
}

fn plan_fused_many_tensors(
    kind: FusedProjection,
    tensors: &[&TensorView<'_>],
    bound: &[Result<Bf16Weight, String>],
    batch: usize,
    inputs: usize,
    limit: Option<u64>,
) -> (result: Result<Plan, String>)
    requires
        bound@.len() == tensors@.len(),
    ensures
        text::outcome_view(result) == fused_many_tensors_plan(
            kind,
            tensors@,
            bound@,
            batch,
            inputs,
            limit,
        ),
{
    if tensors.len() != count_matrices(kind) {
        return Err(
            match kind {
                FusedProjection::Qkv =>
                    "batched fused QKV requires exactly three tensors".to_owned(),
                FusedProjection::GateUp =>
                    "batched fused gate/up requires exactly two tensors".to_owned(),
            },
        );
    }
    let shapes = match validate::validate_matvec_tensor_many(tensors, batch, inputs) {
        Ok(shapes) => shapes,
        Err(message) => {
            return Err(message);
        },
    };
    proof {
        validate::lemma_batch_length(tensors@, inputs as int / batch as int);
    }
    match matvec::bind_matrices(bound, shapes.as_slice()) {
        Ok(matrices) => plan_fused_many(kind, matrices.as_slice(), batch, inputs, limit),
        Err(message) => Err(message),
    }
}

impl MetalContext {
    /// Plans fused Q/K/V projections of bound matrices.
    pub fn bf16_fused_qkv_buffer(
        &self,
        matrices: &[(Bf16Weight, usize, usize)],
        input: usize,
    ) -> (result: Result<Plan, String>)
        ensures
            text::outcome_view(result) == fused_plan(FusedProjection::Qkv, matrices@, input),
    {
        plan_fused(FusedProjection::Qkv, matrices, input)
    }

    /// Plans fused Q/K/V projections for a command that is waited for later.
    pub fn bf16_fused_qkv_buffer_async(
        &self,
        matrices: &[(Bf16Weight, usize, usize)],
        input: usize,
    ) -> (result: Result<Plan, String>)
        ensures
            text::outcome_view(result) == fused_plan(FusedProjection::Qkv, matrices@, input),
    {
        plan_fused(FusedProjection::Qkv, matrices, input)
    }

    /// Plans fused gate and up projections of bound matrices.
    pub fn bf16_fused_gate_up_buffer(
        &self,
        matrices: &[(Bf16Weight, usize, usize)],
        input: usize,
    ) -> (result: Result<Plan, String>)
        ensures
            text::outcome_view(result) == fused_plan(FusedProjection::GateUp, matrices@, input),
    {
        plan_fused(FusedProjection::GateUp, matrices, input)
    }

    /// Plans fused gate and up projections for a command that is waited for later.
    pub fn bf16_fused_gate_up_buffer_async(
        &self,
        matrices: &[(Bf16Weight, usize, usize)],
        input: usize,
    ) -> (result: Result<Plan, String>)
        ensures
            text::outcome_view(result) == fused_plan(FusedProjection::GateUp, matrices@, input),
    {
        plan_fused(FusedProjection::GateUp, matrices, input)
    }

    /// Plans fused Q/K/V projections of tensors, given what came of binding them.
    pub fn bf16_fused_qkv_tensors(
        &self,
        tensors: &[&TensorView<'_>],
        bound: &[Result<Bf16Weight, String>],
        input: usize,
    ) -> (result: Result<Plan, String>)
        requires
            bound@.len() == tensors@.len(),
        ensures
            text::outcome_view(result) == fused_tensors_plan(
                FusedProjection::Qkv,
                tensors@,
                bound@,
                input,
            ),
    {
        plan_fused_tensors(FusedProjection::Qkv, tensors, bound, input)
    }

    /// Plans fused Q/K/V projections of tensors for a command that is waited for later.
    pub fn bf16_fused_qkv_tensors_async(
        &self,
        tensors: &[&TensorView<'_>],
        bound: &[Result<Bf16Weight, String>],
        input: usize,
    ) -> (result: Result<Plan, String>)
        requires
            bound@.len() == tensors@.len(),
        ensures
            text::outcome_view(result) == fused_tensors_plan(
                FusedProjection::Qkv,
                tensors@,
                bound@,
                input,
            ),
    {
        plan_fused_tensors(FusedProjection::Qkv, tensors, bound, input)
    }

    /// Plans fused gate and up projections of tensors, given what came of binding them.
    pub fn bf16_fused_gate_up_tensors(
        &self,
        tensors: &[&TensorView<'_>],
        bound: &[Result<Bf16Weight, String>],
        input: usize,
    ) -> (result: Result<Plan, String>)
        requires
            bound@.len() == tensors@.len(),
        ensures
            text::outcome_view(result) == fused_tensors_plan(
                FusedProjection::GateUp,
                tensors@,
                bound@,
                input,
            ),
    {
        plan_fused_tensors(FusedProjection::GateUp, tensors, bound, input)
    }

    /// Plans fused gate and up projections of tensors for a command that is waited for later.
    pub fn bf16_fused_gate_up_tensors_async(
        &self,
        tensors: &[&TensorView<'_>],
        bound: &[Result<Bf16Weight, String>],
        input: usize,
    ) -> (result: Result<Plan, String>)
        requires
            bound@.len() == tensors@.len(),
        ensures
            text::outcome_view(result) == fused_tensors_plan(
                FusedProjection::GateUp,
                tensors@,
                bound@,
                input,
            ),
    {
        plan_fused_tensors(FusedProjection::GateUp, tensors, bound, input)
    }

    /// Plans fused Q/K/V projections of byte matrices, given for each the buffer
    /// that the device made of it and how many bytes it could bind.
    pub fn bf16_fused_qkv_bytes(
        &self,
        matrices: &[(&[u8], usize, usize)],
        bound: &[(u64, u64)],
        input: usize,
    ) -> (result: Result<Plan, String>)
        requires
            bound@.len() == matrices@.len(),
        ensures
            text::outcome_view(result) == fused_bytes_plan(
                FusedProjection::Qkv,
                byte_matrices(matrices@),
                bound@,
                input,
            ),
    {
        plan_fused_bytes(FusedProjection::Qkv, matrices, bound, input)
    }

    /// Plans fused gate and up projections of byte matrices, given their
    /// shapes and what came of binding them.
    pub fn bf16_fused_gate_up_bytes(
        &self,
        matrices: &[(&[u8], usize, usize)],
        bound: &[(u64, u64)],
        input: usize,
    ) -> (result: Result<Plan, String>)
        requires
            bound@.len() == matrices@.len(),
        ensures
            text::outcome_view(result) == fused_bytes_plan(
                FusedProjection::GateUp,
                byte_matrices(matrices@),
                bound@,
                input,
            ),
    {
        plan_fused_bytes(FusedProjection::GateUp, matrices, bound, input)
    }

    /// Plans fused Q/K/V projections of byte matrices that the command keeps
    /// until it is waited for.
    pub fn bf16_fused_qkv_owned_bytes_async(
        &self,
        matrices: Vec<(Vec<u8>, usize, usize)>,
        bound: &[(u64, u64)],
        input: usize,
    ) -> (result: Result<OwnedPlan, String>)
        requires
            bound@.len() == matrices@.len(),
        ensures
            is_owned_plan(FusedProjection::Qkv, matrices@, bound@, input, result),
    {
        plan_fused_owned(FusedProjection::Qkv, matrices, bound, input)
    }

    /// Plans fused gate and up projections of byte matrices that the command
    /// keeps until it is waited for.
    pub fn bf16_fused_gate_up_owned_bytes_async(
        &self,
        matrices: Vec<(Vec<u8>, usize, usize)>,
        bound: &[(u64, u64)],
        input: usize,
    ) -> (result: Result<OwnedPlan, String>)
        requires
            bound@.len() == matrices@.len(),
        ensures
            is_owned_plan(FusedProjection::GateUp, matrices@, bound@, input, result),
    {
        plan_fused_owned(FusedProjection::GateUp, matrices, bound, input)
    }

    /// Plans fused Q/K/V projections of one to eight vectors.
    pub fn bf16_fused_qkv_many_buffer(
        &self,
        matrices: &[(Bf16Weight, usize, usize)],
        batch: usize,
        inputs: usize,
    ) -> (result: Result<Plan, String>)
        ensures
            text::outcome_view(result) == fused_many_plan(
                FusedProjection::Qkv,
                matrices@,
                batch,
                inputs,
                self@.pipelines.batched_fused_qkv,
            ),
    {
        let limit = self.pipelines().batched_fused_qkv;
        plan_fused_many(FusedProjection::Qkv, matrices, batch, inputs, limit)
    }

    /// Plans fused gate and up projections of one to eight vectors.
    pub fn bf16_fused_gate_up_many_buffer(
        &self,
        matrices: &[(Bf16Weight, usize, usize)],
        batch: usize,
        inputs: usize,
    ) -> (result: Result<Plan, String>)
        ensures
            text::outcome_view(result) == fused_many_plan(
                FusedProjection::GateUp,
                matrices@,
                batch,
                inputs,
                self@.pipelines.batched_fused_gate_up,
            ),
    {
        let limit = self.pipelines().batched_fused_gate_up;
        plan_fused_many(FusedProjection::GateUp, matrices, batch, inputs, limit)
    }

    /// Plans fused Q/K/V projections of one to eight vectors with tensors,
    /// given what came of binding them.
    pub fn bf16_fused_qkv_many_tensors(
        &self,
        tensors: &[&TensorView<'_>],
        bound: &[Result<Bf16Weight, String>],
        batch: usize,
        inputs: usize,
    ) -> (result: Result<Plan, String>)
        requires
            bound@.len() == tensors@.len(),
        ensures
            text::outcome_view(result) == fused_many_tensors_plan(
                FusedProjection::Qkv,
                tensors@,
                bound@,
                batch,
                inputs,
                self@.pipelines.batched_fused_qkv,
            ),
    {
        let limit = self.pipelines().batched_fused_qkv;
        plan_fused_many_tensors(FusedProjection::Qkv, tensors, bound, batch, inputs, limit)
    }

    /// Plans fused gate and up projections of one to eight vectors with
    /// tensors, given what came of binding them.
    pub fn bf16_fused_gate_up_many_tensors(
        &self,
        tensors: &[&TensorView<'_>],
        bound: &[Result<Bf16Weight, String>],
        batch: usize,
        inputs: usize,
    ) -> (result: Result<Plan, String>)
        requires
            bound@.len() == tensors@.len(),
        ensures
            text::outcome_view(result) == fused_many_tensors_plan(
                FusedProjection::GateUp,
                tensors@,
                bound@,
                batch,
                inputs,
                self@.pipelines.batched_fused_gate_up,
            ),
    {
        let limit = self.pipelines().batched_fused_gate_up;
        plan_fused_many_tensors(FusedProjection::GateUp, tensors, bound, batch, inputs, limit)
    }
}

} // verus!
