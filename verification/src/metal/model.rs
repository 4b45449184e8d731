//! What the kernels multiply, read and write, as the shader source has them.
//! Places and sizes are whole numbers here, which a kernel counts in 32 bits.
use vstd::arithmetic::div_mod::*;
use vstd::prelude::*;

use super::kernel;
use super::kernel::{Constants, Dispatch, Grid, Kernel};
use super::wiring;
use super::wiring::Source;

verus! {

/// The constants of a launch, in the order of the kernel's parameters.
pub open spec fn numbers(constants: Constants) -> Seq<int> {
    match constants {
        Constants::One(a) => seq![a as int],
        Constants::Two(a, b) => seq![a as int, b as int],
        Constants::Three(a, b, c) => seq![a as int, b as int, c as int],
        Constants::Four(a, b, c, d) => seq![a as int, b as int, c as int, d as int],
        Constants::Five(a, b, c, d, e) => seq![a as int, b as int, c as int, d as int, e as int],
    }
}

/// How many constants a kernel takes. The scale of attention is not among
/// them: it follows from the head dimension.
pub open spec fn parameter_count(kernel: Kernel) -> nat {
    match kernel {
        Kernel::Q4KEmbeddingRow | Kernel::Bf16EmbeddingRow => 1,
        Kernel::RmsNormBf16Heads
        | Kernel::RmsNormGated
        | Kernel::RmsNormHeads
        | Kernel::GatedDeltaStep
        | Kernel::GatedDeltaStepParallel
        | Kernel::Q4KMatmulMany
        | Kernel::Q5KMatmulMany
        | Kernel::Q6KMatmulMany
        | Kernel::Bf16MatmulMany
        | Kernel::Bf16BitpackMatvec
        | Kernel::Bf16FusedGateUp => 3,
        Kernel::Bf16FusedQkv | Kernel::Bf16FusedGateUpMany | Kernel::Rope => 4,
        Kernel::Bf16FusedQkvMany | Kernel::AttentionDecode => 5,
        _ => 2,
    }
}

/// The threads in a group of a launch, on a pipeline with this limit.
pub open spec fn width(launch: Dispatch, limit: u64) -> int {
    kernel::thread_count(launch.threads, limit) as int
}

/// The groups of threads that a launch starts.
pub open spec fn groups(launch: Dispatch, limit: u64) -> int {
    match launch.grid {
        Grid::Groups(count) => count as int,
        Grid::Threads(count) => (count + width(launch, limit) - 1) / width(launch, limit),
        Grid::Single => 1,
    }
}

/// The positions along the first axis of all threads that a launch starts.
pub open spec fn positions(launch: Dispatch, limit: u64) -> int {
    match launch.grid {
        Grid::Groups(count) => count * width(launch, limit),
        Grid::Threads(count) => count as int,
        Grid::Single => 1,
    }
}

/// A weight and the input value that it is multiplied by: the places of their
/// buffers among those of the kernel, and their own places in the buffers.
pub struct Product {
    pub matrix: int,
    pub weight: int,
    pub vector: int,
    pub input: int,
}

/// The rows of the matrices that a kernel puts out, one count for each result.
/// The parameter `rows` is behind `columns`, but for packed weights.
pub open spec fn row_counts(launch: Dispatch) -> Seq<int> {
    let given = numbers(launch.constants);
    match launch.kernel {
        Kernel::Bf16FusedQkv | Kernel::Bf16FusedQkvMany => seq![given[1], given[2], given[3]],
        Kernel::Bf16FusedGateUp | Kernel::Bf16FusedGateUpMany => seq![given[1], given[2]],
        Kernel::Bf16BitpackMatvec => seq![given[0]],
        _ => seq![given[1]],
    }
}

/// The parameter `columns`.
pub open spec fn column_count(launch: Dispatch) -> int {
    let given = numbers(launch.constants);
    match launch.kernel {
        Kernel::Bf16BitpackMatvec => given[1],
        _ => given[0],
    }
}

/// The vectors that each row is multiplied by. The kernels for several take up
/// to eight; those for blocks take no more than that at all.
pub open spec fn vector_count(launch: Dispatch) -> int {
    let given = numbers(launch.constants);
    match launch.kernel {
        Kernel::Bf16MatmulMany => if given[2] > 8 {
            8
        } else {
            given[2]
        },
        Kernel::Bf16FusedQkvMany => if given[4] > 8 {
            8
        } else {
            given[4]
        },
        Kernel::Bf16FusedGateUpMany => if given[3] > 8 {
            8
        } else {
            given[3]
        },
        Kernel::Q4KMatmulMany | Kernel::Q5KMatmulMany | Kernel::Q6KMatmulMany => if given[2] > 8 {
            0
        } else {
            given[2]
        },
        _ => 1,
    }
}

/// The rows of the matrices before that of a result.
pub open spec fn rows_before(rows: Seq<int>, result: int) -> int
    decreases result,
{
    if result <= 0 {
        0
    } else {
        rows_before(rows, result - 1) + rows[result - 1]
    }
}

/// Whether a kernel lets a group multiply four rows, one in each 32 threads.
pub open spec fn takes_four_rows(kernel: Kernel) -> bool {
    match kernel {
        Kernel::Q4KMatvecRows4 | Kernel::Q5KMatvecRows4 | Kernel::Q6KMatvecRows4 => true,
        _ => false,
    }
}

/// Whether a kernel lets a group multiply four rows, one in each 128 threads.
pub open spec fn takes_four_wide_rows(kernel: Kernel) -> bool {
    match kernel {
        Kernel::Q4KMatvecRows4x128 | Kernel::Q6KMatvecRows4x128 => true,
        _ => false,
    }
}

/// Whether the columns of a row are spread over 32 threads, whatever the group has.
pub open spec fn takes_32_threads(kernel: Kernel) -> bool {
    match kernel {
        Kernel::Bf16MatmulMany | Kernel::Bf16FusedQkvMany | Kernel::Bf16FusedGateUpMany => true,
        _ => false,
    }
}

/// Whether a group multiplies a row of the matrices, which are laid one below the other.
pub open spec fn takes_row(launch: Dispatch, limit: u64, group: int, row: int) -> bool {
    let threads = width(launch, limit);
    if takes_four_rows(launch.kernel) {
        0 <= row - 4 * group < threads / 32
    } else if takes_four_wide_rows(launch.kernel) {
        0 <= row - 4 * group < threads / 128
    } else if takes_32_threads(launch.kernel) {
        row == group && threads >= 32
    } else {
        row == group && threads >= 1
    }
}

/// Whether a kernel reads weights in blocks of 256.
pub open spec fn reads_blocks(kernel: Kernel) -> bool {
    match kernel {
        Kernel::Q4KMatvec
        | Kernel::Q4KMatvecRows4
        | Kernel::Q4KMatvecRows4x128
        | Kernel::Q4KMatmulMany
        | Kernel::Q4KFusedGateUp
        | Kernel::Q5KMatvec
        | Kernel::Q5KMatvecRows4
        | Kernel::Q5KMatmulMany
        | Kernel::Q6KMatvec
        | Kernel::Q6KMatvecRows4
        | Kernel::Q6KMatvecRows4x128
        | Kernel::Q6KMatmulMany => true,
        _ => false,
    }
}

/// The bytes that so many weights of a matrix take, as a kernel reads them.
pub open spec fn weight_bytes(kernel: Kernel, weights: int) -> int {
    match kernel {
        Kernel::Q4KMatvec
        | Kernel::Q4KMatvecRows4
        | Kernel::Q4KMatvecRows4x128
        | Kernel::Q4KMatmulMany
        | Kernel::Q4KFusedGateUp
        | Kernel::Q4KEmbeddingRow => weights / 256 * 144,
        Kernel::Q5KMatvec | Kernel::Q5KMatvecRows4 | Kernel::Q5KMatmulMany => weights / 256 * 176,
        Kernel::Q6KMatvec
        | Kernel::Q6KMatvecRows4
        | Kernel::Q6KMatvecRows4x128
        | Kernel::Q6KMatmulMany => weights / 256 * 210,
        Kernel::Bf16Matvec
        | Kernel::Bf16MatmulMany
        | Kernel::Bf16FusedQkv
        | Kernel::Bf16FusedQkvMany
        | Kernel::Bf16FusedGateUp
        | Kernel::Bf16FusedGateUpMany
        | Kernel::Bf16EmbeddingRow
        | Kernel::RmsNormBf16Heads => weights * 2,
        _ => weights * 4,
    }
}

/// The place of the weight of a row and a column among those of its matrix.
/// Packed rows stand in tiles, one tile behind the other.
pub open spec fn weight_place(launch: Dispatch, row: int, column: int) -> int {
    let columns = column_count(launch);
    if reads_blocks(launch.kernel) {
        (row * (columns / 256) + column / 256) * 256 + column % 256
    } else if launch.kernel == Kernel::Bf16BitpackMatvec {
        let tile_rows = numbers(launch.constants)[2];
        let tile = row / tile_rows;
        tile * (tile_rows * columns) + (row - tile * tile_rows) * columns + column
    } else {
        row * columns + column
    }
}

/// The place of the buffer that holds the vectors.
pub open spec fn vector_place(kernel: Kernel) -> int {
    match kernel {
        Kernel::Bf16FusedQkv | Kernel::Bf16FusedQkvMany => 3,
        Kernel::Bf16FusedGateUp
        | Kernel::Bf16FusedGateUpMany
        | Kernel::Q4KFusedGateUp
        | Kernel::Bf16BitpackMatvec => 2,
        _ => 1,
    }
}

/// Whether a result is made of the matrix in a buffer. The gated product of
/// block-quantized matrices is made of two.
pub open spec fn matrix_of(kernel: Kernel, result: int, matrix: int) -> bool {
    if kernel == Kernel::Q4KFusedGateUp {
        matrix == 0 || matrix == 1
    } else {
        matrix == result
    }
}

/// Whether a group writes an element of a result. The elements of one vector
/// stand behind those of the vector before it.
pub open spec fn group_writes(
    launch: Dispatch,
    limit: u64,
    group: int,
    result: int,
    element: int,
) -> bool {
    let rows = row_counts(launch);
    &&& 0 <= result < rows.len()
    &&& 0 <= element
    &&& element < vector_count(launch) * rows[result]
    &&& takes_row(launch, limit, group, rows_before(rows, result) + element % rows[result])
    &&& launch.kernel == Kernel::Bf16BitpackMatvec ==> numbers(launch.constants)[2] > 0
}

/// Whether a product is among those that are added up for an element of a result.
pub open spec fn is_added(
    launch: Dispatch,
    result: int,
    element: int,
    product: Product,
) -> bool {
    let rows = row_counts(launch)[result];
    let column = product.input - (element / rows) * column_count(launch);
    &&& matrix_of(launch.kernel, result, product.matrix)
    &&& product.vector == vector_place(launch.kernel)
    &&& 0 <= column < column_count(launch)
    &&& product.weight == weight_place(launch, element % rows, column)
}

/// Whether a launch writes an element of a result of a product.
pub open spec fn puts_out(launch: Dispatch, limit: u64, result: int, element: int) -> bool {
    exists|group: int|
        0 <= group < groups(launch, limit) && #[trigger] group_writes(
            launch,
            limit,
            group,
            result,
            element,
        )
}

/// Whether a launch writes an element of a result and adds up a product for it.
pub open spec fn adds(
    launch: Dispatch,
    limit: u64,
    result: int,
    element: int,
    product: Product,
) -> bool {
    puts_out(launch, limit, result, element) && is_added(launch, result, element, product)
}

/// Matrices with the same rows and columns: those of a step from number
/// `first` up to `end`.
pub struct Matrices {
    pub first: int,
    pub end: int,
    pub rows: int,
    pub columns: int,
}

/// Whether a product belongs to a row of matrices and one of the vectors of a
/// batch: the weight in some column of the row, and the value of the vector in
/// that column.
pub open spec fn belongs(
    kernel: Kernel,
    matrices: Matrices,
    vector: int,
    row: int,
    product: Product,
) -> bool {
    let column = product.input - vector * matrices.columns;
    &&& 0 <= product.matrix < wiring::kernel_sources(kernel).len()
    &&& 0 <= product.vector < wiring::kernel_sources(kernel).len()
    &&& wiring::kernel_sources(kernel)[product.vector] == Source::Input
    &&& wiring::kernel_sources(kernel)[product.matrix] matches Source::Weights(number)
        && matrices.first <= number < matrices.end
    &&& 0 <= column < matrices.columns
    &&& product.weight == row * matrices.columns + column
}

/// Whether a result of a launch is the product of matrices with the vectors of
/// a batch: the launch gives the kernel all its constants, every element that there is for a vector and a row is written, no
/// other is, and it adds up the weights of the row, each times the value of
/// the vector in its column.
pub open spec fn is_product(
    launch: Dispatch,
    limit: u64,
    result: int,
    matrices: Matrices,
    batch: int,
) -> bool {
    &&& numbers(launch.constants).len() == parameter_count(launch.kernel)
    &&& forall|element: int| #[trigger]
        puts_out(launch, limit, result, element) <==> 0 <= element < batch * matrices.rows
    &&& forall|element: int, product: Product|
        0 <= element < batch * matrices.rows ==> (#[trigger] adds(
            launch,
            limit,
            result,
            element,
            product,
        ) <==> belongs(
            launch.kernel,
            matrices,
            element / matrices.rows,
            element % matrices.rows,
            product,
        ))
}

/// A product that belongs to a row and a vector lies inside the matrix and the batch.
pub proof fn lemma_belongs_inside(
    kernel: Kernel,
    matrices: Matrices,
    batch: int,
    vector: int,
    row: int,
    product: Product,
)
    requires
        belongs(kernel, matrices, vector, row, product),
        0 <= row < matrices.rows,
        0 <= vector < batch,
    ensures
        0 <= product.weight < matrices.rows * matrices.columns,
        0 <= product.input < batch * matrices.columns,
{
    let columns = matrices.columns;
    let column = product.input - vector * columns;
    assert(0 <= row * columns && row * columns + columns <= matrices.rows * columns)
        by (nonlinear_arith)
        requires
            0 <= row,
            row + 1 <= matrices.rows,
            0 <= columns,
    ;
    assert(0 <= vector * columns && vector * columns + columns <= batch * columns)
        by (nonlinear_arith)
        requires
            0 <= vector,
            vector + 1 <= batch,
            0 <= columns,
    ;
}

/// A weight stands in its row, and behind the rows before it.
proof fn lemma_weight_place(launch: Dispatch, row: int, column: int)
    requires
        0 <= row,
        0 <= column < column_count(launch),
        reads_blocks(launch.kernel) ==> column_count(launch) % 256 == 0,
        launch.kernel == Kernel::Bf16BitpackMatvec ==> numbers(launch.constants)[2] > 0,
    ensures
        weight_place(launch, row, column) == row * column_count(launch) + column,
{
    let columns = column_count(launch);
    if reads_blocks(launch.kernel) {
        let blocks = columns / 256;
        assert((row * blocks + column / 256) * 256 == row * (blocks * 256) + column / 256 * 256)
            by (nonlinear_arith);
    } else if launch.kernel == Kernel::Bf16BitpackMatvec {
        let tile_rows = numbers(launch.constants)[2];
        let tile = row / tile_rows;
        assert(tile * (tile_rows * columns) + (row - tile * tile_rows) * columns == row * columns)
            by (nonlinear_arith);
    }
}

/// The group that multiplies a row.
pub open spec fn group_of(kernel: Kernel, row: int) -> int {
    if takes_four_rows(kernel) || takes_four_wide_rows(kernel) {
        row / 4
    } else {
        row
    }
}

/// Whether the groups of a launch are wide enough for its kernel.
pub open spec fn is_wide_enough(launch: Dispatch, limit: u64) -> bool {
    width(launch, limit) >= (if takes_four_rows(launch.kernel) {
        128int
    } else if takes_four_wide_rows(launch.kernel) {
        512
    } else if takes_32_threads(launch.kernel) {
        32
    } else {
        1
    })
}

/// The rows before a result and those of the result are among all rows.
pub proof fn lemma_rows_before(rows: Seq<int>, result: int)
    requires
        0 <= result < rows.len(),
        forall|i: int| 0 <= i < rows.len() ==> 0 <= #[trigger] rows[i],
    ensures
        0 <= rows_before(rows, result),
        rows_before(rows, result) + rows[result] <= rows_before(rows, rows.len() as int),
    decreases rows.len() - result,
{
    lemma_rows_before_above_zero(rows, result);
    if result + 1 < rows.len() {
        lemma_rows_before(rows, result + 1);
    }
}

proof fn lemma_rows_before_above_zero(rows: Seq<int>, result: int)
    requires
        0 <= result <= rows.len(),
        forall|i: int| 0 <= i < rows.len() ==> 0 <= #[trigger] rows[i],
    ensures
        0 <= rows_before(rows, result),
    decreases result,
{
    if result > 0 {
        lemma_rows_before_above_zero(rows, result - 1);
    }
}

/// The constants of a launch are not negative, and neither are its rows.
proof fn lemma_row_counts(launch: Dispatch)
    requires
        numbers(launch.constants).len() == parameter_count(launch.kernel),
        parameter_count(launch.kernel) >= 2,
    ensures
        forall|i: int|
            0 <= i < row_counts(launch).len() ==> 0 <= #[trigger] row_counts(launch)[i],
{
    let given = numbers(launch.constants);
    assert(forall|i: int| 0 <= i < given.len() ==> 0 <= #[trigger] given[i]);
    assert(0 <= given[0] && 0 <= given[1]);
    if given.len() >= 3 {
        assert(0 <= given[2]);
    }
    if given.len() >= 4 {
        assert(0 <= given[3]);
    }
}

/// A launch whose constants are the columns and rows of its matrices, with a
/// wide enough group for each row, puts out their product.
pub proof fn lemma_is_product(
    launch: Dispatch,
    limit: u64,
    result: int,
    matrices: Matrices,
    batch: int,
)
    requires
        numbers(launch.constants).len() == parameter_count(launch.kernel),
        0 <= result < row_counts(launch).len(),
        row_counts(launch)[result] == matrices.rows,
        column_count(launch) == matrices.columns,
        vector_count(launch) == batch,
        reads_blocks(launch.kernel) ==> matrices.columns % 256 == 0,
        launch.kernel == Kernel::Bf16BitpackMatvec ==> numbers(launch.constants)[2] > 0,
        wiring::multiplies(launch.kernel) || launch.kernel == Kernel::Q4KFusedGateUp
            || launch.kernel == Kernel::Bf16BitpackMatvec || launch.kernel == Kernel::Bf16FusedQkv
            || launch.kernel == Kernel::Bf16FusedQkvMany || launch.kernel == Kernel::Bf16FusedGateUp
            || launch.kernel == Kernel::Bf16FusedGateUpMany,
        matrices.first == (if launch.kernel == Kernel::Q4KFusedGateUp {
            0
        } else {
            result
        }),
        matrices.end == (if launch.kernel == Kernel::Q4KFusedGateUp {
            2
        } else {
            result + 1
        }),
        is_wide_enough(launch, limit),
        forall|row: int|
            0 <= row < rows_before(row_counts(launch), row_counts(launch).len() as int)
                ==> #[trigger] group_of(launch.kernel, row) < groups(launch, limit),
    ensures
        is_product(launch, limit, result, matrices, batch),
{
    let rows = row_counts(launch);
    let count = matrices.rows;
    assert(wiring::kernel_sources(launch.kernel).len() >= 2);
    lemma_row_counts(launch);
    lemma_rows_before(rows, result);
    let before = rows_before(rows, result);
    if count == 0 {
        assert(batch * count == 0);
    }
    assert forall|element: int| #[trigger]
        puts_out(launch, limit, result, element) <==> 0 <= element < batch * count by {
        if 0 <= element < batch * count {
            let row = before + element % count;
            assert(0 <= element % count < count) by {
                lemma_mod_bound(element, count);
            }
            let group = group_of(launch.kernel, row);
            assert(0 <= group < groups(launch, limit));
            assert(takes_row(launch, limit, group, row));
            assert(group_writes(launch, limit, group, result, element));
        }
    }
    assert forall|element: int, product: Product|
        0 <= element < batch * count implies (#[trigger] adds(
        launch,
        limit,
        result,
        element,
        product,
    ) <==> belongs(launch.kernel, matrices, element / count, element % count, product)) by {
        assert(puts_out(launch, limit, result, element));
        assert(0 <= element % count < count) by {
            lemma_mod_bound(element, count);
        }
        let column = product.input - (element / count) * matrices.columns;
        if 0 <= column < matrices.columns {
            lemma_weight_place(launch, element % count, column);
        }
        let sources = wiring::kernel_sources(launch.kernel);
        assert(sources.len() > vector_place(launch.kernel));
        assert(sources[vector_place(launch.kernel)] == Source::Input);
    }
}

/// The value that a thread of a recurrent update works on, counted in its
/// head: a thread has all of them, or one where they are updated in parallel.
pub open spec fn has_value(launch: Dispatch, limit: u64, place: int, value: int) -> bool {
    launch.kernel == Kernel::GatedDeltaStepParallel ==> value == place % width(launch, limit)
}

/// The head that a thread works on.
pub open spec fn head_of(launch: Dispatch, limit: u64, place: int) -> int {
    if launch.kernel == Kernel::GatedDeltaStepParallel {
        place / width(launch, limit)
    } else {
        place
    }
}

/// Whether a number lies in the part of this number, where all parts are `size` long.
pub open spec fn in_part(part: int, size: int, number: int) -> bool {
    part * size <= number < (part + 1) * size
}

/// Whether the thread at a place of a launch writes an element of a result.
/// The state that a step updates counts as its second result.
pub open spec fn place_writes(
    launch: Dispatch,
    limit: u64,
    place: int,
    result: int,
    element: int,
) -> bool {
    let given = numbers(launch.constants);
    match launch.kernel {
        Kernel::RmsNorm => result == 0 && place == 0 && 0 <= element < given[0],
        Kernel::RmsNormBf16Heads | Kernel::RmsNormHeads | Kernel::RmsNormGated => {
            let heads = given[0];
            let head_dim = given[1];
            result == 0 && place < heads && in_part(place, head_dim, element)
        },
        Kernel::Q4KEmbeddingRow | Kernel::Bf16EmbeddingRow => {
            let length = given[0];
            result == 0 && place < length && element == place
        },
        Kernel::Rope => {
            let heads = given[0];
            let pairs = given[1] / 2;
            let first = (place / pairs) * given[1] + (place % pairs) * 2;
            result == 0 && place < heads * pairs && first <= element <= first + 1
        },
        Kernel::CausalConv1dStep => {
            let channels = given[0];
            let kernel_size = given[1];
            place < channels && kernel_size >= 2 && if result == 0 {
                element == place
            } else {
                result == 1 && in_part(place, kernel_size - 1, element)
            }
        },
        Kernel::GatedDeltaStep | Kernel::GatedDeltaStepParallel => {
            let heads = given[0];
            let key_dim = given[1];
            let value_dim = given[2];
            let head = head_of(launch, limit, place);
            let matrix = key_dim * value_dim;
            head < heads && (launch.kernel == Kernel::GatedDeltaStep ==> value_dim <= 256) && if result
                == 0 {
                in_part(head, value_dim, element) && has_value(
                    launch,
                    limit,
                    place,
                    element - head * value_dim,
                )
            } else {
                result == 1 && in_part(head, matrix, element) && has_value(
                    launch,
                    limit,
                    place,
                    (element - head * matrix) % value_dim,
                )
            }
        },
        Kernel::AttentionDecode => {
            let head_dim = given[2];
            result == 0 && in_part(place, head_dim, element)
        },
        _ => false,
    }
}

/// Whether the thread at a place reads a value of one of its buffers for an
/// element of a result that it writes.
pub open spec fn place_reads(
    launch: Dispatch,
    limit: u64,
    place: int,
    result: int,
    element: int,
    buffer: int,
    index: int,
) -> bool {
    let given = numbers(launch.constants);
    match launch.kernel {
        Kernel::RmsNorm => if buffer == 0 {
            0 <= index < given[0]
        } else {
            buffer == 1 && index == element
        },
        Kernel::RmsNormBf16Heads | Kernel::RmsNormHeads => {
            let head_dim = given[1];
            if buffer == 0 {
                in_part(place, head_dim, index)
            } else {
                buffer == 1 && index == element - place * head_dim
            }
        },
        Kernel::RmsNormGated => {
            let head_dim = given[1];
            if buffer == 0 {
                in_part(place, head_dim, index)
            } else if buffer == 1 {
                index == element
            } else {
                buffer == 2 && index == element - place * head_dim
            }
        },
        Kernel::Q4KEmbeddingRow | Kernel::Bf16EmbeddingRow => buffer == 0 && index == element,
        Kernel::Rope => {
            let pairs = given[1] / 2;
            let first = (place / pairs) * given[1] + (place % pairs) * 2;
            buffer == 0 && first <= index <= first + 1
        },
        Kernel::CausalConv1dStep => {
            let kernel_size = given[1];
            if result == 0 {
                if buffer == 0 {
                    index == place
                } else if buffer == 1 {
                    in_part(place, kernel_size, index)
                } else {
                    buffer == 2 && in_part(place, kernel_size - 1, index)
                }
            } else if element + 1 == (place + 1) * (kernel_size - 1) {
                buffer == 0 && index == place
            } else {
                buffer == 2 && index == element + 1
            }
        },
        Kernel::GatedDeltaStep | Kernel::GatedDeltaStepParallel => {
            let key_dim = given[1];
            let value_dim = given[2];
            let head = head_of(launch, limit, place);
            let matrix = key_dim * value_dim;
            let value = if result == 0 {
                element - head * value_dim
            } else {
                (element - head * matrix) % value_dim
            };
            if buffer == 0 {
                result == 0 && in_part(head, key_dim, index)
            } else if buffer == 1 {
                in_part(head, key_dim, index)
            } else if buffer == 2 {
                index == head * value_dim + value
            } else if buffer == 3 || buffer == 4 {
                index == head
            } else {
                buffer == 5 && in_part(head, matrix, index) && (index - head * matrix) % value_dim
                    == value
            }
        },
        Kernel::AttentionDecode => {
            let group_size = given[0] / given[1];
            let head_dim = given[2];
            let cached_tokens = given[3];
            let capacity = given[4];
            let key_value_head = place / group_size;
            let dimension = element - place * head_dim;
            if buffer == 0 {
                in_part(place, head_dim, index)
            } else if buffer == 1 {
                exists|token: int|
                    0 <= token < cached_tokens && in_part(
                        #[trigger] token_place(key_value_head, capacity, token),
                        head_dim,
                        index,
                    )
            } else if buffer == 2 {
                exists|token: int|
                    0 <= token < cached_tokens && index == #[trigger] token_place(
                        key_value_head,
                        capacity,
                        token,
                    ) * head_dim + dimension
            } else if buffer == 3 {
                in_part(key_value_head, head_dim, index)
            } else {
                buffer == 4 && index == key_value_head * head_dim + dimension
            }
        },
        _ => false,
    }
}

/// The place of a head's token among the tokens of a cache.
pub open spec fn token_place(head: int, capacity: int, token: int) -> int {
    head * capacity + token
}

/// Whether a launch writes an element of a result.
pub open spec fn writes(launch: Dispatch, limit: u64, result: int, element: int) -> bool {
    exists|place: int|
        0 <= place < positions(launch, limit) && #[trigger] place_writes(
            launch,
            limit,
            place,
            result,
            element,
        )
}

/// Whether a launch reads a value of a buffer for an element of a result that it writes.
pub open spec fn reads(
    launch: Dispatch,
    limit: u64,
    result: int,
    element: int,
    buffer: int,
    index: int,
) -> bool {
    exists|place: int|
        0 <= place < positions(launch, limit) && #[trigger] place_writes(
            launch,
            limit,
            place,
            result,
            element,
        ) && place_reads(launch, limit, place, result, element, buffer, index)
}

/// Whether a launch gives its kernel all its constants, writes every value of
/// a result, each in one thread, and nothing else.
pub open spec fn fills(launch: Dispatch, limit: u64, result: int, values: int) -> bool {
    &&& numbers(launch.constants).len() == parameter_count(launch.kernel)
    &&& forall|element: int| #[trigger]
        writes(launch, limit, result, element) <==> 0 <= element < values
    &&& forall|element: int, first: int, second: int|
        0 <= first < positions(launch, limit) && 0 <= second < positions(launch, limit)
            && #[trigger] place_writes(launch, limit, first, result, element)
            && #[trigger] place_writes(launch, limit, second, result, element) ==> first == second
}

/// Whether a launch reads a value of what its kernel takes from a source, for
/// an element of a result.
pub open spec fn reads_from(
    launch: Dispatch,
    limit: u64,
    result: int,
    element: int,
    source: Source,
    index: int,
) -> bool {
    exists|buffer: int|
        0 <= buffer < wiring::kernel_sources(launch.kernel).len()
            && #[trigger] wiring::kernel_sources(launch.kernel)[buffer] == source && reads(
            launch,
            limit,
            result,
            element,
            buffer,
            index,
        )
}

/// Where one thread writes an element, what is read for it is what that thread reads.
pub proof fn lemma_reads_from(
    launch: Dispatch,
    limit: u64,
    result: int,
    values: int,
    place: int,
    element: int,
    buffer: int,
    index: int,
)
    requires
        fills(launch, limit, result, values),
        0 <= place < positions(launch, limit),
        place_writes(launch, limit, place, result, element),
        0 <= buffer < wiring::kernel_sources(launch.kernel).len(),
    ensures
        reads_from(
            launch,
            limit,
            result,
            element,
            wiring::kernel_sources(launch.kernel)[buffer],
            index,
        ) <==> place_reads(launch, limit, place, result, element, buffer, index),
{
    let sources = wiring::kernel_sources(launch.kernel);
    assert forall|other: int|
        0 <= other < sources.len() && #[trigger] sources[other] == sources[buffer] implies other
        == buffer by {}
    if place_reads(launch, limit, place, result, element, buffer, index) {
        assert(reads(launch, limit, result, element, buffer, index));
    }
}

} // verus!
