//! What the launches of matrix products put out.
use vstd::prelude::*;

use super::attention;
use super::fused;
use super::fused::FusedProjection;
use super::group;
use super::kernel::{Dispatch, Kernel, Switches};
use super::matvec;
use super::model;
use super::model::{Matrices, Product};
use super::plan;
use super::plan::PlanView;
use super::quantized;
use super::quantized::BatchMessages;
use super::quantized_groups;
use super::validate;
use super::weights;
use super::weights::{Bf16Weight, QuantWeight};
use super::wiring;
use super::wiring::Slot;
use crate::lossless::matrix;
use crate::quant;
use crate::quant::Quant;
use crate::tensor::{GgufTensorView, TensorView};
use crate::text;

verus! {

/// Whether a step is accepted and its sizes fit the kernels.
pub open spec fn is_launched(plan: Result<PlanView, Seq<char>>) -> bool {
    plan is Ok && plan->Ok_0.command is Ok
}

/// One of the launches of a step.
pub open spec fn launch_of(plan: Result<PlanView, Seq<char>>, index: int) -> Dispatch {
    plan->Ok_0.command->Ok_0[index]
}

/// The matrix of a step that has no other.
pub open spec fn only(rows: usize, columns: usize) -> Matrices {
    Matrices { first: 0, end: 1, rows: rows as int, columns: columns as int }
}

/// One of the matrices of a step.
pub open spec fn numbered(number: int, rows: usize, columns: usize) -> Matrices {
    Matrices { first: number, end: number + 1, rows: rows as int, columns: columns as int }
}

/// Whether a step is the product of one matrix with the vectors of a batch.
/// The kernel reads all of the matrix and all of the vectors, and for each
/// vector the products of all rows are read back.
pub open spec fn is_product_plan(
    plan: PlanView,
    limit: u64,
    rows: usize,
    columns: usize,
    batch: usize,
    weight_bytes: int,
    inputs: usize,
) -> bool {
    let launch = plan.command->Ok_0[0];
    &&& plan.command is Ok
    &&& plan.command->Ok_0.len() == 1
    &&& wiring::multiplies(launch.kernel)
    &&& model::is_product(launch, limit, 0, only(rows, columns), batch as int)
    &&& weight_bytes == model::weight_bytes(launch.kernel, rows * columns)
    &&& inputs == batch * columns
    &&& plan.buffers == seq![plan::value_bytes(batch * rows)]
    &&& plan.outputs.len() == batch
    &&& forall|vector: int|
        0 <= vector < batch ==> (#[trigger] plan.outputs[vector]) == rows && wiring::output_place(
            plan.wiring,
            vector,
            rows as int,
        ) == (Slot::Buffer(0), vector * rows)
}

/// A launch of one matrix whose constants are columns, rows and, where the
/// kernel takes several vectors, their number.
proof fn lemma_one_matrix(
    launch: Dispatch,
    limit: u64,
    rows: usize,
    columns: usize,
    batch: usize,
)
    requires
        wiring::multiplies(launch.kernel),
        model::numbers(launch.constants).len() == model::parameter_count(launch.kernel),
        model::numbers(launch.constants)[0] == columns,
        model::numbers(launch.constants)[1] == rows,
        model::vector_count(launch) == batch,
        model::reads_blocks(launch.kernel) ==> columns % 256 == 0,
        model::is_wide_enough(launch, limit),
        model::group_of(launch.kernel, rows - 1) < model::groups(launch, limit),
    ensures
        model::is_product(launch, limit, 0, only(rows, columns), batch as int),
{
    let counts = model::row_counts(launch);
    assert(wiring::kernel_sources(launch.kernel).len() == 2);
    assert(model::rows_before(counts, 1) == rows) by {
        reveal_with_fuel(model::rows_before, 2);
    }
    model::lemma_is_product(launch, limit, 0, only(rows, columns), batch as int);
}

/// Whether a step of `count` products has the product of this matrix in place
/// `index`: its launch takes the matrix in that place and the vector behind
/// all matrices, and the products of all rows are read back from the buffer in
/// that place.
pub open spec fn is_member_product(
    plan: PlanView,
    limit: u64,
    index: int,
    count: nat,
    rows: usize,
    columns: usize,
    weight_bytes: int,
    input: usize,
) -> bool {
    let launch = plan.command->Ok_0[index];
    let slots = wiring::launch_slots(plan.wiring, count as usize, index, launch.kernel);
    &&& plan.command is Ok
    &&& plan.command->Ok_0.len() == count
    &&& plan.outputs.len() == count
    &&& plan.buffers.len() == count
    &&& wiring::multiplies(launch.kernel)
    &&& model::is_product(launch, limit, 0, only(rows, columns), 1)
    &&& weight_bytes == model::weight_bytes(launch.kernel, rows * columns)
    &&& input == columns
    &&& slots == seq![
        Slot::Operand(index as usize),
        Slot::Operand(count as usize),
        Slot::Buffer(index as usize),
    ]
    &&& plan.outputs[index] == rows
    &&& plan.buffers[index] == plan::value_bytes(rows as int)
    &&& wiring::output_place(plan.wiring, index, rows as int) == (Slot::Buffer(index as usize), 0int)
}

/// Every product of a group of BF16 matrices puts out one value for each row
/// of its matrix.
pub proof fn law_bf16_group_products(
    matrices: Seq<(Bf16Weight, usize, usize)>,
    input: usize,
    limit: u64,
    index: int,
)
    requires
        is_launched(matvec::bf16_many_plan(matrices, input)),
        0 <= index < matrices.len(),
    ensures
        is_member_product(
            matvec::bf16_many_plan(matrices, input)->Ok_0,
            limit,
            index,
            matrices.len(),
            matrices[index].1,
            matrices[index].2,
            matrices[index].0.bytes as int,
            input,
        ),
{
    let planned = matvec::bf16_many_plan(matrices, input)->Ok_0;
    let (weight, rows, columns) = matrices[index];
    let outcomes = matvec::matrix_rows(matrices, input);
    let launches = matvec::matrix_launches(matrices);
    text::lemma_collected_values(outcomes);
    text::lemma_collected_values(launches);
    assert(outcomes[index] == matvec::bf16_matrix(matrices[index], input));
    assert(launches[index] == attention::bf16_matvec_launch(rows as int, columns as int));
    lemma_one_matrix(planned.command->Ok_0[index], limit, rows, columns, 1);
}

/// A product with a BF16 matrix puts out one value for each of its rows.
pub proof fn law_bf16_product(
    weight: Bf16Weight,
    rows: usize,
    columns: usize,
    input: usize,
    limit: u64,
)
    requires
        is_launched(matvec::bf16_matvec_buffer_plan(weight, rows, columns, input)),
    ensures
        is_product_plan(
            matvec::bf16_matvec_buffer_plan(weight, rows, columns, input)->Ok_0,
            limit,
            rows,
            columns,
            1,
            weight.bytes as int,
            input,
        ),
{
    let matrices = seq![(weight, rows, columns)];
    law_bf16_group_products(matrices, input, limit, 0);
    let planned = matvec::bf16_many_plan(matrices, input)->Ok_0;
    assert(planned.buffers =~= seq![plan::value_bytes(1 * rows)]);
    lemma_only_output(planned, rows);
}

/// The output of a step that has no other starts its buffer.
proof fn lemma_only_output(plan: PlanView, rows: usize)
    requires
        wiring::output_place(plan.wiring, 0, rows as int) == (Slot::Buffer(0), 0int),
    ensures
        forall|vector: int|
            0 <= vector < 1 ==> #[trigger] wiring::output_place(plan.wiring, vector, rows as int)
                == (Slot::Buffer(0), vector * rows),
{
    assert forall|vector: int| 0 <= vector < 1 implies #[trigger] wiring::output_place(
        plan.wiring,
        vector,
        rows as int,
    ) == (Slot::Buffer(0), vector * rows) by {
        assert(vector == 0);
        assert(vector * rows == 0) by (nonlinear_arith)
            requires
                vector == 0,
        ;
    }
}

/// A batched product with a BF16 matrix puts out, for each vector and row, the
/// product of that row with that vector.
pub proof fn law_bf16_batch_product(
    weight: Bf16Weight,
    rows: usize,
    columns: usize,
    batch: usize,
    inputs: usize,
    limit: u64,
)
    requires
        is_launched(
            matvec::bf16_matmul_many_plan(weight, rows, columns, batch, inputs, Some(limit)),
        ),
    ensures
        is_product_plan(
            matvec::bf16_matmul_many_plan(weight, rows, columns, batch, inputs, Some(limit))->Ok_0,
            limit,
            rows,
            columns,
            batch,
            weight.bytes as int,
            inputs,
        ),
{
    let plan = matvec::bf16_matmul_many_plan(weight, rows, columns, batch, inputs, Some(limit));
    lemma_one_matrix(launch_of(plan, 0), limit, rows, columns, batch);
    lemma_batch_outputs(plan->Ok_0, rows, batch);
}

/// The outputs of a batch stand one behind the other in one buffer.
proof fn lemma_batch_outputs(plan: PlanView, rows: usize, batch: usize)
    requires
        plan.wiring == wiring::Wiring::Batch(batch),
    ensures
        forall|vector: int|
            0 <= vector < batch ==> #[trigger] wiring::output_place(
                plan.wiring,
                vector,
                rows as int,
            ) == (Slot::Buffer(0), vector * rows),
{
    let count = batch as int;
    assert forall|vector: int| 0 <= vector < count implies #[trigger] wiring::output_place(
        plan.wiring,
        vector,
        rows as int,
    ) == (Slot::Buffer(0), vector * rows) by {
        assert(vector / count == 0 && vector % count == vector) by (nonlinear_arith)
            requires
                0 <= vector < count,
        ;
    }
}

/// The place of a row's value for one vector of a batch.
proof fn lemma_element(rows: int, batch: int, vector: int, row: int)
    requires
        0 <= vector < batch,
        0 <= row < rows,
    ensures
        0 <= vector * rows + row < batch * rows,
        (vector * rows + row) / rows == vector,
        (vector * rows + row) % rows == row,
{
    assert(0 <= vector * rows && vector * rows + rows <= batch * rows) by (nonlinear_arith)
        requires
            0 <= vector,
            vector + 1 <= batch,
            0 < rows,
    ;
    let element = vector * rows + row;
    assert(element / rows == vector && element % rows == row) by (nonlinear_arith)
        requires
            element == vector * rows + row,
            0 <= row < rows,
    ;
}

/// A product of a batch, as it stands in the product with one vector alone.
pub open spec fn of_vector(product: Product, vector: int, columns: usize) -> Product {
    Product { input: product.input - vector * columns, ..product }
}

/// Whether a launch for a batch adds up for a vector and a row what a launch
/// for that vector alone adds up for the row.
pub open spec fn is_separate_product(
    batched: Dispatch,
    limit: u64,
    single: Dispatch,
    single_limit: u64,
    rows: usize,
    columns: usize,
    vector: int,
    row: int,
    product: Product,
) -> bool {
    &&& model::puts_out(batched, limit, 0, vector * rows + row)
    &&& model::puts_out(single, single_limit, 0, row)
    &&& model::adds(batched, limit, 0, vector * rows + row, product) <==> model::adds(
        single,
        single_limit,
        0,
        row,
        of_vector(product, vector, columns),
    )
}

/// Whether a launch for a batch adds up for each vector and row what a launch
/// for that vector alone adds up for the row.
pub open spec fn is_separate_products(
    batched: Dispatch,
    limit: u64,
    single: Dispatch,
    single_limit: u64,
    rows: usize,
    columns: usize,
    batch: usize,
) -> bool {
    forall|vector: int, row: int, product: Product|
        0 <= vector < batch && 0 <= row < rows ==> #[trigger] is_separate_product(
            batched,
            limit,
            single,
            single_limit,
            rows,
            columns,
            vector,
            row,
            product,
        )
}

proof fn lemma_separate_product(
    batched: Dispatch,
    limit: u64,
    single: Dispatch,
    single_limit: u64,
    rows: usize,
    columns: usize,
    batch: usize,
    vector: int,
    row: int,
    product: Product,
)
    requires
        model::is_product(batched, limit, 0, only(rows, columns), batch as int),
        model::is_product(single, single_limit, 0, only(rows, columns), 1),
        wiring::multiplies(batched.kernel),
        wiring::multiplies(single.kernel),
        0 <= vector < batch,
        0 <= row < rows,
    ensures
        is_separate_product(
            batched,
            limit,
            single,
            single_limit,
            rows,
            columns,
            vector,
            row,
            product,
        ),
{
    lemma_element(rows as int, batch as int, vector, row);
    lemma_element(rows as int, 1, 0, row);
    let alone = of_vector(product, vector, columns);
    let element = vector * rows + row;
    assert(model::adds(batched, limit, 0, element, product) <==> model::belongs(
        batched.kernel,
        only(rows, columns),
        vector,
        row,
        product,
    ));
    assert(model::adds(single, single_limit, 0, row, alone) <==> model::belongs(
        single.kernel,
        only(rows, columns),
        0,
        row,
        alone,
    ));
    assert(0 * columns == 0);
}

proof fn lemma_separate_products(
    batched: Dispatch,
    limit: u64,
    single: Dispatch,
    single_limit: u64,
    rows: usize,
    columns: usize,
    batch: usize,
)
    requires
        model::is_product(batched, limit, 0, only(rows, columns), batch as int),
        model::is_product(single, single_limit, 0, only(rows, columns), 1),
        wiring::multiplies(batched.kernel),
        wiring::multiplies(single.kernel),
    ensures
        is_separate_products(batched, limit, single, single_limit, rows, columns, batch),
{
    assert forall|vector: int, row: int, product: Product|
        0 <= vector < batch && 0 <= row < rows implies #[trigger] is_separate_product(
        batched,
        limit,
        single,
        single_limit,
        rows,
        columns,
        vector,
        row,
        product,
    ) by {
        lemma_separate_product(
            batched,
            limit,
            single,
            single_limit,
            rows,
            columns,
            batch,
            vector,
            row,
            product,
        );
    }
}

/// A batched product with a BF16 matrix is launched only where the product
/// with one vector is, and gives the same values as one such product for each
/// vector.
pub proof fn law_bf16_batch_is_separate_products(
    weight: Bf16Weight,
    rows: usize,
    columns: usize,
    batch: usize,
    inputs: usize,
    limit: u64,
    single_limit: u64,
)
    requires
        is_launched(
            matvec::bf16_matmul_many_plan(weight, rows, columns, batch, inputs, Some(limit)),
        ),
    ensures
        ({
            let batched = matvec::bf16_matmul_many_plan(
                weight,
                rows,
                columns,
                batch,
                inputs,
                Some(limit),
            );
            let single = matvec::bf16_matvec_buffer_plan(weight, rows, columns, columns);
            &&& is_launched(single)
            &&& is_separate_products(
                launch_of(batched, 0),
                limit,
                launch_of(single, 0),
                single_limit,
                rows,
                columns,
                batch,
            )
        }),
{
    let batched = matvec::bf16_matmul_many_plan(weight, rows, columns, batch, inputs, Some(limit));
    let single = matvec::bf16_matvec_buffer_plan(weight, rows, columns, columns);
    let matrices = seq![(weight, rows, columns)];
    let outcomes = matvec::matrix_rows(matrices, columns);
    let launches = matvec::matrix_launches(matrices);
    assert(outcomes[0] == matvec::bf16_matrix(matrices[0], columns));
    assert(launches[0] == attention::bf16_matvec_launch(rows as int, columns as int));
    text::lemma_all_collected(outcomes);
    text::lemma_all_collected(launches);
    assert(is_launched(single));
    law_bf16_batch_product(weight, rows, columns, batch, inputs, limit);
    law_bf16_product(weight, rows, columns, columns, single_limit);
    lemma_separate_products(
        launch_of(batched, 0),
        limit,
        launch_of(single, 0),
        single_limit,
        rows,
        columns,
        batch,
    );
}

/// Whether a pipeline allows as many threads as the switches ask for.
pub open spec fn allows_rows(switches: Switches, limit: u64) -> bool {
    limit >= (if switches.rows4x128 {
        512int
    } else if switches.rows4 {
        128
    } else {
        0
    })
}

proof fn lemma_quant_bytes(format: Quant, kernel: Kernel, rows: usize, columns: usize)
    requires
        columns % 256 == 0,
        model::weight_bytes(kernel, 256) == quant::block_bytes_of(format),
        model::reads_blocks(kernel),
    ensures
        model::weight_bytes(kernel, rows * columns) == quant::quant_bytes(
            format,
            rows as int,
            columns as int,
        ),
{
    let blocks = columns as int / 256;
    let all = rows * blocks;
    assert(rows * columns == all * 256) by (nonlinear_arith)
        requires
            columns == blocks * 256,
            all == rows * blocks,
    ;
    assert((rows * columns) / 256 == all);
    let size = quant::block_bytes_of(format);
    assert(model::weight_bytes(kernel, rows * columns) == all * size);
    assert(rows * (blocks * size) == all * size) by (nonlinear_arith)
        requires
            all == rows * blocks,
    ;
}

/// A product with a block-quantized matrix puts out one value for each of its
/// rows, on a kernel that reads the matrix's own format.
pub proof fn law_quantized_product(
    format: Quant,
    weight_len: nat,
    rows: usize,
    columns: usize,
    input: usize,
    switches: Switches,
    limit: u64,
)
    requires
        is_launched(
            quantized::quant_matvec_plan(format, weight_len, rows, columns, input, switches),
        ),
        allows_rows(switches, limit),
    ensures
        is_product_plan(
            quantized::quant_matvec_plan(format, weight_len, rows, columns, input, switches)->Ok_0,
            limit,
            rows,
            columns,
            1,
            weight_len as int,
            input,
        ),
{
    let plan = quantized::quant_matvec_plan(format, weight_len, rows, columns, input, switches);
    let launch = launch_of(plan, 0);
    lemma_one_matrix(launch, limit, rows, columns, 1);
    lemma_quant_bytes(format, launch.kernel, rows, columns);
    lemma_only_output(plan->Ok_0, rows);
}

/// A product with a retained block-quantized matrix puts out one value for
/// each of its rows, on a kernel that reads the matrix's own format.
pub proof fn law_retained_product(
    weight: QuantWeight,
    rows: usize,
    columns: usize,
    input: usize,
    switches: Switches,
    limit: u64,
)
    requires
        is_launched(
            quantized::gguf_quant_matvec_weight_plan(weight, rows, columns, input, switches),
        ),
        allows_rows(switches, limit),
    ensures
        is_product_plan(
            quantized::gguf_quant_matvec_weight_plan(
                weight,
                rows,
                columns,
                input,
                switches,
            )->Ok_0,
            limit,
            rows,
            columns,
            1,
            weight.bytes as int,
            input,
        ),
{
    let plan = quantized::gguf_quant_matvec_weight_plan(weight, rows, columns, input, switches);
    let launch = launch_of(plan, 0);
    let format = quant::quant_of(weight.ggml_type)->Some_0;
    lemma_one_matrix(launch, limit, rows, columns, 1);
    lemma_quant_bytes(format, launch.kernel, rows, columns);
    lemma_only_output(plan->Ok_0, rows);
}

/// A batched product with a block-quantized matrix puts out, for each vector
/// and row, the product of that row with that vector.
pub proof fn law_quantized_batch_product(
    ggml_type: u32,
    weight_bytes: nat,
    retained: bool,
    rows: usize,
    columns: usize,
    batch: usize,
    inputs: usize,
    messages: BatchMessages,
    limit: u64,
)
    requires
        is_launched(
            quantized::matmul_many_plan(
                ggml_type,
                weight_bytes,
                retained,
                rows,
                columns,
                batch,
                inputs,
                messages,
            ),
        ),
        batch * columns <= usize::MAX,
    ensures
        is_product_plan(
            quantized::matmul_many_plan(
                ggml_type,
                weight_bytes,
                retained,
                rows,
                columns,
                batch,
                inputs,
                messages,
            )->Ok_0,
            limit,
            rows,
            columns,
            batch,
            weight_bytes as int,
            inputs,
        ),
{
    let plan = quantized::matmul_many_plan(
        ggml_type,
        weight_bytes,
        retained,
        rows,
        columns,
        batch,
        inputs,
        messages,
    );
    let launch = launch_of(plan, 0);
    let format = quant::quant_of(ggml_type)->Some_0;
    lemma_one_matrix(launch, limit, rows, columns, batch);
    lemma_quant_bytes(format, launch.kernel, rows, columns);
    lemma_batch_outputs(plan->Ok_0, rows, batch);
}

/// A product with an F32 matrix puts out one value for each of its rows.
pub proof fn law_f32_product(values: nat, rows: usize, columns: usize, input: usize, limit: u64)
    requires
        is_launched(matvec::f32_matvec_plan(values, rows, columns, input)),
    ensures
        is_product_plan(
            matvec::f32_matvec_plan(values, rows, columns, input)->Ok_0,
            limit,
            rows,
            columns,
            1,
            (values * 4) as int,
            input,
        ),
{
    let plan = matvec::f32_matvec_plan(values, rows, columns, input);
    lemma_one_matrix(launch_of(plan, 0), limit, rows, columns, 1);
    lemma_only_output(plan->Ok_0, rows);
}

/// A batched product with a block-quantized matrix gives the same values as
/// the product of the retained matrix with each vector alone.
pub proof fn law_quantized_batch_is_separate_products(
    weight: QuantWeight,
    rows: usize,
    columns: usize,
    batch: usize,
    inputs: usize,
    messages: BatchMessages,
    switches: Switches,
    limit: u64,
    single_limit: u64,
)
    requires
        is_launched(
            quantized::matmul_many_plan(
                weight.ggml_type,
                weight.bytes as nat,
                true,
                rows,
                columns,
                batch,
                inputs,
                messages,
            ),
        ),
        batch * columns <= usize::MAX,
        allows_rows(switches, single_limit),
    ensures
        ({
            let batched = quantized::matmul_many_plan(
                weight.ggml_type,
                weight.bytes as nat,
                true,
                rows,
                columns,
                batch,
                inputs,
                messages,
            );
            let single = quantized::gguf_quant_matvec_weight_plan(
                weight,
                rows,
                columns,
                columns,
                switches,
            );
            &&& is_launched(single)
            &&& is_separate_products(
                launch_of(batched, 0),
                limit,
                launch_of(single, 0),
                single_limit,
                rows,
                columns,
                batch,
            )
        }),
{
    law_quantized_batch_product(
        weight.ggml_type,
        weight.bytes as nat,
        true,
        rows,
        columns,
        batch,
        inputs,
        messages,
        limit,
    );
    law_retained_product(weight, rows, columns, columns, switches, single_limit);
    let batched = quantized::matmul_many_plan(
        weight.ggml_type,
        weight.bytes as nat,
        true,
        rows,
        columns,
        batch,
        inputs,
        messages,
    );
    let single = quantized::gguf_quant_matvec_weight_plan(weight, rows, columns, columns, switches);
    lemma_separate_products(
        launch_of(batched, 0),
        limit,
        launch_of(single, 0),
        single_limit,
        rows,
        columns,
        batch,
    );
}

/// A product on a kernel for single rows puts out one value for each row, if
/// the kernel reads the matrix's format.
pub proof fn law_single_row_product(
    format: Quant,
    kernel: Kernel,
    weight_len: nat,
    rows: usize,
    columns: usize,
    input: usize,
    switches: Switches,
    limit: u64,
)
    requires
        kernel == Kernel::Q4KMatvec || kernel == Kernel::Q5KMatvec || kernel == Kernel::Q6KMatvec,
        model::weight_bytes(kernel, 256) == quant::block_bytes_of(format),
        is_launched(
            quantized::quant_bytes_plan(
                format,
                kernel,
                weight_len,
                rows,
                columns,
                input,
                false,
                switches,
            ),
        ),
    ensures
        is_product_plan(
            quantized::quant_bytes_plan(
                format,
                kernel,
                weight_len,
                rows,
                columns,
                input,
                false,
                switches,
            )->Ok_0,
            limit,
            rows,
            columns,
            1,
            weight_len as int,
            input,
        ),
{
    let plan = quantized::quant_bytes_plan(
        format,
        kernel,
        weight_len,
        rows,
        columns,
        input,
        false,
        switches,
    );
    lemma_one_matrix(launch_of(plan, 0), limit, rows, columns, 1);
    lemma_quant_bytes(format, kernel, rows, columns);
    lemma_only_output(plan->Ok_0, rows);
}

/// Whether a launch puts out the gated product of two matrices of the same
/// rows and columns: each value is made of the row of both matrices.
pub open spec fn is_gated_product(
    launch: Dispatch,
    limit: u64,
    rows: usize,
    columns: usize,
    gate_bytes: int,
    up_bytes: int,
    input: usize,
) -> bool {
    &&& launch.kernel == Kernel::Q4KFusedGateUp
    &&& model::is_product(
        launch,
        limit,
        0,
        Matrices { first: 0, end: 2, rows: rows as int, columns: columns as int },
        1,
    )
    &&& gate_bytes == model::weight_bytes(launch.kernel, rows * columns)
    &&& up_bytes == model::weight_bytes(launch.kernel, rows * columns)
    &&& input == columns
}

proof fn lemma_gated_product(launch: Dispatch, limit: u64, rows: usize, columns: usize)
    requires
        rows > 0,
        columns % 256 == 0,
        launch.kernel == Kernel::Q4KFusedGateUp,
        model::numbers(launch.constants) == seq![columns as int, rows as int],
        model::width(launch, limit) >= 1,
        model::groups(launch, limit) == rows,
    ensures
        model::is_product(
            launch,
            limit,
            0,
            Matrices { first: 0, end: 2, rows: rows as int, columns: columns as int },
            1,
        ),
        model::weight_bytes(launch.kernel, rows * columns) == quant::quant_bytes(
            Quant::Q4K,
            rows as int,
            columns as int,
        ),
{
    assert(model::rows_before(model::row_counts(launch), 1) == rows) by {
        reveal_with_fuel(model::rows_before, 2);
    }
    model::lemma_is_product(
        launch,
        limit,
        0,
        Matrices { first: 0, end: 2, rows: rows as int, columns: columns as int },
        1,
    );
    lemma_quant_bytes(Quant::Q4K, launch.kernel, rows, columns);
}

/// A fused gate/up step puts out one gated value for each row of its matrices.
pub proof fn law_gated_product(
    gate_len: nat,
    up_len: nat,
    rows: usize,
    columns: usize,
    input: usize,
    switches: Switches,
    limit: u64,
)
    requires
        is_launched(
            quantized_groups::q4_k_fused_gate_up_plan(
                gate_len,
                up_len,
                rows,
                columns,
                input,
                switches,
            ),
        ),
    ensures
        ({
            let plan = quantized_groups::q4_k_fused_gate_up_plan(
                gate_len,
                up_len,
                rows,
                columns,
                input,
                switches,
            );
            &&& is_gated_product(
                launch_of(plan, 0),
                limit,
                rows,
                columns,
                gate_len as int,
                up_len as int,
                input,
            )
            &&& plan->Ok_0.command->Ok_0.len() == 1
            &&& plan->Ok_0.outputs == seq![rows]
            &&& plan->Ok_0.buffers == seq![plan::value_bytes(rows as int)]
            &&& wiring::output_place(plan->Ok_0.wiring, 0, rows as int) == (Slot::Buffer(0), 0int)
        }),
{
    let plan = quantized_groups::q4_k_fused_gate_up_plan(
        gate_len,
        up_len,
        rows,
        columns,
        input,
        switches,
    );
    lemma_gated_product(launch_of(plan, 0), limit, rows, columns);
}

/// A fused gate/up step with retained matrices puts out one gated value for
/// each of their rows.
pub proof fn law_retained_gated_product(
    gate: QuantWeight,
    up: QuantWeight,
    rows: usize,
    columns: usize,
    input: usize,
    switches: Switches,
    limit: u64,
)
    requires
        is_launched(
            quantized_groups::q4_k_fused_gate_up_weights_plan(
                gate,
                up,
                rows,
                columns,
                input,
                switches,
            ),
        ),
    ensures
        ({
            let plan = quantized_groups::q4_k_fused_gate_up_weights_plan(
                gate,
                up,
                rows,
                columns,
                input,
                switches,
            );
            &&& is_gated_product(
                launch_of(plan, 0),
                limit,
                rows,
                columns,
                gate.bytes as int,
                up.bytes as int,
                input,
            )
            &&& plan->Ok_0.command->Ok_0.len() == 1
            &&& plan->Ok_0.outputs == seq![rows]
            &&& plan->Ok_0.buffers == seq![plan::value_bytes(rows as int)]
            &&& wiring::output_place(plan->Ok_0.wiring, 0, rows as int) == (Slot::Buffer(0), 0int)
        }),
{
    let plan = quantized_groups::q4_k_fused_gate_up_weights_plan(
        gate,
        up,
        rows,
        columns,
        input,
        switches,
    );
    lemma_gated_product(launch_of(plan, 0), limit, rows, columns);
}

/// A fused MLP puts out the product of the down matrix with the gated product:
/// its first launch writes one value for each row of gate and up, which are
/// the columns of the down matrix, and its second launch reads these values
/// and writes one for each row of the down matrix.
pub proof fn law_mlp_product(
    gate: QuantWeight,
    up: QuantWeight,
    down: QuantWeight,
    gate_rows: usize,
    columns: usize,
    down_rows: usize,
    input: usize,
    switches: Switches,
    limit: u64,
    down_limit: u64,
)
    requires
        is_launched(
            quantized_groups::fused_mlp_plan(
                gate,
                up,
                down,
                gate_rows,
                columns,
                down_rows,
                input,
                switches,
            ),
        ),
        switches.rows4 ==> down_limit >= 128,
    ensures
        ({
            let plan = quantized_groups::fused_mlp_plan(
                gate,
                up,
                down,
                gate_rows,
                columns,
                down_rows,
                input,
                switches,
            );
            let first = launch_of(plan, 0);
            let second = launch_of(plan, 1);
            let wired = plan->Ok_0.wiring;
            let gated = wiring::launch_slots(wired, 2, 0, first.kernel);
            let projected = wiring::launch_slots(wired, 2, 1, second.kernel);
            &&& plan->Ok_0.command->Ok_0.len() == 2
            &&& is_gated_product(
                first,
                limit,
                gate_rows,
                columns,
                gate.bytes as int,
                up.bytes as int,
                input,
            )
            &&& wiring::multiplies(second.kernel)
            &&& model::is_product(second, down_limit, 0, only(down_rows, gate_rows), 1)
            &&& down.bytes == model::weight_bytes(second.kernel, down_rows * gate_rows)
            &&& gated[0] == Slot::Operand(0)
            &&& gated[1] == Slot::Operand(1)
            &&& gated[2] == Slot::Operand(3)
            &&& projected[0] == Slot::Operand(2)
            &&& projected[1] == gated[3]
            &&& plan->Ok_0.outputs == seq![down_rows]
            &&& wiring::output_place(wired, 0, down_rows as int) == (projected[2], 0int)
            &&& plan->Ok_0.buffers == seq![
                plan::value_bytes(gate_rows as int),
                plan::value_bytes(down_rows as int),
            ]
        }),
{
    let plan = quantized_groups::fused_mlp_plan(
        gate,
        up,
        down,
        gate_rows,
        columns,
        down_rows,
        input,
        switches,
    );
    let format = quant::quant_of(down.ggml_type)->Some_0;
    let launches = quantized_groups::fused_mlp_launches(
        format,
        gate_rows,
        columns,
        down_rows,
        switches,
    );
    text::lemma_collected_values(launches);
    assert(launches[0] is Ok && launches[1] is Ok);
    lemma_gated_product(launch_of(plan, 0), limit, gate_rows, columns);
    lemma_one_matrix(launch_of(plan, 1), down_limit, down_rows, gate_rows, 1);
    lemma_quant_bytes(format, launch_of(plan, 1).kernel, down_rows, gate_rows);
}

/// A product with a packed matrix puts out one value for each of its rows. The
/// offsets that the kernel reads for the tile of a row, and for the tile
/// behind it, are there.
pub proof fn law_packed_product(
    packed_len: nat,
    offsets: Seq<u32>,
    rows: usize,
    columns: usize,
    tile_rows: usize,
    input: usize,
    limit: u64,
    row: int,
)
    requires
        is_launched(
            matvec::bf16_bitpack_matvec_plan(
                packed_len,
                offsets,
                rows,
                columns,
                tile_rows,
                input,
                true,
            ),
        ),
        0 <= row < rows,
    ensures
        ({
            let plan = matvec::bf16_bitpack_matvec_plan(
                packed_len,
                offsets,
                rows,
                columns,
                tile_rows,
                input,
                true,
            );
            let launch = launch_of(plan, 0);
            let tile = row / model::numbers(launch.constants)[2];
            &&& plan->Ok_0.command->Ok_0.len() == 1
            &&& launch.kernel == Kernel::Bf16BitpackMatvec
            &&& model::is_product(launch, limit, 0, only(rows, columns), 1)
            &&& input == columns
            &&& tile == row / tile_rows as int
            &&& 0 <= tile && tile + 1 < offsets.len()
            &&& offsets[tile] <= offsets[tile + 1] <= packed_len
            &&& plan->Ok_0.outputs == seq![rows]
            &&& plan->Ok_0.buffers == seq![plan::value_bytes(rows as int)]
        }),
{
    let plan = matvec::bf16_bitpack_matvec_plan(
        packed_len,
        offsets,
        rows,
        columns,
        tile_rows,
        input,
        true,
    );
    let launch = launch_of(plan, 0);
    assert(model::rows_before(model::row_counts(launch), 1) == rows) by {
        reveal_with_fuel(model::rows_before, 2);
    }
    model::lemma_is_product(launch, limit, 0, only(rows, columns), 1);
    let size = tile_rows as int;
    let tiles = matrix::tile_count(rows as int, size);
    assert(rows <= tiles * size) by {
        let sum = rows + size - 1;
        vstd::arithmetic::div_mod::lemma_fundamental_div_mod(sum, size);
        vstd::arithmetic::div_mod::lemma_mod_bound(sum, size);
        assert(size * tiles == tiles * size) by (nonlinear_arith);
    }
    assert(0 <= row / size) by (nonlinear_arith)
        requires
            0 <= row,
            size > 0,
    ;
    assert(row / size < tiles) by (nonlinear_arith)
        requires
            0 <= row < rows,
            size > 0,
            rows <= tiles * size,
    ;
}

/// The members of a group are launched in their order.
proof fn lemma_member_launch(members: Seq<group::Member>, shared: group::Group, index: int)
    requires
        group::group_plan(members, shared).command is Ok,
        0 <= index < members.len(),
    ensures
        ({
            let planned = group::group_plan(members, shared);
            &&& planned.command->Ok_0.len() == members.len()
            &&& planned.outputs.len() == members.len()
            &&& planned.buffers.len() == members.len()
            &&& group::member_launch(members[index], shared) == Ok::<Dispatch, Seq<char>>(
                planned.command->Ok_0[index],
            )
            &&& planned.outputs[index] == members[index].rows
            &&& planned.buffers[index] == plan::value_bytes(members[index].rows as int)
        }),
{
    let launches = group::member_launches(members, shared);
    text::lemma_collected_values(launches);
    assert(launches[index] == group::member_launch(members[index], shared));
}

/// Every product of a group of mapped tensors puts out one value for each row
/// of its tensor, if the rows are whole blocks.
pub proof fn law_mapped_group_products(
    tensors: Seq<&GgufTensorView>,
    input: usize,
    bound: Seq<u64>,
    limit: u64,
    index: int,
)
    requires
        is_launched(quantized_groups::many_tensors_plan(tensors, input, bound)),
        0 <= index < tensors.len(),
        input % 256 == 0,
    ensures
        ({
            let plan = quantized_groups::many_tensors_plan(tensors, input, bound)->Ok_0;
            let rows = tensors[index].info.shape@[1];
            let bytes = model::weight_bytes(plan.command->Ok_0[index].kernel, rows * input);
            &&& is_member_product(
                plan,
                limit,
                index,
                tensors.len(),
                rows,
                tensors[index].info.shape@[0],
                bytes,
                input,
            )
            &&& bytes <= tensors[index].bytes@.len()
            &&& bytes <= bound[index]
            &&& model::weight_bytes(plan.command->Ok_0[index].kernel, 256)
                == quant::block_bytes_of(quant::quant_of(tensors[index].info.ggml_type)->Some_0)
        }),
{
    let outcomes = quantized_groups::mapped_members(tensors, input, bound);
    text::lemma_collected_values(outcomes);
    let members = text::collected(outcomes)->Ok_0;
    assert(outcomes[index] == quantized_groups::mapped_member(*tensors[index], input, bound[index]));
    lemma_member_launch(members, quantized_groups::mapped_group(input), index);
    let plan = quantized_groups::many_tensors_plan(tensors, input, bound)->Ok_0;
    let launch = plan.command->Ok_0[index];
    let rows = tensors[index].info.shape@[1];
    lemma_one_matrix(launch, limit, rows, input, 1);
    lemma_quant_bytes(
        quant::quant_of(tensors[index].info.ggml_type)->Some_0,
        launch.kernel,
        rows,
        input,
    );
}

/// Every product of a group of retained matrices puts out one value for each
/// row of its matrix.
pub proof fn law_retained_group_products(
    weights: Seq<(QuantWeight, usize, usize)>,
    input: usize,
    switches: Switches,
    limit: u64,
    index: int,
)
    requires
        is_launched(quantized_groups::many_weights_plan(weights, input, switches)),
        0 <= index < weights.len(),
        allows_rows(switches, limit),
    ensures
        is_member_product(
            quantized_groups::many_weights_plan(weights, input, switches)->Ok_0,
            limit,
            index,
            weights.len(),
            weights[index].1,
            weights[index].2,
            weights[index].0.bytes as int,
            input,
        ),
{
    let outcomes = quantized_groups::retained_members(weights, input, switches);
    text::lemma_collected_values(outcomes);
    let members = text::collected(outcomes)->Ok_0;
    assert(outcomes[index] == quantized_groups::retained_member(weights[index], input, switches));
    lemma_member_launch(members, quantized_groups::retained_group(input), index);
    let plan = quantized_groups::many_weights_plan(weights, input, switches)->Ok_0;
    let launch = plan.command->Ok_0[index];
    let rows = weights[index].1;
    lemma_one_matrix(launch, limit, rows, input, 1);
    lemma_quant_bytes(
        quant::quant_of(weights[index].0.ggml_type)->Some_0,
        launch.kernel,
        rows,
        input,
    );
}

/// Every product of a group of staged tensors puts out one value for each row
/// of its tensor, unless wide groups of threads are asked for and all tensors
/// have a format for them.
pub proof fn law_staged_group_products(
    tensors: Seq<(u32, &[u8], usize, usize)>,
    input: usize,
    switches: Switches,
    bound: Seq<u64>,
    limit: u64,
    index: int,
)
    requires
        is_launched(quantized_groups::many_bytes_plan(tensors, input, switches, bound)),
        0 <= index < tensors.len(),
        !quantized_groups::all_wide(tensors, switches),
        switches.rows4 ==> limit >= 128,
    ensures
        is_member_product(
            quantized_groups::many_bytes_plan(tensors, input, switches, bound)->Ok_0,
            limit,
            index,
            tensors.len(),
            tensors[index].2,
            tensors[index].3,
            tensors[index].1@.len() as int,
            input,
        ),
        tensors[index].1@.len() <= bound[index],
{
    let outcomes = quantized_groups::staged_members(tensors, input, switches, bound);
    text::lemma_collected_values(outcomes);
    let members = text::collected(outcomes)->Ok_0;
    assert(outcomes[index] == quantized_groups::staged_member(
        tensors[index],
        input,
        false,
        switches.rows4,
        bound[index],
    ));
    lemma_member_launch(members, quantized_groups::staged_group(input), index);
    let plan = quantized_groups::many_bytes_plan(tensors, input, switches, bound)->Ok_0;
    let launch = plan.command->Ok_0[index];
    let rows = tensors[index].2;
    lemma_one_matrix(launch, limit, rows, input, 1);
    lemma_quant_bytes(quant::quant_of(tensors[index].0)->Some_0, launch.kernel, rows, input);
}

/// Every product of a group of F32 tensors puts out one value for each row of
/// its tensor.
pub proof fn law_f32_group_products(
    tensors: Seq<&GgufTensorView>,
    input: usize,
    limit: u64,
    index: int,
)
    requires
        is_launched(quantized_groups::f32_many_plan(tensors, input)),
        0 <= index < tensors.len(),
    ensures
        is_member_product(
            quantized_groups::f32_many_plan(tensors, input)->Ok_0,
            limit,
            index,
            tensors.len(),
            tensors[index].info.shape@[1],
            tensors[index].info.shape@[0],
            tensors[index].bytes@.len() as int,
            input,
        ),
{
    let outcomes = quantized_groups::f32_members(tensors, input);
    text::lemma_collected_values(outcomes);
    let members = text::collected(outcomes)->Ok_0;
    assert(outcomes[index] == quantized_groups::f32_member(*tensors[index], input));
    lemma_member_launch(members, quantized_groups::f32_group(input), index);
    let plan = quantized_groups::f32_many_plan(tensors, input)->Ok_0;
    let launch = plan.command->Ok_0[index];
    lemma_one_matrix(launch, limit, tensors[index].info.shape@[1], input, 1);
}

/// Whether a launch of several matrices has the product of one of them as the
/// result of the same number.
pub open spec fn is_fused_product(
    plan: PlanView,
    limit: u64,
    index: int,
    matrix: (Bf16Weight, usize, usize),
    batch: int,
) -> bool {
    let launch = plan.command->Ok_0[0];
    &&& plan.command is Ok
    &&& plan.command->Ok_0.len() == 1
    &&& index < wiring::result_count(launch.kernel)
    &&& model::is_product(launch, limit, index, numbered(index, matrix.1, matrix.2), batch)
    &&& plan.buffers.len() == wiring::result_count(launch.kernel)
    &&& plan.buffers[index] == plan::value_bytes(batch * matrix.1)
    &&& plan.outputs.len() == batch * plan.buffers.len()
}

/// The groups of a launch of several matrices cover all their rows.
proof fn lemma_fused_launch(
    launch: Dispatch,
    limit: u64,
    index: int,
    matrices: Seq<(Bf16Weight, usize, usize)>,
    batch: int,
)
    requires
        0 <= index < matrices.len(),
        matrices.len() == wiring::result_count(launch.kernel),
        launch.kernel == Kernel::Bf16FusedQkv || launch.kernel == Kernel::Bf16FusedQkvMany
            || launch.kernel == Kernel::Bf16FusedGateUp || launch.kernel
            == Kernel::Bf16FusedGateUpMany,
        model::numbers(launch.constants).len() == model::parameter_count(launch.kernel),
        model::row_counts(launch) == matrices.map_values(
            |matrix: (Bf16Weight, usize, usize)| matrix.1 as int,
        ),
        model::column_count(launch) == matrices[index].2,
        model::vector_count(launch) == batch,
        model::is_wide_enough(launch, limit),
        model::groups(launch, limit) == fused::total_rows(fused::matrix_rows(matrices)),
    ensures
        model::is_product(
            launch,
            limit,
            index,
            numbered(index, matrices[index].1, matrices[index].2),
            batch,
        ),
{
    let counts = model::row_counts(launch);
    lemma_total_rows(matrices, matrices.len() as int);
    assert(fused::matrix_rows(matrices).take(matrices.len() as int) =~= fused::matrix_rows(
        matrices,
    ));
    model::lemma_is_product(
        launch,
        limit,
        index,
        numbered(index, matrices[index].1, matrices[index].2),
        batch,
    );
}

proof fn lemma_total_rows(matrices: Seq<(Bf16Weight, usize, usize)>, count: int)
    requires
        0 <= count <= matrices.len(),
    ensures
        model::rows_before(
            matrices.map_values(|matrix: (Bf16Weight, usize, usize)| matrix.1 as int),
            count,
        ) == fused::total_rows(fused::matrix_rows(matrices).take(count)),
    decreases count,
{
    let rows = fused::matrix_rows(matrices);
    if count > 0 {
        lemma_total_rows(matrices, count - 1);
        assert(rows.take(count).drop_last() =~= rows.take(count - 1));
    }
}

/// A fused projection puts out for each of its matrices the product with the
/// vector, in an output of its own.
pub proof fn law_fused_products(
    kind: FusedProjection,
    matrices: Seq<(Bf16Weight, usize, usize)>,
    input: usize,
    limit: u64,
    index: int,
)
    requires
        is_launched(fused::fused_plan(kind, matrices, input)),
        0 <= index < matrices.len(),
    ensures
        ({
            let plan = fused::fused_plan(kind, matrices, input)->Ok_0;
            &&& is_fused_product(plan, limit, index, matrices[index], 1)
            &&& input == matrices[index].2
            &&& plan.outputs[index] == matrices[index].1
            &&& wiring::output_place(plan.wiring, index, matrices[index].1 as int) == (
                Slot::Buffer(index as usize),
                0int,
            )
        }),
{
    let plan = fused::fused_plan(kind, matrices, input)->Ok_0;
    let launch = plan.command->Ok_0[0];
    let shapes = fused::matrix_shapes(matrices);
    let outcomes = shapes.map_values(
        |shape: (usize, usize)| validate::fused_shape(shape, input as int),
    );
    text::lemma_collected_values(outcomes);
    assert(outcomes[index] == validate::fused_shape(shapes[index], input as int));
    assert(outcomes[0] == validate::fused_shape(shapes[0], input as int));
    let rows = fused::matrix_rows(matrices);
    assert(fused::total_rows(rows) == if kind == FusedProjection::Qkv {
        rows[0] + rows[1] + rows[2]
    } else {
        rows[0] + rows[1]
    }) by {
        reveal_with_fuel(fused::total_rows, 4);
    }
    assert(model::row_counts(launch) =~= matrices.map_values(
        |matrix: (Bf16Weight, usize, usize)| matrix.1 as int,
    ));
    lemma_fused_launch(launch, limit, index, matrices, 1);
}

/// A batched fused projection puts out for each of its matrices the product
/// with every vector.
pub proof fn law_batched_fused_products(
    kind: FusedProjection,
    matrices: Seq<(Bf16Weight, usize, usize)>,
    batch: usize,
    inputs: usize,
    limit: u64,
    index: int,
)
    requires
        is_launched(fused::fused_many_plan(kind, matrices, batch, inputs, Some(limit))),
        0 <= index < matrices.len(),
    ensures
        ({
            let plan = fused::fused_many_plan(kind, matrices, batch, inputs, Some(limit))->Ok_0;
            &&& is_fused_product(plan, limit, index, matrices[index], batch as int)
            &&& inputs == batch * matrices[index].2
            &&& matrices[index].0.bytes == model::weight_bytes(
                plan.command->Ok_0[0].kernel,
                matrices[index].1 * matrices[index].2,
            )
        }),
{
    let plan = fused::fused_many_plan(kind, matrices, batch, inputs, Some(limit))->Ok_0;
    let launch = plan.command->Ok_0[0];
    let shapes = fused::matrix_shapes(matrices);
    let columns = fused::candidate_columns(inputs as int, batch as int);
    let outcomes = shapes.map_values(|shape: (usize, usize)| validate::fused_shape(shape, columns));
    text::lemma_collected_values(outcomes);
    assert(outcomes[index] == validate::fused_shape(shapes[index], columns));
    let owed = fused::many_weights(matrices);
    text::lemma_collected_values(owed);
    assert(owed[index] == fused::many_weight(matrices[index]));
    let rows = fused::matrix_rows(matrices);
    let sizes = fused::many_outputs(rows, batch);
    text::lemma_collected_values(sizes);
    assert(sizes[index] == fused::many_output(rows[index], batch));
    assert(fused::total_rows(rows) == if kind == FusedProjection::Qkv {
        rows[0] + rows[1] + rows[2]
    } else {
        rows[0] + rows[1]
    }) by {
        reveal_with_fuel(fused::total_rows, 4);
    }
    assert(forall|i: int| 0 <= i < rows.len() ==> (#[trigger] rows[i]) <= u32::MAX);
    assert(model::row_counts(launch) =~= matrices.map_values(
        |matrix: (Bf16Weight, usize, usize)| matrix.1 as int,
    ));
    lemma_fused_launch(launch, limit, index, matrices, batch as int);
    fused::lemma_candidate_count(rows, batch);
    assert(matrices.len() * batch == batch * matrices.len()) by (nonlinear_arith);
    let each = matrices[index].2 as int;
    assert(inputs == batch * each) by (nonlinear_arith)
        requires
            inputs % batch == 0,
            each == inputs as int / batch as int,
            batch >= 1,
    ;
}

/// A product of one of the matrices of a fused projection, as it stands in the
/// product with that matrix alone.
pub open spec fn alone(product: Product) -> Product {
    Product { matrix: 0, vector: 1, ..product }
}

proof fn lemma_fused_is_separate_products(
    fused_launch: Dispatch,
    fused_limit: u64,
    index: int,
    single: Dispatch,
    limit: u64,
    rows: usize,
    columns: usize,
    batch: int,
    element: int,
    product: Product,
)
    requires
        fused_launch.kernel == Kernel::Bf16FusedQkv || fused_launch.kernel
            == Kernel::Bf16FusedQkvMany || fused_launch.kernel == Kernel::Bf16FusedGateUp
            || fused_launch.kernel == Kernel::Bf16FusedGateUpMany,
        0 <= index < wiring::result_count(fused_launch.kernel),
        wiring::multiplies(single.kernel),
        model::is_product(
            fused_launch,
            fused_limit,
            index,
            numbered(index, rows, columns),
            batch,
        ),
        model::is_product(single, limit, 0, only(rows, columns), batch),
        product.matrix == index,
        product.vector == wiring::result_count(fused_launch.kernel),
    ensures
        model::adds(fused_launch, fused_limit, index, element, product) <==> model::adds(
            single,
            limit,
            0,
            element,
            alone(product),
        ),
{
    let inside = 0 <= element < batch * rows;
    assert(model::puts_out(fused_launch, fused_limit, index, element) <==> inside);
    assert(model::puts_out(single, limit, 0, element) <==> inside);
    if inside {
        let vector = element / rows as int;
        let row = element % rows as int;
        assert(model::adds(fused_launch, fused_limit, index, element, product) <==> model::belongs(
            fused_launch.kernel,
            numbered(index, rows, columns),
            vector,
            row,
            product,
        ));
        assert(model::adds(single, limit, 0, element, alone(product)) <==> model::belongs(
            single.kernel,
            only(rows, columns),
            vector,
            row,
            alone(product),
        ));
    }
}

/// What a fused projection adds up for a row of one of its matrices is what
/// the product of that matrix alone adds up for the row.
pub proof fn law_fused_is_separate_products(
    kind: FusedProjection,
    matrices: Seq<(Bf16Weight, usize, usize)>,
    input: usize,
    fused_limit: u64,
    limit: u64,
    index: int,
    row: int,
    product: Product,
)
    requires
        is_launched(fused::fused_plan(kind, matrices, input)),
        is_launched(matvec::bf16_many_plan(matrices, input)),
        0 <= index < matrices.len(),
        product.matrix == index,
        product.vector == matrices.len(),
    ensures
        model::adds(
            launch_of(fused::fused_plan(kind, matrices, input), 0),
            fused_limit,
            index,
            row,
            product,
        ) <==> model::adds(
            launch_of(matvec::bf16_many_plan(matrices, input), index),
            limit,
            0,
            row,
            alone(product),
        ),
{
    law_fused_products(kind, matrices, input, fused_limit, index);
    law_bf16_group_products(matrices, input, limit, index);
    lemma_fused_is_separate_products(
        launch_of(fused::fused_plan(kind, matrices, input), 0),
        fused_limit,
        index,
        launch_of(matvec::bf16_many_plan(matrices, input), index),
        limit,
        matrices[index].1,
        matrices[index].2,
        1,
        row,
        product,
    );
}

/// What a batched fused projection adds up for a vector and a row of one of
/// its matrices is what the batched product of that matrix alone adds up.
pub proof fn law_batched_fused_is_separate_products(
    kind: FusedProjection,
    matrices: Seq<(Bf16Weight, usize, usize)>,
    batch: usize,
    inputs: usize,
    fused_limit: u64,
    limit: u64,
    index: int,
    element: int,
    product: Product,
)
    requires
        is_launched(fused::fused_many_plan(kind, matrices, batch, inputs, Some(fused_limit))),
        0 <= index < matrices.len(),
        is_launched(fused::batched_product(matrices[index], batch, inputs, limit)),
        product.matrix == index,
        product.vector == matrices.len(),
    ensures
        model::adds(
            launch_of(fused::fused_many_plan(kind, matrices, batch, inputs, Some(fused_limit)), 0),
            fused_limit,
            index,
            element,
            product,
        ) <==> model::adds(
            launch_of(fused::batched_product(matrices[index], batch, inputs, limit), 0),
            limit,
            0,
            element,
            alone(product),
        ),
{
    let (weight, rows, columns) = matrices[index];
    law_batched_fused_products(kind, matrices, batch, inputs, fused_limit, index);
    law_bf16_batch_product(weight, rows, columns, batch, inputs, limit);
    lemma_fused_is_separate_products(
        launch_of(fused::fused_many_plan(kind, matrices, batch, inputs, Some(fused_limit)), 0),
        fused_limit,
        index,
        launch_of(fused::batched_product(matrices[index], batch, inputs, limit), 0),
        limit,
        rows,
        columns,
        batch as int,
        element,
        product,
    );
}

/// A product with some rows of a block-quantized tensor reads the bytes of
/// these rows, behind those of the rows before them, and puts out one value
/// for each of them.
pub proof fn law_quantized_rows_product(
    format: Quant,
    tensor: GgufTensorView,
    row_start: usize,
    row_count: usize,
    input: usize,
    switches: Switches,
    limit: u64,
)
    requires
        ({
            let slice = quantized::quant_rows_plan(
                format,
                tensor,
                row_start,
                row_count,
                input,
                switches,
            );
            slice is Ok && slice->Ok_0.plan.command is Ok
        }),
        allows_rows(switches, limit),
    ensures
        ({
            let slice = quantized::quant_rows_plan(
                format,
                tensor,
                row_start,
                row_count,
                input,
                switches,
            )->Ok_0;
            let columns = tensor.info.shape@[0];
            let kernel = slice.plan.command->Ok_0[0].kernel;
            &&& slice.start == model::weight_bytes(kernel, row_start * columns)
            &&& slice.end == model::weight_bytes(kernel, (row_start + row_count) * columns)
            &&& slice.end <= tensor.bytes@.len()
            &&& row_start + row_count <= tensor.info.shape@[1]
            &&& is_product_plan(
                slice.plan,
                limit,
                row_count,
                columns,
                1,
                slice.end - slice.start,
                input,
            )
        }),
{
    let slice = quantized::quant_rows_plan(
        format,
        tensor,
        row_start,
        row_count,
        input,
        switches,
    )->Ok_0;
    let columns = tensor.info.shape@[0];
    let row_bytes = quant::quant_row_bytes(format, columns as int);
    let len = (row_count * row_bytes) as nat;
    law_quantized_product(format, len, row_count, columns, input, switches, limit);
    let kernel = slice.plan.command->Ok_0[0].kernel;
    let end = (row_start + row_count) as usize;
    lemma_quant_bytes(format, kernel, row_start, columns);
    lemma_quant_bytes(format, kernel, end, columns);
    let blocks = columns as int / 256;
    let size = quant::block_bytes_of(format);
    assert(row_start * blocks * size == row_start * (blocks * size)) by (nonlinear_arith);
    assert(end * blocks * size == row_start * (blocks * size) + row_count * (blocks * size))
        by (nonlinear_arith)
        requires
            end == row_start + row_count,
    ;
}

/// A product with some rows of an F32 tensor reads the bytes of these rows,
/// behind those of the rows before them, and puts out one value for each of them.
pub proof fn law_f32_rows_product(
    tensor: GgufTensorView,
    address: int,
    row_start: usize,
    row_count: usize,
    input: usize,
    limit: u64,
)
    requires
        ({
            let slice = matvec::f32_rows_plan(tensor, address, row_start, row_count, input);
            slice is Ok && slice->Ok_0.plan.command is Ok
        }),
    ensures
        ({
            let slice = matvec::f32_rows_plan(
                tensor,
                address,
                row_start,
                row_count,
                input,
            )->Ok_0;
            let columns = tensor.info.shape@[0];
            &&& slice.start == row_start * columns * 4
            &&& slice.end == (row_start + row_count) * columns * 4
            &&& slice.end <= tensor.bytes@.len()
            &&& row_start + row_count <= tensor.info.shape@[1]
            &&& slice.start < slice.end ==> (address + slice.start) % 4 == 0
            &&& is_product_plan(
                slice.plan,
                limit,
                row_count,
                columns,
                1,
                slice.end - slice.start,
                input,
            )
        }),
{
    let columns = tensor.info.shape@[0];
    let values = (row_count * columns) as nat;
    law_f32_product(values, row_count, columns, input, limit);
    let row_bytes = columns * 4;
    assert(row_start * row_bytes == row_start * columns * 4) by (nonlinear_arith)
        requires
            row_bytes == columns * 4,
    ;
    assert(row_count * row_bytes == row_count * columns * 4) by (nonlinear_arith)
        requires
            row_bytes == columns * 4,
    ;
    assert((row_start + row_count) * columns * 4 == row_start * columns * 4 + row_count * columns
        * 4) by (nonlinear_arith);
}

/// A product with a BF16 tensor multiplies a matrix of the tensor's shape.
pub proof fn law_bf16_tensor_product(
    tensor: TensorView,
    weight: Bf16Weight,
    input: usize,
    limit: u64,
)
    requires
        is_launched(matvec::bf16_matvec_tensor_plan(tensor, Ok(weight), input)),
    ensures
        is_product_plan(
            matvec::bf16_matvec_tensor_plan(tensor, Ok(weight), input)->Ok_0,
            limit,
            tensor.info.shape@[0],
            tensor.info.shape@[1],
            1,
            weight.bytes as int,
            input,
        ),
{
    law_bf16_product(weight, tensor.info.shape@[0], tensor.info.shape@[1], input, limit);
}

/// A batched product with a BF16 tensor multiplies a matrix of the tensor's shape.
pub proof fn law_bf16_batch_tensor_product(
    tensor: TensorView,
    weight: Bf16Weight,
    batch: usize,
    inputs: usize,
    limit: u64,
)
    requires
        is_launched(
            matvec::bf16_matmul_many_tensor_plan(tensor, Ok(weight), batch, inputs, Some(limit)),
        ),
    ensures
        is_product_plan(
            matvec::bf16_matmul_many_tensor_plan(
                tensor,
                Ok(weight),
                batch,
                inputs,
                Some(limit),
            )->Ok_0,
            limit,
            tensor.info.shape@[0],
            tensor.info.shape@[1],
            batch,
            weight.bytes as int,
            inputs,
        ),
{
    let (rows, columns) = (tensor.info.shape@[0], tensor.info.shape@[1]);
    law_bf16_batch_product(weight, rows, columns, batch, inputs, limit);
}

/// A product with some rows of a BF16 tensor reads the bytes of these rows,
/// behind those of the rows before them, and puts out one value for each of them.
pub proof fn law_bf16_rows_product(
    tensor: TensorView,
    input: usize,
    row_start: usize,
    row_count: usize,
    weight: Bf16Weight,
    limit: u64,
)
    requires
        ({
            let slice = matvec::bf16_matvec_tensor_rows_plan(
                tensor,
                input,
                row_start,
                row_count,
                Ok(weight),
            );
            slice is Ok && slice->Ok_0.plan.command is Ok
        }),
    ensures
        ({
            let slice = matvec::bf16_matvec_tensor_rows_plan(
                tensor,
                input,
                row_start,
                row_count,
                Ok(weight),
            )->Ok_0;
            let columns = tensor.info.shape@[1];
            &&& slice.start == row_start * columns * 2
            &&& slice.end == (row_start + row_count) * columns * 2
            &&& slice.end <= tensor.bytes@.len()
            &&& row_start + row_count <= tensor.info.shape@[0]
            &&& weight.bytes == slice.end - slice.start
            &&& is_product_plan(
                slice.plan,
                limit,
                row_count,
                columns,
                1,
                weight.bytes as int,
                input,
            )
        }),
{
    let columns = tensor.info.shape@[1];
    let row_bytes = columns * 2;
    law_bf16_product(weight, row_count, columns, input, limit);
    assert(row_start * row_bytes == row_start * columns * 2) by (nonlinear_arith)
        requires
            row_bytes == columns * 2,
    ;
    assert(row_count * row_bytes == row_count * columns * 2) by (nonlinear_arith)
        requires
            row_bytes == columns * 2,
    ;
    assert(0 <= row_start * columns && 0 <= row_count * columns) by (nonlinear_arith);
    assert((row_start + row_count) * columns * 2 == row_start * columns * 2 + row_count * columns
        * 2) by (nonlinear_arith);
}

/// Bound tensors are matrices of their own weights and shapes, in their order.
proof fn lemma_bound_matrices(
    tensors: Seq<&TensorView>,
    bound: Seq<Result<Bf16Weight, String>>,
    columns: int,
    index: int,
)
    requires
        bound.len() == tensors.len(),
        0 <= index < tensors.len(),
        validate::tensor_batch(tensors, columns) is Ok,
        matvec::bound_matrices(bound, validate::tensor_batch(tensors, columns)->Ok_0) is Ok,
    ensures
        ({
            let shapes = validate::tensor_batch(tensors, columns)->Ok_0;
            let matrices = matvec::bound_matrices(bound, shapes)->Ok_0;
            &&& bound[index] is Ok
            &&& matrices.len() == tensors.len()
            &&& matrices[index] == (
                bound[index]->Ok_0,
                tensors[index].info.shape@[0],
                tensors[index].info.shape@[1],
            )
        }),
{
    validate::law_tensor_shapes(tensors, columns, index);
    let outcomes = matvec::bound_outcomes(bound);
    text::lemma_collected_values(outcomes);
    assert(outcomes[index] == text::outcome(bound[index]));
}

/// Every product of a group of BF16 tensors multiplies a matrix of its
/// tensor's shape by the vector, from the weight that was bound for it.
pub proof fn law_bf16_tensor_group_products(
    tensors: Seq<&TensorView>,
    bound: Seq<Result<Bf16Weight, String>>,
    input: usize,
    limit: u64,
    index: int,
)
    requires
        bound.len() == tensors.len(),
        0 <= index < tensors.len(),
        is_launched(matvec::bf16_many_tensors_plan(tensors, bound, input)),
    ensures
        bound[index] is Ok,
        is_member_product(
            matvec::bf16_many_tensors_plan(tensors, bound, input)->Ok_0,
            limit,
            index,
            tensors.len(),
            tensors[index].info.shape@[0],
            tensors[index].info.shape@[1],
            bound[index]->Ok_0.bytes as int,
            input,
        ),
{
    let shapes = validate::tensor_batch(tensors, input as int)->Ok_0;
    let matrices = matvec::bound_matrices(bound, shapes)->Ok_0;
    lemma_bound_matrices(tensors, bound, input as int, index);
    law_bf16_group_products(matrices, input, limit, index);
}

/// A fused projection of tensors puts out for each of them the product of a
/// matrix of its shape, from the weight that was bound for it.
pub proof fn law_fused_tensor_products(
    kind: FusedProjection,
    tensors: Seq<&TensorView>,
    bound: Seq<Result<Bf16Weight, String>>,
    input: usize,
    limit: u64,
    index: int,
)
    requires
        bound.len() == tensors.len(),
        0 <= index < tensors.len(),
        is_launched(fused::fused_tensors_plan(kind, tensors, bound, input)),
    ensures
        bound[index] is Ok,
        is_fused_product(
            fused::fused_tensors_plan(kind, tensors, bound, input)->Ok_0,
            limit,
            index,
            (
                bound[index]->Ok_0,
                tensors[index].info.shape@[0],
                tensors[index].info.shape@[1],
            ),
            1,
        ),
{
    let shapes = validate::tensor_batch(tensors, input as int)->Ok_0;
    let matrices = matvec::bound_matrices(bound, shapes)->Ok_0;
    lemma_bound_matrices(tensors, bound, input as int, index);
    law_fused_products(kind, matrices, input, limit, index);
}

/// A batched fused projection of tensors puts out for each of them the product
/// of a matrix of its shape with every vector.
pub proof fn law_batched_fused_tensor_products(
    kind: FusedProjection,
    tensors: Seq<&TensorView>,
    bound: Seq<Result<Bf16Weight, String>>,
    batch: usize,
    inputs: usize,
    limit: u64,
    index: int,
)
    requires
        bound.len() == tensors.len(),
        0 <= index < tensors.len(),
        is_launched(
            fused::fused_many_tensors_plan(kind, tensors, bound, batch, inputs, Some(limit)),
        ),
    ensures
        bound[index] is Ok,
        is_fused_product(
            fused::fused_many_tensors_plan(
                kind,
                tensors,
                bound,
                batch,
                inputs,
                Some(limit),
            )->Ok_0,
            limit,
            index,
            (
                bound[index]->Ok_0,
                tensors[index].info.shape@[0],
                tensors[index].info.shape@[1],
            ),
            batch as int,
        ),
{
    let columns = inputs as int / batch as int;
    let shapes = validate::tensor_batch(tensors, columns)->Ok_0;
    let matrices = matvec::bound_matrices(bound, shapes)->Ok_0;
    lemma_bound_matrices(tensors, bound, columns, index);
    law_batched_fused_products(kind, matrices, batch, inputs, limit, index);
}

/// A fused projection of byte matrices puts out for each of them the product
/// of its rows and columns, from the weight that its bytes gave.
pub proof fn law_fused_byte_products(
    kind: FusedProjection,
    matrices: Seq<(nat, usize, usize)>,
    bound: Seq<(u64, u64)>,
    input: usize,
    limit: u64,
    index: int,
)
    requires
        0 <= index < matrices.len(),
        is_launched(fused::fused_bytes_plan(kind, matrices, bound, input)),
    ensures
        ({
            let (bytes, rows, columns) = matrices[index];
            let weight = weights::mapped_weight(bytes, bound[index].0, bound[index].1);
            &&& weight is Ok
            &&& is_fused_product(
                fused::fused_bytes_plan(kind, matrices, bound, input)->Ok_0,
                limit,
                index,
                (weight->Ok_0, rows, columns),
                1,
            )
        }),
{
    let outcomes = fused::mapped_weights(matrices, bound);
    text::lemma_collected_values(outcomes);
    assert(outcomes[index] == weights::mapped_weight(
        matrices[index].0,
        bound[index].0,
        bound[index].1,
    ));
    let mapped = fused::mapped_matrices(matrices, bound)->Ok_0;
    law_fused_products(kind, mapped, input, limit, index);
}

} // verus!
