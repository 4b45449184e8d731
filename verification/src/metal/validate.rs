//! Checks on shapes, byte lengths and settings.
use vstd::prelude::*;

use crate::tensor;
use crate::tensor::TensorView;
use crate::text;

verus! {

/// The shape of a BF16 matrix that multiplies a vector of `input_len` values,
/// or what is wrong with the tensor.
pub open spec fn matvec_shape(tensor: TensorView, input_len: int) -> Result<
    (usize, usize),
    Seq<char>,
> {
    let info = *tensor.info;
    let rows = info.shape@[0];
    let columns = info.shape@[1];
    if !tensor::is_bf16_matrix(info) {
        Err("tensor "@ + info.name@ + " must be a rank-2 BF16 matrix"@)
    } else if rows * columns > usize::MAX || rows * columns * 2 > usize::MAX {
        Err("BF16 matrix dimensions overflow"@)
    } else if rows == 0 || columns == 0 || tensor.bytes@.len() != rows * columns * 2 {
        Err("tensor "@ + info.name@ + " has invalid matrix dimensions or byte length"@)
    } else if input_len != columns {
        Err(
            "tensor "@ + info.name@ + " input length "@ + text::decimal(input_len as nat)
                + " does not match columns "@ + text::decimal(columns as nat),
        )
    } else {
        Ok((rows, columns))
    }
}

pub open spec fn matvec_shapes(tensors: Seq<&TensorView>, input_len: int) -> Seq<
    Result<(usize, usize), Seq<char>>,
> {
    tensors.map_values(|tensor: &TensorView| matvec_shape(*tensor, input_len))
}

pub open spec fn tensor_batch(tensors: Seq<&TensorView>, input_len: int) -> Result<
    Seq<(usize, usize)>,
    Seq<char>,
> {
    if tensors.len() == 0 {
        Err("batched BF16 tensor list must be non-empty"@)
    } else {
        text::collected(matvec_shapes(tensors, input_len))
    }
}

pub open spec fn tensor_many(tensors: Seq<&TensorView>, batch: int, input_len: int) -> Result<
    Seq<(usize, usize)>,
    Seq<char>,
> {
    if !(1 <= batch <= 8) {
        Err("batched BF16 tensor list supports between one and eight candidates"@)
    } else if input_len == 0 || input_len % batch != 0 {
        Err("batched BF16 input length must be a non-zero batch multiple"@)
    } else {
        tensor_batch(tensors, input_len / batch)
    }
}

/// `elements * 2` where it fits a machine-sized number, which the number of
/// elements must do too.
pub fn checked_bf16_bytes(rows: usize, columns: usize) -> (bytes: Option<usize>)
    ensures
        match bytes {
            Some(bytes) => bytes == rows * columns * 2,
            None => rows * columns * 2 > usize::MAX,
        },
        rows * columns >= 0,
        rows * columns > usize::MAX ==> bytes is None,
{
    assert(rows * columns >= 0) by (nonlinear_arith);
    match rows.checked_mul(columns) {
        Some(elements) => elements.checked_mul(2),
        None => None,
    }
}

fn check_matvec_tensor(tensor: &TensorView, input_len: usize) -> (result: Result<
    (usize, usize),
    String,
>)
    ensures
        text::outcome(result) == matvec_shape(*tensor, input_len as int),
{
    let info = tensor.info;
    let name = info.name.as_str();
    if !info.has_bf16_matrix() {
        return Err(text::concat3("tensor ", name, " must be a rank-2 BF16 matrix"));
    }
    let rows: usize = info.shape[0];
    let columns: usize = info.shape[1];
    let expected: usize = match checked_bf16_bytes(rows, columns) {
        Some(bytes) => bytes,
        None => {
            return Err("BF16 matrix dimensions overflow".to_owned());
        },
    };
    if rows == 0 || columns == 0 || tensor.bytes.len() != expected {
        return Err(
            text::concat3("tensor ", name, " has invalid matrix dimensions or byte length"),
        );
    }
    if input_len != columns {
        let mut message = text::concat4(
            "tensor ",
            name,
            " input length ",
            text::decimal_text(input_len as u64).as_str(),
        );
        message = text::concat3(
            message.as_str(),
            " does not match columns ",
            text::decimal_text(columns as u64).as_str(),
        );
        return Err(message);
    }
    Ok((rows, columns))
}

/// The shapes of BF16 matrices that multiply one input vector.
pub fn validate_matvec_tensor_batch(tensors: &[&TensorView<'_>], input_len: usize) -> (result: Result<
    Vec<(usize, usize)>,
    String,
>)
    ensures
        text::outcome_view(result) == tensor_batch(tensors@, input_len as int),
{
    if tensors.len() == 0 {
        return Err("batched BF16 tensor list must be non-empty".to_owned());
    }
    let ghost outcomes = matvec_shapes(tensors@, input_len as int);
    let mut shapes: Vec<(usize, usize)> = Vec::new();
    let mut index: usize = 0;
    proof {
        assert(outcomes.take(0) =~= Seq::empty());
    }
    while index < tensors.len()
        invariant
            index <= tensors@.len(),
            outcomes == matvec_shapes(tensors@, input_len as int),
            text::collected(outcomes.take(index as int)) == Ok::<Seq<(usize, usize)>, Seq<char>>(
                shapes@,
            ),
        decreases tensors@.len() - index,
    {
        proof {
            text::lemma_collected_step(outcomes, index as int);
        }
        match check_matvec_tensor(tensors[index], input_len) {
            Ok(shape) => shapes.push(shape),
            Err(message) => {
                return Err(message);
            },
        }
        index += 1;
    }
    proof {
        assert(outcomes.take(index as int) =~= outcomes);
    }
    Ok(shapes)
}

/// The shapes of BF16 matrices that multiply a batch of input vectors.
pub fn validate_matvec_tensor_many(
    tensors: &[&TensorView<'_>],
    batch: usize,
    input_len: usize,
) -> (result: Result<Vec<(usize, usize)>, String>)
    ensures
        text::outcome_view(result) == tensor_many(tensors@, batch as int, input_len as int),
{
    if batch < 1 || batch > 8 {
        return Err(
            "batched BF16 tensor list supports between one and eight candidates".to_owned(),
        );
    }
    if input_len == 0 || input_len % batch != 0 {
        return Err("batched BF16 input length must be a non-zero batch multiple".to_owned());
    }
    validate_matvec_tensor_batch(tensors, input_len / batch)
}

pub open spec fn matmul_many_shape(
    rows: int,
    columns: int,
    batch: int,
    weight_bytes: int,
    input_len: int,
) -> Result<(), Seq<char>> {
    if rows * columns > usize::MAX || rows * columns * 2 > usize::MAX {
        Err("batched BF16 matrix dimensions overflow"@)
    } else if batch * columns > usize::MAX {
        Err("batched BF16 input dimensions overflow"@)
    } else if rows == 0 || columns == 0 || batch == 0 || batch > 8 || weight_bytes != rows * columns
        * 2 || input_len != batch * columns {
        Err("batched BF16 matrix dimensions or byte length are invalid"@)
    } else {
        Ok(())
    }
}

/// Checks the shape of one matrix against a batch of one to eight input vectors.
pub fn validate_matmul_many_shape(
    rows: usize,
    columns: usize,
    batch: usize,
    weight_bytes: usize,
    input_len: usize,
) -> (result: Result<(), String>)
    ensures
        text::outcome(result) == matmul_many_shape(
            rows as int,
            columns as int,
            batch as int,
            weight_bytes as int,
            input_len as int,
        ),
{
    let expected_weight: usize = match checked_bf16_bytes(rows, columns) {
        Some(bytes) => bytes,
        None => {
            return Err("batched BF16 matrix dimensions overflow".to_owned());
        },
    };
    let expected_input: usize = match batch.checked_mul(columns) {
        Some(length) => length,
        None => {
            return Err("batched BF16 input dimensions overflow".to_owned());
        },
    };
    if rows == 0 || columns == 0 || batch == 0 || batch > 8 || weight_bytes != expected_weight
        || input_len != expected_input {
        return Err("batched BF16 matrix dimensions or byte length are invalid".to_owned());
    }
    Ok(())
}

/// Whether one shape of a fused projection fits the input.
pub open spec fn fused_shape(shape: (usize, usize), input_len: int) -> Result<(), Seq<char>> {
    if shape.0 * shape.1 > usize::MAX || shape.0 * shape.1 * 2 > usize::MAX {
        Err("fused projection dimensions overflow"@)
    } else if shape.0 == 0 || shape.1 == 0 || shape.1 != input_len {
        Err("fused projection dimensions or input length are invalid"@)
    } else {
        Ok(())
    }
}

pub open spec fn fused_shapes(shapes: Seq<(usize, usize)>, input_len: int) -> Result<(), Seq<char>> {
    if !(2 <= shapes.len() <= 3) {
        Err("fused projections require two or three matrices"@)
    } else {
        match text::collected(
            shapes.map_values(|shape: (usize, usize)| fused_shape(shape, input_len)),
        ) {
            Ok(_) => Ok(()),
            Err(message) => Err(message),
        }
    }
}

/// Checks the shapes of two or three matrices that share one input vector.
pub fn validate_fused_projection_shapes(shapes: &[(usize, usize)], input_len: usize) -> (result: Result<
    (),
    String,
>)
    ensures
        text::outcome(result) == fused_shapes(shapes@, input_len as int),
{
    if shapes.len() < 2 || shapes.len() > 3 {
        return Err("fused projections require two or three matrices".to_owned());
    }
    let ghost outcomes = shapes@.map_values(
        |shape: (usize, usize)| fused_shape(shape, input_len as int),
    );
    let mut index: usize = 0;
    proof {
        assert(outcomes.take(0) =~= Seq::empty());
    }
    while index < shapes.len()
        invariant
            index <= shapes@.len(),
            outcomes == shapes@.map_values(
                |shape: (usize, usize)| fused_shape(shape, input_len as int),
            ),
            text::collected(outcomes.take(index as int)) is Ok,
            2 <= shapes@.len() <= 3,
        decreases shapes@.len() - index,
    {
        let (rows, columns) = shapes[index];
        proof {
            text::lemma_collected_step(outcomes, index as int);
        }
        if checked_bf16_bytes(rows, columns).is_none() {
            return Err("fused projection dimensions overflow".to_owned());
        }
        if rows == 0 || columns == 0 || columns != input_len {
            return Err("fused projection dimensions or input length are invalid".to_owned());
        }
        index += 1;
    }
    proof {
        assert(outcomes.take(index as int) =~= outcomes);
    }
    Ok(())
}

pub open spec fn fused_many_shapes(
    shapes: Seq<(usize, usize)>,
    batch: int,
    input_len: int,
) -> Result<(), Seq<char>> {
    match fused_shapes(shapes, input_len) {
        Err(message) => Err("invalid batched fused projection shapes: "@ + message),
        Ok(()) => if !(1 <= batch <= 8) {
            Err("batched fused projections support between one and eight candidates"@)
        } else {
            Ok(())
        },
    }
}

/// Checks the shapes of a fused projection of one to eight candidates.
pub fn validate_fused_projection_many_shapes(
    shapes: &[(usize, usize)],
    batch: usize,
    input_len: usize,
) -> (result: Result<(), String>)
    ensures
        text::outcome(result) == fused_many_shapes(shapes@, batch as int, input_len as int),
{
    match validate_fused_projection_shapes(shapes, input_len) {
        Err(message) => {
            return Err(
                text::concat2("invalid batched fused projection shapes: ", message.as_str()),
            );
        },
        Ok(()) => {},
    }
    if batch < 1 || batch > 8 {
        return Err(
            "batched fused projections support between one and eight candidates".to_owned(),
        );
    }
    Ok(())
}

pub open spec fn bf16_weight_bytes(length: nat) -> Result<(), Seq<char>> {
    if length == 0 || length % 2 != 0 {
        Err("BF16 weight bytes must be non-empty and 2-byte aligned"@)
    } else {
        Ok(())
    }
}

/// Checks that bytes can be BF16 weights.
pub fn validate_bf16_weight_bytes(weight_bytes: &[u8]) -> (result: Result<(), String>)
    ensures
        text::outcome(result) == bf16_weight_bytes(weight_bytes@.len()),
{
    if weight_bytes.len() == 0 || weight_bytes.len() % 2 != 0 {
        return Err("BF16 weight bytes must be non-empty and 2-byte aligned".to_owned());
    }
    Ok(())
}

/// A batch that passes has a shape for each tensor.
pub proof fn lemma_batch_length(tensors: Seq<&TensorView>, input_len: int)
    ensures
        tensor_batch(tensors, input_len) is Ok ==> tensor_batch(tensors, input_len)->Ok_0.len()
            == tensors.len(),
{
    text::lemma_collected_length(matvec_shapes(tensors, input_len));
}

/// The shapes of tensors are their own, in their order. Each has two bytes for
/// each of its weights and as many columns as the vector has values.
pub proof fn law_tensor_shapes(tensors: Seq<&TensorView>, input_len: int, index: int)
    requires
        tensor_batch(tensors, input_len) is Ok,
        0 <= index < tensors.len(),
    ensures
        ({
            let shapes = tensor_batch(tensors, input_len)->Ok_0;
            let (rows, columns) = shapes[index];
            &&& shapes.len() == tensors.len()
            &&& tensor::is_bf16_matrix(*tensors[index].info)
            &&& rows == tensors[index].info.shape@[0]
            &&& columns == tensors[index].info.shape@[1]
            &&& rows > 0 && columns == input_len
            &&& tensors[index].bytes@.len() == rows * columns * 2
        }),
{
    let outcomes = matvec_shapes(tensors, input_len);
    text::lemma_collected_values(outcomes);
    assert(outcomes[index] == matvec_shape(*tensors[index], input_len));
}

/// A batch of tensors is checked with one vector's share of the inputs.
pub proof fn law_batch_shares_inputs(tensors: Seq<&TensorView>, batch: int, input_len: int)
    requires
        tensor_many(tensors, batch, input_len) is Ok,
    ensures
        1 <= batch <= 8,
        input_len != 0,
        exists|columns: int|
            input_len == batch * columns && #[trigger] tensor_batch(tensors, columns)
                == tensor_many(tensors, batch, input_len),
{
    let columns = input_len / batch;
    assert(input_len == batch * columns) by {
        vstd::arithmetic::div_mod::lemma_fundamental_div_mod(input_len, batch);
    }
    assert(tensor_batch(tensors, columns) == tensor_many(tensors, batch, input_len));
}

} // verus!
