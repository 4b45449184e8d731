//! F32 tensors whose values are read by the host.
use vstd::prelude::*;

use crate::quant;
use crate::tensor::GgufTensorView;
use crate::text;

verus! {

/// A tensor and where its bytes lie.
pub struct PlacedTensor<'a, 'b> {
    pub tensor: &'a GgufTensorView<'b>,
    pub address: usize,
}

/// The values of a vector from `start` up to `end`.
#[derive(Debug, Clone, Copy, PartialEq, Eq, Structural)]
pub struct ValueRange {
    pub start: usize,
    pub end: usize,
}

/// The product of the dimensions, where a machine-sized number holds it after
/// each of them.
pub open spec fn element_count(shape: Seq<usize>) -> Option<nat>
    decreases shape.len(),
{
    if shape.len() == 0 {
        Some(1)
    } else {
        match element_count(shape.drop_last()) {
            Some(count) => if count * shape.last() <= usize::MAX {
                Some((count * shape.last()) as nat)
            } else {
                None
            },
            None => None,
        }
    }
}

proof fn lemma_element_count_overflows(shape: Seq<usize>, count: int)
    requires
        0 <= count <= shape.len(),
        element_count(shape.take(count)) is None,
    ensures
        element_count(shape) is None,
    decreases shape.len() - count,
{
    if count < shape.len() {
        assert(shape.take(count + 1).drop_last() =~= shape.take(count));
        lemma_element_count_overflows(shape, count + 1);
    } else {
        assert(shape.take(count) =~= shape);
    }
}

/// The product of the dimensions of a shape.
pub fn count_elements(shape: &Vec<usize>) -> (count: Option<usize>)
    ensures
        match count {
            Some(count) => element_count(shape@) == Some(count as nat),
            None => element_count(shape@) is None,
        },
{
    let mut count: usize = 1;
    let mut index: usize = 0;
    proof {
        assert(shape@.take(0) =~= Seq::empty());
    }
    while index < shape.len()
        invariant
            index <= shape@.len(),
            element_count(shape@.take(index as int)) == Some(count as nat),
        decreases shape@.len() - index,
    {
        proof {
            assert(shape@.take(index + 1).drop_last() =~= shape@.take(index as int));
            assert(count * shape@[index as int] >= 0) by (nonlinear_arith)
                requires
                    count >= 0,
                    shape@[index as int] >= 0,
            ;
        }
        match count.checked_mul(shape[index]) {
            Some(product) => {
                count = product;
            },
            None => {
                proof {
                    lemma_element_count_overflows(shape@, index + 1);
                }
                return None;
            },
        }
        index += 1;
    }
    proof {
        assert(shape@.take(index as int) =~= shape@);
    }
    Some(count)
}

/// How many F32 values a tensor holds, or why they cannot be read.
pub open spec fn f32_value_count(tensor: GgufTensorView, address: int) -> Result<usize, Seq<char>> {
    let name = tensor.info.name@;
    let bytes = tensor.bytes@.len() as int;
    if tensor.info.ggml_type != quant::GGML_TYPE_F32 {
        Err(
            "tensor "@ + name + " is not F32 (type "@ + text::decimal(tensor.info.ggml_type as nat)
                + ")"@,
        )
    } else if (bytes > 0 && address % 4 != 0) || bytes % 4 != 0 {
        Err("tensor "@ + name + " F32 payload is not aligned"@)
    } else {
        match element_count(tensor.info.shape@) {
            None => Err("tensor "@ + name + " element count overflows"@),
            Some(expected) => if bytes / 4 != expected {
                Err(
                    "tensor "@ + name + " has "@ + text::decimal((bytes / 4) as nat)
                        + " F32 values; expected "@ + text::decimal(expected),
                )
            } else {
                Ok(expected as usize)
            },
        }
    }
}

/// How many F32 values a tensor holds.
pub fn f32_values(placed: &PlacedTensor<'_, '_>) -> (result: Result<usize, String>)
    ensures
        text::outcome(result) == f32_value_count(*placed.tensor, placed.address as int),
{
    let tensor = placed.tensor;
    let name = tensor.info.name.as_str();
    if tensor.info.ggml_type != quant::GGML_TYPE_F32 {
        return Err(
            text::concat5(
                "tensor ",
                name,
                " is not F32 (type ",
                text::decimal_text(tensor.info.ggml_type as u64).as_str(),
                ")",
            ),
        );
    }
    let bytes: usize = tensor.bytes.len();
    if (bytes > 0 && placed.address % 4 != 0) || bytes % 4 != 0 {
        return Err(text::concat3("tensor ", name, " F32 payload is not aligned"));
    }
    let expected: usize = match count_elements(&tensor.info.shape) {
        Some(count) => count,
        None => {
            return Err(text::concat3("tensor ", name, " element count overflows"));
        },
    };
    if bytes / 4 != expected {
        let mut message = text::concat4(
            "tensor ",
            name,
            " has ",
            text::decimal_text((bytes / 4) as u64).as_str(),
        );
        message = text::concat3(
            message.as_str(),
            " F32 values; expected ",
            text::decimal_text(expected as u64).as_str(),
        );
        return Err(message);
    }
    Ok(expected)
}

} // verus!
