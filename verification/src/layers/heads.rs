//! Moving the values of heads, which stand as the bits of 32-bit numbers.
use vstd::arithmetic::div_mod::*;
use vstd::prelude::*;

use crate::metal::context::MetalContext;
use crate::metal::norm;
use crate::metal::plan::{Plan, PlanView};
use crate::text;

verus! {

/// Every source head stands for a run of target heads.
pub open spec fn repeated_heads(
    values: Seq<u32>,
    source_heads: int,
    target_heads: int,
    head_dim: int,
) -> Seq<u32> {
    let repeat = target_heads / source_heads;
    Seq::new(
        (target_heads * head_dim) as nat,
        |i: int| values[(i / head_dim) / repeat * head_dim + i % head_dim],
    )
}

/// The first `rotary_dim` values of each head, one head after the other.
pub open spec fn rotary_values(
    values: Seq<u32>,
    heads: int,
    head_dim: int,
    rotary_dim: int,
) -> Seq<u32> {
    Seq::new(
        (heads * rotary_dim) as nat,
        |i: int| values[(i / rotary_dim) * head_dim + i % rotary_dim],
    )
}

/// The values with the first `rotary_dim` of each head replaced.
pub open spec fn with_rotary_values(
    values: Seq<u32>,
    rotated: Seq<u32>,
    head_dim: int,
    rotary_dim: int,
) -> Seq<u32> {
    Seq::new(
        values.len(),
        |i: int|
            if i % head_dim < rotary_dim {
                rotated[(i / head_dim) * rotary_dim + i % head_dim]
            } else {
                values[i]
            },
    )
}

proof fn lemma_place(head: int, offset: int, size: int)
    requires
        0 <= head,
        0 <= offset < size,
    ensures
        (head * size + offset) / size == head,
        (head * size + offset) % size == offset,
        0 <= head * size,
{
    lemma_fundamental_div_mod_converse(head * size + offset, size, head, offset);
    assert(head * size >= 0) by (nonlinear_arith)
        requires
            head >= 0,
            size > 0,
    ;
}

proof fn lemma_place_fits(head: int, offset: int, heads: int, size: int)
    requires
        0 <= head < heads,
        0 <= offset < size,
    ensures
        0 <= head * size + offset < heads * size,
{
    assert(0 <= head * size && head * size + size <= heads * size) by (nonlinear_arith)
        requires
            0 <= head < heads,
            size > 0,
    ;
}

/// Repeats each source head for a run of target heads.
pub fn repeat_heads(values: &[u32], source_heads: usize, target_heads: usize, head_dim: usize) -> (output: Vec<
    u32,
>)
    requires
        source_heads > 0,
        target_heads % source_heads == 0,
        target_heads * head_dim <= usize::MAX,
        source_heads * head_dim <= values@.len(),
    ensures
        output@ == repeated_heads(
            values@,
            source_heads as int,
            target_heads as int,
            head_dim as int,
        ),
{
    let length: usize = values.len();
    let repeat: usize = target_heads / source_heads;
    let ghost all = repeated_heads(
        values@,
        source_heads as int,
        target_heads as int,
        head_dim as int,
    );
    let mut output: Vec<u32> = Vec::new();
    let mut head: usize = 0;
    proof {
        assert(0 * head_dim == 0) by (nonlinear_arith);
    }
    while head < target_heads
        invariant
            head <= target_heads,
            length == values@.len(),
            source_heads > 0,
            repeat == target_heads / source_heads,
            target_heads % source_heads == 0,
            target_heads * head_dim <= usize::MAX,
            source_heads * head_dim <= values@.len(),
            all == repeated_heads(
                values@,
                source_heads as int,
                target_heads as int,
                head_dim as int,
            ),
            output@.len() == head * head_dim,
            output@ =~= all.take(head * head_dim),
            head * head_dim <= target_heads * head_dim,
        decreases target_heads - head,
    {
        proof {
            lemma_fundamental_div_mod(target_heads as int, source_heads as int);
            assert(repeat > 0) by (nonlinear_arith)
                requires
                    target_heads == source_heads * repeat,
                    target_heads > 0,
                    source_heads > 0,
            ;
            lemma_fundamental_div_mod(head as int, repeat as int);
            assert(head / repeat < source_heads) by (nonlinear_arith)
                requires
                    head < source_heads * repeat,
                    head == repeat * (head / repeat) + head % repeat,
                    head % repeat >= 0,
                    repeat > 0,
            ;
            lemma_div_pos_is_pos(head as int, repeat as int);
            let source_head = (head / repeat) as int;
            assert(0 <= source_head * head_dim && source_head * head_dim + head_dim <= source_heads
                * head_dim) by (nonlinear_arith)
                requires
                    0 <= source_head < source_heads,
            ;
            assert((head + 1) * head_dim == head * head_dim + head_dim
                && (head + 1) * head_dim <= target_heads * head_dim) by (nonlinear_arith)
                requires
                    head < target_heads,
            ;
        }
        let source: usize = (head / repeat) * head_dim;
        let mut offset: usize = 0;
        while offset < head_dim
            invariant
                offset <= head_dim,
                head < target_heads,
                length == values@.len(),
                repeat > 0,
                repeat == target_heads / source_heads,
                source == (head / repeat) * head_dim,
                source + head_dim <= values@.len(),
                (head + 1) * head_dim == head * head_dim + head_dim,
                (head + 1) * head_dim <= target_heads * head_dim,
                all == repeated_heads(
                    values@,
                    source_heads as int,
                    target_heads as int,
                    head_dim as int,
                ),
                output@.len() == head * head_dim + offset,
                output@ =~= all.take(head * head_dim + offset),
            decreases head_dim - offset,
        {
            proof {
                lemma_place(head as int, offset as int, head_dim as int);
            }
            output.push(values[source + offset]);
            offset += 1;
        }
        head += 1;
    }
    output
}

/// Gathers the first `rotary_dim` values of each head.
pub fn gather_rotary(values: &[u32], heads: usize, head_dim: usize, rotary_dim: usize) -> (rotary: Vec<
    u32,
>)
    requires
        rotary_dim <= head_dim,
        values@.len() == heads * head_dim,
    ensures
        rotary@ == rotary_values(values@, heads as int, head_dim as int, rotary_dim as int),
{
    let length: usize = values.len();
    let ghost all = rotary_values(values@, heads as int, head_dim as int, rotary_dim as int);
    let mut rotary: Vec<u32> = Vec::new();
    let mut head: usize = 0;
    proof {
        assert(0 * rotary_dim == 0) by (nonlinear_arith);
        assert(0 <= heads * rotary_dim <= heads * head_dim) by (nonlinear_arith)
            requires
                rotary_dim <= head_dim,
        ;
    }
    while head < heads
        invariant
            head <= heads,
            rotary_dim <= head_dim,
            length == values@.len(),
            values@.len() == heads * head_dim,
            all == rotary_values(values@, heads as int, head_dim as int, rotary_dim as int),
            rotary@.len() == head * rotary_dim,
            rotary@ =~= all.take(head * rotary_dim),
            head * rotary_dim <= heads * rotary_dim,
        decreases heads - head,
    {
        proof {
            assert(0 <= head * head_dim && head * head_dim + head_dim <= heads * head_dim)
                by (nonlinear_arith)
                requires
                    head < heads,
            ;
            assert((head + 1) * rotary_dim == head * rotary_dim + rotary_dim
                && (head + 1) * rotary_dim <= heads * rotary_dim) by (nonlinear_arith)
                requires
                    head < heads,
            ;
        }
        let start: usize = head * head_dim;
        let mut offset: usize = 0;
        while offset < rotary_dim
            invariant
                offset <= rotary_dim,
                rotary_dim <= head_dim,
                length == values@.len(),
                head < heads,
                start == head * head_dim,
                start + head_dim <= values@.len(),
                (head + 1) * rotary_dim == head * rotary_dim + rotary_dim,
                (head + 1) * rotary_dim <= heads * rotary_dim,
                all == rotary_values(values@, heads as int, head_dim as int, rotary_dim as int),
                rotary@.len() == head * rotary_dim + offset,
                rotary@ =~= all.take(head * rotary_dim + offset),
            decreases rotary_dim - offset,
        {
            proof {
                lemma_place(head as int, offset as int, rotary_dim as int);
            }
            rotary.push(values[start + offset]);
            offset += 1;
        }
        head += 1;
    }
    rotary
}

/// Puts the first `rotary_dim` values of each head back.
pub fn scatter_rotary(
    values: &[u32],
    rotated: &[u32],
    heads: usize,
    head_dim: usize,
    rotary_dim: usize,
) -> (output: Vec<u32>)
    requires
        0 < rotary_dim <= head_dim,
        values@.len() == heads * head_dim,
        rotated@.len() == heads * rotary_dim,
    ensures
        output@ == with_rotary_values(values@, rotated@, head_dim as int, rotary_dim as int),
{
    let length: usize = values.len();
    let rotated_length: usize = rotated.len();
    let ghost all = with_rotary_values(values@, rotated@, head_dim as int, rotary_dim as int);
    let mut output: Vec<u32> = Vec::new();
    let mut index: usize = 0;
    while index < length
        invariant
            index <= length,
            length == values@.len(),
            rotated_length == rotated@.len(),
            0 < rotary_dim <= head_dim,
            values@.len() == heads * head_dim,
            rotated@.len() == heads * rotary_dim,
            all == with_rotary_values(values@, rotated@, head_dim as int, rotary_dim as int),
            output@ =~= all.take(index as int),
        decreases length - index,
    {
        let head: usize = index / head_dim;
        let offset: usize = index % head_dim;
        proof {
            lemma_fundamental_div_mod(index as int, head_dim as int);
            assert(head < heads) by (nonlinear_arith)
                requires
                    index < heads * head_dim,
                    index == head_dim * head + offset,
                    offset >= 0,
                    head_dim > 0,
            ;
        }
        if offset < rotary_dim {
            proof {
                lemma_place_fits(head as int, offset as int, heads as int, rotary_dim as int);
                assert(0 <= head * rotary_dim <= heads * rotary_dim) by (nonlinear_arith)
                    requires
                        head < heads,
                ;
            }
            output.push(rotated[head * rotary_dim + offset]);
        } else {
            output.push(values[index]);
        }
        index += 1;
    }
    proof {
        assert(all.take(index as int) =~= all);
    }
    output
}

/// Each target head holds the values of its source head.
pub proof fn law_repeated_head_is_source_head(
    values: Seq<u32>,
    source_heads: int,
    target_heads: int,
    head_dim: int,
    head: int,
    offset: int,
)
    requires
        source_heads > 0,
        0 <= head < target_heads,
        0 <= offset < head_dim,
    ensures
        repeated_heads(values, source_heads, target_heads, head_dim)[head * head_dim + offset]
            == values[head / (target_heads / source_heads) * head_dim + offset],
{
    lemma_place(head, offset, head_dim);
    lemma_place_fits(head, offset, target_heads, head_dim);
}

/// Putting back what was gathered changes nothing.
pub proof fn law_gathered_rotary_is_put_back(
    values: Seq<u32>,
    heads: int,
    head_dim: int,
    rotary_dim: int,
)
    requires
        0 < rotary_dim <= head_dim,
        heads >= 0,
        values.len() == heads * head_dim,
    ensures
        with_rotary_values(
            values,
            rotary_values(values, heads, head_dim, rotary_dim),
            head_dim,
            rotary_dim,
        ) == values,
{
    let gathered = rotary_values(values, heads, head_dim, rotary_dim);
    let put_back = with_rotary_values(values, gathered, head_dim, rotary_dim);
    assert forall|i: int| 0 <= i < values.len() implies put_back[i] == values[i] by {
        let head = i / head_dim;
        let offset = i % head_dim;
        lemma_fundamental_div_mod(i, head_dim);
        lemma_mod_bound(i, head_dim);
        lemma_div_pos_is_pos(i, head_dim);
        assert(head < heads) by (nonlinear_arith)
            requires
                i < heads * head_dim,
                i == head_dim * head + offset,
                offset >= 0,
                head_dim > 0,
        ;
        assert(head * head_dim == head_dim * head) by (nonlinear_arith);
        if offset < rotary_dim {
            lemma_place(head, offset, rotary_dim);
            lemma_place_fits(head, offset, heads, rotary_dim);
        }
    }
    assert(put_back =~= values);
}

/// The plan of a rotation of the first `rotary_dim` values of each head.
pub open spec fn partial_rope_plan(
    input: usize,
    heads: usize,
    head_dim: usize,
    rotary_dim: usize,
    position: usize,
    theta: u32,
) -> Result<PlanView, Seq<char>> {
    if rotary_dim == 0 || rotary_dim > head_dim || rotary_dim % 2 != 0 || input != heads
        * head_dim {
        Err("partial RoPE dimensions are invalid"@)
    } else {
        norm::rope_plan((heads * rotary_dim) as usize, heads, rotary_dim, position, theta)
    }
}

/// Plans a rotation of the first `rotary_dim` values of each head.
pub fn partial_rope(
    context: &MetalContext,
    input: usize,
    heads: usize,
    head_dim: usize,
    rotary_dim: usize,
    position: usize,
    theta: u32,
) -> (result: Result<Plan, String>)
    ensures
        text::outcome_view(result) == partial_rope_plan(
            input,
            heads,
            head_dim,
            rotary_dim,
            position,
            theta,
        ),
{
    let expected: usize = match heads.checked_mul(head_dim) {
        Some(expected) => expected,
        None => {
            return Err("partial RoPE dimensions are invalid".to_owned());
        },
    };
    if rotary_dim == 0 || rotary_dim > head_dim || rotary_dim % 2 != 0 || input != expected {
        return Err("partial RoPE dimensions are invalid".to_owned());
    }
    proof {
        assert(0 <= heads * rotary_dim <= heads * head_dim) by (nonlinear_arith)
            requires
                rotary_dim <= head_dim,
        ;
    }
    context.rope(heads * rotary_dim, heads, rotary_dim, position, theta)
}

} // verus!
