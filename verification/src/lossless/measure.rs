//! Measuring a codec on the blocks of a tensor.
use vstd::arithmetic::div_mod::*;
use vstd::prelude::*;
use vstd::slice::slice_subrange;

use super::block;
use super::matrix;
use crate::text;
use crate::timing;

verus! {

/// What coding all blocks of a tensor came to. The times stand in the order
/// of the blocks.
#[derive(Debug)]
pub struct CodecRun {
    pub blocks: usize,
    pub compressed_bytes: usize,
    pub encode_times: Vec<std::time::Duration>,
    pub decode_times: Vec<std::time::Duration>,
}

/// A block of `size` bytes, or of what is left at the end.
pub open spec fn block_of(bytes: Seq<u8>, size: int, index: int) -> Seq<u8> {
    bytes.subrange(
        index * size,
        if (index + 1) * size <= bytes.len() {
            (index + 1) * size
        } else {
            bytes.len() as int
        },
    )
}

/// The length of a block as the codec encodes it.
pub open spec fn encoded_length(bytes: Seq<u8>, codec: Seq<char>) -> Result<usize, Seq<char>> {
    match block::block_encoding(bytes, codec) {
        Ok(encoded) => Ok(encoded.len() as usize),
        Err(message) => Err(message),
    }
}

/// The lengths of all blocks as the codec encodes them.
pub open spec fn encoded_lengths(bytes: Seq<u8>, size: int, codec: Seq<char>) -> Seq<
    Result<usize, Seq<char>>,
> {
    Seq::new(
        matrix::tile_count(bytes.len() as int, size) as nat,
        |index: int| encoded_length(block_of(bytes, size, index), codec),
    )
}

/// A sum that stays at the greatest machine-sized number once it reaches it.
pub open spec fn saturated_sum(lengths: Seq<usize>) -> usize
    decreases lengths.len(),
{
    if lengths.len() == 0 {
        0
    } else {
        let sum = saturated_sum(lengths.drop_last()) + lengths.last();
        if sum > usize::MAX {
            usize::MAX
        } else {
            sum as usize
        }
    }
}

fn saturating_sum(left: usize, right: usize) -> (sum: usize)
    ensures
        sum == if left + right > usize::MAX {
            usize::MAX as int
        } else {
            left + right
        },
{
    match left.checked_add(right) {
        Some(sum) => sum,
        None => usize::MAX,
    }
}

/// Codes every block of a tensor, checks that it decodes to itself and takes
/// the times. Only encoding can fail: what was encoded decodes to the block.
pub fn measure_codec(bytes: &[u8], block_bytes: usize, codec: &str) -> (result: Result<
    CodecRun,
    String,
>)
    requires
        block_bytes > 0,
    ensures
        match text::collected(encoded_lengths(bytes@, block_bytes as int, codec@)) {
            Err(message) => result is Err && result->Err_0@ == message,
            Ok(lengths) => {
                &&& result is Ok
                &&& result->Ok_0.blocks == lengths.len()
                &&& result->Ok_0.compressed_bytes == saturated_sum(lengths)
                &&& result->Ok_0.encode_times@.len() == lengths.len()
                &&& result->Ok_0.decode_times@.len() == lengths.len()
            },
        },
{
    let ghost size = block_bytes as int;
    let ghost outcomes = encoded_lengths(bytes@, size, codec@);
    let ghost mut lengths: Seq<usize> = Seq::empty();
    let length: usize = bytes.len();
    let mut run = CodecRun {
        blocks: 0,
        compressed_bytes: 0,
        encode_times: Vec::new(),
        decode_times: Vec::new(),
    };
    let mut start: usize = 0;
    proof {
        assert(outcomes.take(0) =~= Seq::empty());
        assert(0 * size == 0) by (nonlinear_arith);
        lemma_block_count(length as int, size, 0);
    }
    while start < length
        invariant
            start <= length,
            length == bytes@.len(),
            size == block_bytes,
            block_bytes > 0,
            outcomes == encoded_lengths(bytes@, size, codec@),
            run.blocks <= outcomes.len(),
            run.blocks <= start,
            start < length <==> run.blocks < outcomes.len(),
            start < length ==> start == run.blocks * size,
            lengths.len() == run.blocks,
            text::collected(outcomes.take(run.blocks as int)) == Ok::<Seq<usize>, Seq<char>>(
                lengths,
            ),
            run.compressed_bytes == saturated_sum(lengths),
            run.encode_times@.len() == run.blocks,
            run.decode_times@.len() == run.blocks,
        decreases length - start,
    {
        let ghost index = run.blocks as int;
        let end: usize = if length - start <= block_bytes { length } else { start + block_bytes };
        let source = slice_subrange(bytes, start, end);
        proof {
            text::lemma_collected_step(outcomes, index);
            assert((index + 1) * size == index * size + size) by (nonlinear_arith);
            assert(source@ =~= block_of(bytes@, size, index));
            lemma_block_count(length as int, size, index + 1);
            assert(outcomes[index] == encoded_length(block_of(bytes@, size, index), codec@));
        }
        let encode_started = timing::clock();
        let compressed = match block::encode_block(source, codec) {
            Ok(compressed) => compressed,
            Err(message) => {
                return Err(message);
            },
        };
        run.encode_times.push(timing::time_since(&encode_started));
        let decode_started = timing::clock();
        match block::decode_block(compressed.as_slice(), source, codec) {
            Ok(()) => {},
            Err(message) => {
                return Err(message);
            },
        }
        run.decode_times.push(timing::time_since(&decode_started));
        let compressed_length: usize = compressed.len();
        proof {
            assert(lengths.push(compressed_length).drop_last() =~= lengths);
            lengths = lengths.push(compressed_length);
        }
        run.compressed_bytes = saturating_sum(run.compressed_bytes, compressed_length);
        run.blocks = run.blocks + 1;
        start = end;
    }
    proof {
        assert(outcomes.take(run.blocks as int) =~= outcomes);
    }
    Ok(run)
}

/// The `index`-th block starts inside the bytes exactly if there are more
/// than `index` blocks.
proof fn lemma_block_count(length: int, size: int, index: int)
    requires
        length >= 0,
        size > 0,
        index >= 0,
    ensures
        index * size < length <==> index < matrix::tile_count(length, size),
{
    let count = matrix::tile_count(length, size);
    lemma_fundamental_div_mod(length + size - 1, size);
    lemma_mod_bound(length + size - 1, size);
    let rest = (length + size - 1) % size;
    assert(size * count == length + size - 1 - rest);
    if index < count {
        assert(index * size <= (count - 1) * size && (count - 1) * size == size * count - size)
            by (nonlinear_arith)
            requires
                index <= count - 1,
                size > 0,
        ;
    } else {
        assert(index * size >= size * count) by (nonlinear_arith)
            requires
                index >= count,
                size > 0,
        ;
    }
}

/// The blocks divide the bytes: every byte is in the block that its place
/// names, and no block is empty.
pub proof fn law_blocks_divide_bytes(bytes: Seq<u8>, size: int, place: int)
    requires
        size > 0,
        0 <= place < bytes.len(),
    ensures
        ({
            let index = place / size;
            let block = block_of(bytes, size, index);
            &&& 0 <= index < matrix::tile_count(bytes.len() as int, size)
            &&& 0 <= place % size < block.len() <= size
            &&& block[place % size] == bytes[place]
        }),
        matrix::tile_count(bytes.len() as int, size) * size < bytes.len() + size,
{
    let index = place / size;
    let rest = place % size;
    let length = bytes.len() as int;
    let count = matrix::tile_count(length, size);
    vstd::arithmetic::div_mod::lemma_fundamental_div_mod(place, size);
    vstd::arithmetic::div_mod::lemma_mod_bound(place, size);
    vstd::arithmetic::div_mod::lemma_fundamental_div_mod(length + size - 1, size);
    vstd::arithmetic::div_mod::lemma_mod_bound(length + size - 1, size);
    assert(size * index == index * size) by (nonlinear_arith);
    assert(size * count == count * size) by (nonlinear_arith);
    assert((index + 1) * size == index * size + size) by (nonlinear_arith);
    assert(0 <= index) by (nonlinear_arith)
        requires
            index * size + rest >= 0,
            rest < size,
            size > 0,
    ;
    assert(index < count) by (nonlinear_arith)
        requires
            index * size + rest < length,
            0 <= rest,
            count * size >= length,
            size > 0,
    ;
    assert(0 <= index * size) by (nonlinear_arith)
        requires
            0 <= index,
            size > 0,
    ;
}

/// The sum of lengths is that of its parts, or the greatest machine-sized
/// number where that is less.
pub proof fn law_lengths_add_up(lengths: Seq<usize>, more: usize)
    ensures
        saturated_sum(lengths.push(more)) == (if saturated_sum(lengths) + more > usize::MAX {
            usize::MAX as int
        } else {
            saturated_sum(lengths) + more
        }),
        saturated_sum(seq![more]) == more,
{
    assert(lengths.push(more).drop_last() =~= lengths);
    assert(seq![more].drop_last() =~= Seq::empty());
    assert(saturated_sum(seq![more].drop_last()) == 0);
}

} // verus!
