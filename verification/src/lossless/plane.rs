//! The byte-plane transform: all high bytes first, then all low bytes.
use vstd::prelude::*;

use crate::text;

verus! {

/// The bytes of `source` with the high byte of each pair moved to the first half.
pub open spec fn planes(source: Seq<u8>) -> Seq<u8> {
    let values = source.len() as int / 2;
    Seq::new(
        source.len(),
        |i: int| if i < values { source[2 * i + 1] } else { source[2 * (i - values)] },
    )
}

/// The byte pairs whose high bytes are the first half and whose low bytes are the second.
pub open spec fn interleaved(source: Seq<u8>) -> Seq<u8> {
    let values = source.len() as int / 2;
    Seq::new(source.len(), |i: int| if i % 2 == 0 { source[values + i / 2] } else { source[i / 2] })
}

/// Interleaving the planes of an even number of bytes gives the bytes back.
pub proof fn law_plane_round_trip(source: Seq<u8>)
    requires
        source.len() % 2 == 0,
    ensures
        interleaved(planes(source)) == source,
{
    assert(interleaved(planes(source)) =~= source);
}

/// Splitting interleaved planes gives the planes back.
pub proof fn law_interleave_round_trip(source: Seq<u8>)
    requires
        source.len() % 2 == 0,
    ensures
        planes(interleaved(source)) == source,
{
    assert(planes(interleaved(source)) =~= source);
}

pub open spec fn plane_transform(source: Seq<u8>) -> Result<Seq<u8>, Seq<char>> {
    if source.len() % 2 != 0 {
        Err("BF16 plane transform requires 2-byte alignment"@)
    } else {
        Ok(planes(source))
    }
}

pub open spec fn plane_inverse(source: Seq<u8>) -> Result<Seq<u8>, Seq<char>> {
    if source.len() % 2 != 0 {
        Err("BF16 plane stream has invalid length"@)
    } else {
        Ok(interleaved(source))
    }
}

/// Moves the high byte of each BF16 value to the front half.
pub fn bf16_plane_transform(source: &[u8]) -> (result: Result<Vec<u8>, String>)
    ensures
        text::outcome_view(result) == plane_transform(source@),
{
    if source.len() % 2 != 0 {
        return Err("BF16 plane transform requires 2-byte alignment".to_owned());
    }
    let length: usize = source.len();
    let values: usize = length / 2;
    let mut transformed: Vec<u8> = Vec::new();
    let mut index: usize = 0;
    while index < values
        invariant
            source@.len() == length,
            length == 2 * values,
            index <= values,
            transformed@ == planes(source@).take(index as int),
        decreases values - index,
    {
        transformed.push(source[2 * index + 1]);
        index += 1;
    }
    index = 0;
    while index < values
        invariant
            source@.len() == length,
            length == 2 * values,
            index <= values,
            transformed@ == planes(source@).take(values + index),
        decreases values - index,
    {
        transformed.push(source[2 * index]);
        index += 1;
    }
    proof {
        assert(planes(source@).take(length as int) =~= planes(source@));
    }
    Ok(transformed)
}

/// Undoes `bf16_plane_transform`.
pub fn bf16_plane_inverse(source: &[u8]) -> (result: Result<Vec<u8>, String>)
    ensures
        text::outcome_view(result) == plane_inverse(source@),
{
    if source.len() % 2 != 0 {
        return Err("BF16 plane stream has invalid length".to_owned());
    }
    let length: usize = source.len();
    let values: usize = length / 2;
    let mut decoded: Vec<u8> = Vec::new();
    let mut index: usize = 0;
    while index < values
        invariant
            source@.len() == length,
            length == 2 * values,
            index <= values,
            decoded@ == interleaved(source@).take(2 * index),
        decreases values - index,
    {
        decoded.push(source[values + index]);
        decoded.push(source[index]);
        index += 1;
    }
    proof {
        assert(interleaved(source@).take(length as int) =~= interleaved(source@));
    }
    Ok(decoded)
}

} // verus!
