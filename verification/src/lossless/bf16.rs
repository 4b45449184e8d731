//! BF16 values as little-endian byte pairs.
use vstd::prelude::*;

verus! {

/// The two bytes of a value, the less significant one first.
pub open spec fn value_bytes(value: u16) -> Seq<u8> {
    seq![(value % 256) as u8, (value / 256) as u8]
}

/// The value of two bytes, the less significant one first.
pub open spec fn byte_pair(low: u8, high: u8) -> u16 {
    (low + 256 * high) as u16
}

/// The values that a byte sequence of even length holds.
pub open spec fn values_of(bytes: Seq<u8>) -> Seq<u16> {
    Seq::new(bytes.len() / 2, |i: int| byte_pair(bytes[2 * i], bytes[2 * i + 1]))
}

/// The bytes of a value sequence.
pub open spec fn bytes_of(values: Seq<u16>) -> Seq<u8> {
    Seq::new(2 * values.len(), |i: int| value_bytes(values[i / 2])[i % 2])
}

pub proof fn lemma_byte_pair_of_value_bytes(value: u16)
    ensures
        byte_pair(value_bytes(value)[0], value_bytes(value)[1]) == value,
{
}

/// Splitting a pair of bytes into a value and back gives the pair.
pub proof fn lemma_value_bytes_of_byte_pair(low: u8, high: u8)
    ensures
        value_bytes(byte_pair(low, high)) =~= seq![low, high],
{
}

/// Reading an even number of bytes as values and writing the values out gives the bytes.
pub proof fn lemma_bytes_of_values(bytes: Seq<u8>)
    requires
        bytes.len() % 2 == 0,
    ensures
        bytes_of(values_of(bytes)) =~= bytes,
{
    assert forall|i: int| 0 <= i < bytes.len() implies bytes_of(values_of(bytes))[i] == bytes[i] by {
        let pair = i / 2;
        lemma_value_bytes_of_byte_pair(bytes[2 * pair], bytes[2 * pair + 1]);
        assert(i == 2 * pair || i == 2 * pair + 1);
    }
}

/// Appending a value appends its two bytes.
pub proof fn lemma_bytes_of_push(values: Seq<u16>, value: u16)
    ensures
        bytes_of(values.push(value)) =~= bytes_of(values) + value_bytes(value),
{
}

/// The bytes of two value sequences in a row are their bytes in a row.
pub proof fn lemma_bytes_of_concat(left: Seq<u16>, right: Seq<u16>)
    ensures
        bytes_of(left + right) =~= bytes_of(left) + bytes_of(right),
{
    assert forall|i: int| 0 <= i < 2 * (left.len() + right.len()) implies bytes_of(left + right)[i]
        == (bytes_of(left) + bytes_of(right))[i] by {
        if i >= 2 * left.len() {
            let j = i - 2 * left.len();
            assert(i / 2 == left.len() + j / 2 && i % 2 == j % 2);
        }
    }
}

/// Reads the values that a byte sequence of even length holds.
pub fn read_values(source: &[u8]) -> (values: Vec<u16>)
    requires
        source@.len() % 2 == 0,
    ensures
        values@ == values_of(source@),
{
    let length: usize = source.len();
    let count: usize = length / 2;
    let mut values: Vec<u16> = Vec::new();
    let mut index: usize = 0;
    while index < count
        invariant
            length == source@.len(),
            length == 2 * count,
            index <= count,
            values@ == values_of(source@).take(index as int),
        decreases count - index,
    {
        let low = source[2 * index] as u16;
        let high = source[2 * index + 1] as u16;
        values.push(low + 256 * high);
        index += 1;
    }
    values
}

/// Appends the two bytes of a value.
pub fn push_value(bytes: &mut Vec<u8>, value: u16)
    ensures
        final(bytes)@ == old(bytes)@ + value_bytes(value),
{
    bytes.push((value % 256) as u8);
    bytes.push((value / 256) as u8);
}

} // verus!
