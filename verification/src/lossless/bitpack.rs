//! Bit packing of BF16 values: bits that all values share are stored once.
use vstd::prelude::*;

use super::bf16;
use super::bits;
use super::bits::BitWriter;
use crate::text;

verus! {

/// The number of bytes before the packed bits: the mask of shared bits and their values.
pub const HEADER_BYTES: usize = 4;

/// Whether all values have the same bit in place `bit`.
pub open spec fn shared_bit(values: Seq<u16>, bit: int) -> bool {
    forall|i: int|
        0 <= i < values.len() ==> bits::has_bit(#[trigger] values[i], bit) == bits::has_bit(
            values[0],
            bit,
        )
}

/// The mask of the places below `places` in which all values have the same bit.
pub open spec fn shared_mask(values: Seq<u16>, places: int) -> u16
    decreases places,
{
    if places <= 0 {
        0
    } else if shared_bit(values, places - 1) {
        shared_mask(values, places - 1) | (1u16 << ((places - 1) as u16))
    } else {
        shared_mask(values, places - 1)
    }
}

/// The number of places below `places` that a mask leaves to each value.
pub open spec fn variable_places(mask: u16, places: int) -> nat
    decreases places,
{
    if places <= 0 {
        0
    } else if bits::has_bit(mask, places - 1) {
        variable_places(mask, places - 1)
    } else {
        variable_places(mask, places - 1) + 1
    }
}

/// The bits of a value in the places below `places` that the mask leaves to it.
pub open spec fn variable_bits(value: u16, mask: u16, places: int) -> Seq<bool>
    decreases places,
{
    if places <= 0 {
        Seq::empty()
    } else if bits::has_bit(mask, places - 1) {
        variable_bits(value, mask, places - 1)
    } else {
        variable_bits(value, mask, places - 1).push(bits::has_bit(value, places - 1))
    }
}

/// The variable bits of the first `count` values, one value after the other.
pub open spec fn payload_bits(values: Seq<u16>, mask: u16, count: int) -> Seq<bool>
    decreases count,
{
    if count <= 0 {
        Seq::empty()
    } else {
        payload_bits(values, mask, count - 1) + variable_bits(values[count - 1], mask, 16)
    }
}

/// The bit-packed form of a value sequence.
pub open spec fn bitpacked(values: Seq<u16>) -> Seq<u8> {
    let mask = shared_mask(values, 16);
    bf16::value_bytes(mask) + bf16::value_bytes(values[0] & mask) + bits::packed(
        payload_bits(values, mask, values.len() as int),
    )
}

/// The value whose shared bits are `constants` and whose variable bits, in the
/// places below `places`, are the first of `stream`.
pub open spec fn merged_value(constants: u16, mask: u16, stream: Seq<bool>, places: int) -> u16
    decreases places,
{
    if places <= 0 {
        constants
    } else {
        let below = merged_value(constants, mask, stream, places - 1);
        if !bits::has_bit(mask, places - 1) && stream[variable_places(mask, places - 1) as int] {
            below | (1u16 << ((places - 1) as u16))
        } else {
            below
        }
    }
}

/// The `count` values that a bit stream holds.
pub open spec fn merged_values(constants: u16, mask: u16, stream: Seq<bool>, count: nat) -> Seq<u16> {
    Seq::new(
        count,
        |i: int| merged_value(constants, mask, stream.skip(i * variable_places(mask, 16)), 16),
    )
}

pub open spec fn bitpack_encoding(source: Seq<u8>) -> Result<Seq<u8>, Seq<char>> {
    if source.len() % 2 != 0 || source.len() == 0 {
        Err("BF16 bitpack requires non-empty 2-byte-aligned input"@)
    } else {
        Ok(bitpacked(bf16::values_of(source)))
    }
}

pub open spec fn bitpack_decoding(source: Seq<u8>, expected_len: nat) -> Result<
    Seq<u8>,
    Seq<char>,
> {
    let mask = bf16::byte_pair(source[0], source[1]);
    let constants = bf16::byte_pair(source[2], source[3]);
    let count = expected_len / 2;
    if source.len() < HEADER_BYTES || expected_len % 2 != 0 {
        Err("BF16 bitpack stream has invalid dimensions"@)
    } else if constants & !mask != 0 {
        Err("BF16 bitpack constants contain a variable bit"@)
    } else if source.len() != HEADER_BYTES + bits::bytes_for_bits(count * variable_places(mask, 16)) {
        Err("BF16 bitpack payload length does not match metadata"@)
    } else {
        Ok(
            bf16::bytes_of(
                merged_values(
                    constants,
                    mask,
                    bits::unpacked(source.skip(HEADER_BYTES as int)),
                    count,
                ),
            ),
        )
    }
}

proof fn lemma_variable_places(mask: u16, places: int, more: int)
    requires
        0 <= places <= more <= 16,
    ensures
        variable_places(mask, places) <= variable_places(mask, more) <= variable_places(
            mask,
            places,
        ) + (more - places),
    decreases more,
{
    if places < more {
        lemma_variable_places(mask, places, more - 1);
    }
}

proof fn lemma_variable_bits_len(value: u16, mask: u16, places: int)
    ensures
        variable_bits(value, mask, places).len() == variable_places(mask, places),
    decreases places,
{
    if places > 0 {
        lemma_variable_bits_len(value, mask, places - 1);
    }
}

/// A variable place holds the bit of the value, in the order of the places.
proof fn lemma_variable_bit(value: u16, mask: u16, place: int, places: int)
    requires
        0 <= place < places <= 16,
        !bits::has_bit(mask, place),
    ensures
        variable_places(mask, place) < variable_places(mask, places),
        variable_bits(value, mask, places)[variable_places(mask, place) as int] == bits::has_bit(
            value,
            place,
        ),
    decreases places,
{
    lemma_variable_bits_len(value, mask, places - 1);
    lemma_variable_bits_len(value, mask, place);
    if place < places - 1 {
        lemma_variable_bit(value, mask, place, places - 1);
    }
}

proof fn lemma_payload_len(values: Seq<u16>, mask: u16, count: int)
    requires
        0 <= count,
    ensures
        payload_bits(values, mask, count).len() == count * variable_places(mask, 16),
    decreases count,
{
    let width = variable_places(mask, 16) as int;
    if count > 0 {
        lemma_payload_len(values, mask, count - 1);
        lemma_variable_bits_len(values[count - 1], mask, 16);
        assert(count * width == (count - 1) * width + width) by (nonlinear_arith);
    } else {
        assert(count * width == 0) by (nonlinear_arith)
            requires
                count == 0,
        ;
    }
}

/// The bits of the `index`-th value stand in the payload behind those of the values before it.
proof fn lemma_payload_bit(values: Seq<u16>, mask: u16, count: int, index: int, bit: int)
    requires
        0 <= index < count,
        0 <= bit < variable_places(mask, 16),
    ensures
        0 <= index * variable_places(mask, 16) + bit < count * variable_places(mask, 16),
        payload_bits(values, mask, count)[index * variable_places(mask, 16) + bit]
            == variable_bits(values[index], mask, 16)[bit],
    decreases count,
{
    let width = variable_places(mask, 16) as int;
    lemma_payload_len(values, mask, count - 1);
    lemma_variable_bits_len(values[count - 1], mask, 16);
    assert(count * width == (count - 1) * width + width) by (nonlinear_arith);
    assert(0 <= index * width) by (nonlinear_arith)
        requires
            0 <= index,
            0 <= width,
    ;
    if index < count - 1 {
        lemma_payload_bit(values, mask, count - 1, index, bit);
    }
}

proof fn lemma_shared_mask_bit(values: Seq<u16>, places: int, bit: int)
    requires
        0 <= bit < 16,
        places <= 16,
    ensures
        bits::has_bit(shared_mask(values, places), bit) == (bit < places && shared_bit(values, bit)),
    decreases places,
{
    if places <= 0 {
        bits::lemma_no_bit(bit);
    } else {
        lemma_shared_mask_bit(values, places - 1, bit);
        bits::lemma_set_bit(shared_mask(values, places - 1), places - 1, bit);
    }
}

/// The shared bits of every value are those of the first.
proof fn lemma_shared_constants(values: Seq<u16>, index: int)
    requires
        0 <= index < values.len(),
    ensures
        values[index] & shared_mask(values, 16) == values[0] & shared_mask(values, 16),
{
    let mask = shared_mask(values, 16);
    assert forall|bit: int| 0 <= bit < 16 implies #[trigger] bits::has_bit(values[index] & mask, bit)
        == bits::has_bit(values[0] & mask, bit) by {
        bits::lemma_and_bit(values[index], mask, bit);
        bits::lemma_and_bit(values[0], mask, bit);
        lemma_shared_mask_bit(values, 16, bit);
        if shared_bit(values, bit) {
            assert(bits::has_bit(values[index], bit) == bits::has_bit(values[0], bit));
        }
    }
    bits::lemma_same_bits(values[index] & mask, values[0] & mask);
}

/// Merging the variable bits of a value into its shared bits gives, place by place, the value.
proof fn lemma_merged_bit(value: u16, mask: u16, stream: Seq<bool>, places: int, bit: int)
    requires
        0 <= places <= 16,
        0 <= bit < 16,
        forall|k: int|
            0 <= k < variable_places(mask, 16) ==> #[trigger] stream[k] == variable_bits(
                value,
                mask,
                16,
            )[k],
    ensures
        bits::has_bit(merged_value(value & mask, mask, stream, places), bit) == (bits::has_bit(
            value,
            bit,
        ) && (bits::has_bit(mask, bit) || bit < places)),
    decreases places,
{
    if places == 0 {
        bits::lemma_and_bit(value, mask, bit);
    } else {
        lemma_merged_bit(value, mask, stream, places - 1, bit);
        bits::lemma_set_bit(
            merged_value(value & mask, mask, stream, places - 1),
            places - 1,
            bit,
        );
        if !bits::has_bit(mask, places - 1) {
            lemma_variable_bit(value, mask, places - 1, 16);
        }
    }
}

proof fn lemma_merged_value(value: u16, mask: u16, stream: Seq<bool>)
    requires
        forall|k: int|
            0 <= k < variable_places(mask, 16) ==> #[trigger] stream[k] == variable_bits(
                value,
                mask,
                16,
            )[k],
    ensures
        merged_value(value & mask, mask, stream, 16) == value,
{
    let merged = merged_value(value & mask, mask, stream, 16);
    assert forall|bit: int| 0 <= bit < 16 implies #[trigger] bits::has_bit(merged, bit)
        == bits::has_bit(value, bit) by {
        lemma_merged_bit(value, mask, stream, 16, bit);
    }
    bits::lemma_same_bits(merged, value);
}

/// Decoding a bit-packed block into as many bytes as it was made of gives the bytes back.
pub proof fn law_bitpack_round_trip(source: Seq<u8>)
    requires
        source.len() > 0,
        source.len() % 2 == 0,
    ensures
        bitpack_encoding(source) is Ok,
        bitpack_decoding(bitpack_encoding(source)->Ok_0, source.len()) == Ok::<Seq<u8>, Seq<char>>(
            source,
        ),
{
    let values = bf16::values_of(source);
    let count = values.len() as int;
    let mask = shared_mask(values, 16);
    let width = variable_places(mask, 16) as int;
    let constants = values[0] & mask;
    let payload = payload_bits(values, mask, count);
    let encoded = bitpacked(values);
    let first = values[0];
    assert((first & mask) & !mask == 0) by (bit_vector);
    bf16::lemma_byte_pair_of_value_bytes(mask);
    bf16::lemma_byte_pair_of_value_bytes(constants);
    lemma_payload_len(values, mask, count);
    let stream = bits::unpacked(encoded.skip(4));
    assert(encoded.skip(4) =~= bits::packed(payload));
    let merged = merged_values(constants, mask, stream, count as nat);
    assert forall|i: int| 0 <= i < count implies merged[i] == values[i] by {
        let tail = stream.skip(i * width);
        assert(0 <= i * width <= count * width) by (nonlinear_arith)
            requires
                0 <= i < count,
                0 <= width,
        ;
        assert forall|k: int| 0 <= k < width implies #[trigger] tail[k] == variable_bits(
            values[i],
            mask,
            16,
        )[k] by {
            lemma_payload_bit(values, mask, count, i, k);
            bits::lemma_unpacked(payload, i * width + k);
        }
        lemma_merged_value(values[i], mask, tail);
        lemma_shared_constants(values, i);
    }
    assert(merged =~= values);
    bf16::lemma_bytes_of_values(source);
}

/// The number of places that a mask leaves to each value.
fn count_variable_places(mask: u16) -> (count: usize)
    ensures
        count == variable_places(mask, 16),
        count <= 16,
{
    let mut count: usize = 0;
    let mut place: u16 = 0;
    while place < 16
        invariant
            place <= 16,
            count == variable_places(mask, place as int),
            count <= place,
        decreases 16 - place,
    {
        if mask & (1u16 << place) == 0 {
            count += 1;
        }
        place += 1;
    }
    count
}

/// Whether all values have the same bit in place `place`.
fn all_share(values: &Vec<u16>, place: u16) -> (shared: bool)
    requires
        values@.len() > 0,
        place < 16,
    ensures
        shared == shared_bit(values@, place as int),
{
    let bit: u16 = 1u16 << place;
    let first = values[0] & bit != 0;
    let mut index: usize = 0;
    while index < values.len()
        invariant
            index <= values.len(),
            values@.len() > 0,
            place < 16,
            bit == 1u16 << place,
            first == bits::has_bit(values@[0], place as int),
            forall|i: int|
                0 <= i < index ==> bits::has_bit(#[trigger] values@[i], place as int) == first,
        decreases values.len() - index,
    {
        if (values[index] & bit != 0) != first {
            return false;
        }
        index += 1;
    }
    true
}

/// Packs BF16 values by leaving out the bits that they share.
pub fn encode_bf16_bitpack(source: &[u8]) -> (result: Result<Vec<u8>, String>)
    ensures
        text::outcome_view(result) == bitpack_encoding(source@),
{
    if source.len() % 2 != 0 || source.len() == 0 {
        return Err("BF16 bitpack requires non-empty 2-byte-aligned input".to_owned());
    }
    let values = bf16::read_values(source);
    let mut mask: u16 = 0;
    let mut place: u16 = 0;
    while place < 16
        invariant
            values@.len() > 0,
            place <= 16,
            mask == shared_mask(values@, place as int),
        decreases 16 - place,
    {
        if all_share(&values, place) {
            mask = mask | (1u16 << place);
        }
        place += 1;
    }
    let mut encoded: Vec<u8> = Vec::new();
    bf16::push_value(&mut encoded, mask);
    bf16::push_value(&mut encoded, values[0] & mask);
    let mut writer = BitWriter::new();
    let mut index: usize = 0;
    while index < values.len()
        invariant
            index <= values.len(),
            writer.wf(),
            writer@ == payload_bits(values@, mask, index as int),
        decreases values.len() - index,
    {
        let value = values[index];
        let ghost before = writer@;
        let mut bit: u16 = 0;
        while bit < 16
            invariant
                bit <= 16,
                writer.wf(),
                writer@ == before + variable_bits(value, mask, bit as int),
            decreases 16 - bit,
        {
            let place_mask: u16 = 1u16 << bit;
            if mask & place_mask == 0 {
                writer.push(value & place_mask != 0);
            }
            bit += 1;
        }
        index += 1;
    }
    let mut payload = writer.finish();
    let ghost header = encoded@;
    encoded.append(&mut payload);
    proof {
        assert(encoded@ =~= bitpacked(values@));
    }
    Ok(encoded)
}

/// Unpacks `expected_len` bytes of BF16 values.
pub fn decode_bf16_bitpack(source: &[u8], expected_len: usize) -> (result: Result<Vec<u8>, String>)
    ensures
        text::outcome_view(result) == bitpack_decoding(source@, expected_len as nat),
{
    if source.len() < HEADER_BYTES || expected_len % 2 != 0 {
        return Err("BF16 bitpack stream has invalid dimensions".to_owned());
    }
    let mask: u16 = source[0] as u16 + 256 * (source[1] as u16);
    let constants: u16 = source[2] as u16 + 256 * (source[3] as u16);
    if constants & !mask != 0 {
        return Err("BF16 bitpack constants contain a variable bit".to_owned());
    }
    let count: usize = expected_len / 2;
    let width: usize = count_variable_places(mask);
    let groups: usize = count / 8;
    let rest: usize = count % 8;
    assert(groups * width <= 16 * groups) by (nonlinear_arith)
        requires
            width <= 16,
    ;
    assert(rest * width <= 7 * 16) by (nonlinear_arith)
        requires
            width <= 16,
            rest <= 7,
    ;
    assert(count * width == 8 * (groups * width) + rest * width) by (nonlinear_arith)
        requires
            count == 8 * groups + rest,
    ;
    let payload: usize = groups * width + (rest * width + 7) / 8;
    assert(payload == bits::bytes_for_bits((count * width) as nat));
    if source.len() - HEADER_BYTES != payload {
        return Err("BF16 bitpack payload length does not match metadata".to_owned());
    }
    let ghost stream = bits::unpacked(source@.skip(HEADER_BYTES as int));
    let ghost merged = merged_values(constants, mask, stream, count as nat);
    let mut decoded: Vec<u8> = Vec::new();
    let mut byte_index: usize = HEADER_BYTES;
    let mut bit_index: u8 = 0;
    let mut index: usize = 0;
    proof {
        assert(bf16::bytes_of(merged.take(0)) =~= Seq::<u8>::empty());
    }
    while index < count
        invariant
            index <= count,
            width == variable_places(mask, 16),
            source@.len() == HEADER_BYTES + bits::bytes_for_bits((count * width) as nat),
            stream == bits::unpacked(source@.skip(HEADER_BYTES as int)),
            merged == merged_values(constants, mask, stream, count as nat),
            decoded@ == bf16::bytes_of(merged.take(index as int)),
            bit_index < 8,
            byte_index >= HEADER_BYTES,
            8 * (byte_index - HEADER_BYTES) + bit_index == index * width,
        decreases count - index,
    {
        let mut value: u16 = constants;
        let mut bit: u16 = 0;
        let ghost start = index * width;
        proof {
            assert(start + width <= count * width && 0 <= start) by (nonlinear_arith)
                requires
                    index < count,
                    start == index * width,
            ;
        }
        while bit < 16
            invariant
                bit <= 16,
                width == variable_places(mask, 16),
                source@.len() == HEADER_BYTES + bits::bytes_for_bits((count * width) as nat),
                stream == bits::unpacked(source@.skip(HEADER_BYTES as int)),
                0 <= start,
                start + width <= count * width,
                value == merged_value(constants, mask, stream.skip(start), bit as int),
                bit_index < 8,
                byte_index >= HEADER_BYTES,
                8 * (byte_index - HEADER_BYTES) + bit_index == start + variable_places(
                    mask,
                    bit as int,
                ),
            decreases 16 - bit,
        {
            let place_mask: u16 = 1u16 << bit;
            if mask & place_mask == 0 {
                proof {
                    lemma_variable_places(mask, bit as int + 1, 16);
                    let at = start + variable_places(mask, bit as int);
                    assert(at / 8 == byte_index - HEADER_BYTES && at % 8 == bit_index);
                    assert(stream.skip(start)[variable_places(mask, bit as int) as int]
                        == bits::byte_has_bit(source@[byte_index as int], bit_index as int));
                }
                if source[byte_index] & (1u8 << bit_index) != 0 {
                    value = value | place_mask;
                }
                bit_index += 1;
                if bit_index == 8 {
                    byte_index += 1;
                    bit_index = 0;
                }
            }
            bit += 1;
        }
        proof {
            assert(value == merged[index as int]);
            assert(merged.take(index + 1) =~= merged.take(index as int).push(value));
            bf16::lemma_bytes_of_push(merged.take(index as int), value);
            assert((index + 1) * width == start + width) by (nonlinear_arith)
                requires
                    start == index * width,
            ;
        }
        bf16::push_value(&mut decoded, value);
        index += 1;
    }
    proof {
        assert(merged.take(count as int) =~= merged);
    }
    Ok(decoded)
}

} // verus!
