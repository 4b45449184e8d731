//! Bit sequences packed into bytes, the first bit in the least significant place.
use vstd::prelude::*;

verus! {

pub open spec fn has_bit(value: u16, bit: int) -> bool {
    value & (1u16 << (bit as u16)) != 0
}

pub open spec fn byte_has_bit(byte: u8, bit: int) -> bool {
    byte & (1u8 << (bit as u8)) != 0
}

/// The byte whose low bits are `bits`, for at most eight bits.
pub open spec fn byte_of(bits: Seq<bool>) -> u8
    decreases bits.len(),
{
    if bits.len() == 0 {
        0
    } else if bits.last() {
        byte_of(bits.drop_last()) | (1u8 << ((bits.len() - 1) as u8))
    } else {
        byte_of(bits.drop_last())
    }
}

/// The bits of the `index`-th byte of a packed sequence.
pub open spec fn byte_bits(bits: Seq<bool>, index: int) -> Seq<bool> {
    bits.subrange(8 * index, if 8 * index + 8 <= bits.len() { 8 * index + 8 } else { bits.len() as int })
}

/// The number of bytes that hold `count` bits.
pub open spec fn bytes_for_bits(count: nat) -> nat {
    (count + 7) / 8
}

/// The bits packed into as few bytes as hold them.
pub open spec fn packed(bits: Seq<bool>) -> Seq<u8> {
    Seq::new(bytes_for_bits(bits.len()), |index: int| byte_of(byte_bits(bits, index)))
}

/// All bits of a byte sequence.
pub open spec fn unpacked(bytes: Seq<u8>) -> Seq<bool> {
    Seq::new(8 * bytes.len(), |i: int| byte_has_bit(bytes[i / 8], i % 8))
}

proof fn lemma_set_byte_bit(byte: u8, bit: u8, other: u8)
    requires
        bit < 8,
        other < 8,
    ensures
        byte_has_bit(byte | (1u8 << bit), other as int) == (byte_has_bit(byte, other as int) || bit
            == other),
{
    assert(((byte | (1u8 << bit)) & (1u8 << other) != 0) == ((byte & (1u8 << other) != 0) || bit
        == other)) by (bit_vector)
        requires
            bit < 8,
            other < 8,
    ;
}

/// A packed byte has exactly the bits that were packed into it.
pub proof fn lemma_byte_of(bits: Seq<bool>, bit: int)
    requires
        bits.len() <= 8,
        0 <= bit < 8,
    ensures
        byte_has_bit(byte_of(bits), bit) == (bit < bits.len() && bits[bit]),
    decreases bits.len(),
{
    let other = bit as u8;
    if bits.len() == 0 {
        assert(0u8 & (1u8 << other) == 0) by (bit_vector);
    } else {
        lemma_byte_of(bits.drop_last(), bit);
        if bits.last() {
            lemma_set_byte_bit(byte_of(bits.drop_last()), (bits.len() - 1) as u8, other);
        }
    }
}

/// Unpacking gives the packed bits back, followed by zeros up to a whole byte.
pub proof fn lemma_unpacked(bits: Seq<bool>, i: int)
    requires
        0 <= i < 8 * packed(bits).len(),
    ensures
        unpacked(packed(bits))[i] == (i < bits.len() && bits[i]),
{
    let index = i / 8;
    assert(byte_bits(bits, index).len() <= 8);
    lemma_byte_of(byte_bits(bits, index), i % 8);
}

/// Setting a bit leaves the other bits as they were.
pub proof fn lemma_set_bit(value: u16, bit: int, other: int)
    requires
        0 <= bit < 16,
        0 <= other < 16,
    ensures
        has_bit(value | (1u16 << (bit as u16)), other) == (has_bit(value, other) || bit == other),
{
    let b = bit as u16;
    let o = other as u16;
    assert(((value | (1u16 << b)) & (1u16 << o) != 0) == ((value & (1u16 << o) != 0) || b == o))
        by (bit_vector)
        requires
            b < 16,
            o < 16,
    ;
}

/// A bit of a bitwise conjunction is set where both sides have it.
pub proof fn lemma_and_bit(left: u16, right: u16, bit: int)
    requires
        0 <= bit < 16,
    ensures
        has_bit(left & right, bit) == (has_bit(left, bit) && has_bit(right, bit)),
{
    let b = bit as u16;
    assert(((left & right) & (1u16 << b) != 0) == ((left & (1u16 << b) != 0) && (right & (1u16 << b)
        != 0))) by (bit_vector)
        requires
            b < 16,
    ;
}

pub proof fn lemma_no_bit(bit: int)
    requires
        0 <= bit < 16,
    ensures
        !has_bit(0u16, bit),
{
    let b = bit as u16;
    assert(0u16 & (1u16 << b) == 0) by (bit_vector);
}

/// Values with the same sixteen bits are equal.
pub proof fn lemma_same_bits(left: u16, right: u16)
    requires
        forall|bit: int| 0 <= bit < 16 ==> #[trigger] has_bit(left, bit) == has_bit(right, bit),
    ensures
        left == right,
{
    assert(has_bit(left, 0) == has_bit(right, 0));
    assert(has_bit(left, 1) == has_bit(right, 1));
    assert(has_bit(left, 2) == has_bit(right, 2));
    assert(has_bit(left, 3) == has_bit(right, 3));
    assert(has_bit(left, 4) == has_bit(right, 4));
    assert(has_bit(left, 5) == has_bit(right, 5));
    assert(has_bit(left, 6) == has_bit(right, 6));
    assert(has_bit(left, 7) == has_bit(right, 7));
    assert(has_bit(left, 8) == has_bit(right, 8));
    assert(has_bit(left, 9) == has_bit(right, 9));
    assert(has_bit(left, 10) == has_bit(right, 10));
    assert(has_bit(left, 11) == has_bit(right, 11));
    assert(has_bit(left, 12) == has_bit(right, 12));
    assert(has_bit(left, 13) == has_bit(right, 13));
    assert(has_bit(left, 14) == has_bit(right, 14));
    assert(has_bit(left, 15) == has_bit(right, 15));
    assert(left == right) by (bit_vector)
        requires
            (left & (1u16 << 0u16) != 0) == (right & (1u16 << 0u16) != 0),
            (left & (1u16 << 1u16) != 0) == (right & (1u16 << 1u16) != 0),
            (left & (1u16 << 2u16) != 0) == (right & (1u16 << 2u16) != 0),
            (left & (1u16 << 3u16) != 0) == (right & (1u16 << 3u16) != 0),
            (left & (1u16 << 4u16) != 0) == (right & (1u16 << 4u16) != 0),
            (left & (1u16 << 5u16) != 0) == (right & (1u16 << 5u16) != 0),
            (left & (1u16 << 6u16) != 0) == (right & (1u16 << 6u16) != 0),
            (left & (1u16 << 7u16) != 0) == (right & (1u16 << 7u16) != 0),
            (left & (1u16 << 8u16) != 0) == (right & (1u16 << 8u16) != 0),
            (left & (1u16 << 9u16) != 0) == (right & (1u16 << 9u16) != 0),
            (left & (1u16 << 10u16) != 0) == (right & (1u16 << 10u16) != 0),
            (left & (1u16 << 11u16) != 0) == (right & (1u16 << 11u16) != 0),
            (left & (1u16 << 12u16) != 0) == (right & (1u16 << 12u16) != 0),
            (left & (1u16 << 13u16) != 0) == (right & (1u16 << 13u16) != 0),
            (left & (1u16 << 14u16) != 0) == (right & (1u16 << 14u16) != 0),
            (left & (1u16 << 15u16) != 0) == (right & (1u16 << 15u16) != 0),
    ;
}

/// Collects single bits into bytes.
pub struct BitWriter {
    bytes: Vec<u8>,
    accumulator: u8,
    available: u8,
    bits: Ghost<Seq<bool>>,
}

impl View for BitWriter {
    type V = Seq<bool>;

    closed spec fn view(&self) -> Seq<bool> {
        self.bits@
    }
}

impl BitWriter {
    /// The whole bytes written so far, and the bits of the byte that is being filled.
    pub closed spec fn wf(&self) -> bool {
        let whole = self.bits@.len() as int / 8;
        &&& self.bytes@.len() == whole
        &&& forall|k: int|
            0 <= k < whole ==> #[trigger] self.bytes@[k] == byte_of(byte_bits(self.bits@, k))
        &&& self.available == self.bits@.len() % 8
        &&& self.accumulator == byte_of(self.bits@.skip(8 * whole))
    }

    pub fn new() -> (writer: BitWriter)
        ensures
            writer.wf(),
            writer@ == Seq::<bool>::empty(),
    {
        let writer = BitWriter {
            bytes: Vec::new(),
            accumulator: 0,
            available: 0,
            bits: Ghost(Seq::empty()),
        };
        proof {
            assert(writer.bits@.skip(0) =~= Seq::<bool>::empty());
        }
        writer
    }

    pub fn push(&mut self, bit: bool)
        requires
            old(self).wf(),
        ensures
            final(self).wf(),
            final(self)@ == old(self)@.push(bit),
    {
        let ghost before = self.bits@;
        let ghost whole = before.len() as int / 8;
        let ghost after = before.push(bit);
        if bit {
            self.accumulator = self.accumulator | (1u8 << self.available);
        }
        proof {
            assert(after.skip(8 * whole).drop_last() =~= before.skip(8 * whole));
            assert(after.skip(8 * whole).last() == bit);
            assert forall|k: int| 0 <= k < whole implies byte_bits(after, k) == #[trigger] byte_bits(
                before,
                k,
            ) by {
                assert(byte_bits(after, k) =~= byte_bits(before, k));
            }
        }
        self.bits = Ghost(after);
        self.available = self.available + 1;
        if self.available == 8 {
            self.bytes.push(self.accumulator);
            self.accumulator = 0;
            self.available = 0;
            proof {
                assert(after.skip(8 * whole) =~= byte_bits(after, whole));
                assert(after.skip(8 * (whole + 1)) =~= Seq::<bool>::empty());
            }
        }
    }

    /// The bytes that hold the bits, the last one filled up with zeros.
    pub fn finish(self) -> (bytes: Vec<u8>)
        requires
            self.wf(),
        ensures
            bytes@ == packed(self@),
    {
        let mut bytes = self.bytes;
        let ghost bits = self.bits@;
        let ghost whole = bits.len() as int / 8;
        if self.available > 0 {
            bytes.push(self.accumulator);
            proof {
                assert(bits.skip(8 * whole) =~= byte_bits(bits, whole));
            }
        }
        proof {
            assert(bytes@ =~= packed(bits));
        }
        bytes
    }
}

} // verus!
