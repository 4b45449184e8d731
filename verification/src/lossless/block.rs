//! The block codecs by name, and the check that a coded block decodes to itself.
use vstd::prelude::*;

use super::bitpack;
use super::plane;
use super::rle;
use super::zlib;
use crate::text;

verus! {

/// The outcome of a step that works on the bytes of the step before it.
pub open spec fn chained(
    first: Result<Seq<u8>, Seq<char>>,
    next: spec_fn(Seq<u8>) -> Result<Seq<u8>, Seq<char>>,
) -> Result<Seq<u8>, Seq<char>> {
    match first {
        Ok(bytes) => next(bytes),
        Err(message) => Err(message),
    }
}

pub open spec fn zlib_encoding(source: Seq<u8>) -> Result<Seq<u8>, Seq<char>> {
    zlib::deflate_outcome(zlib::zlib_stream(source, zlib::FAST_LEVEL as nat))
}

pub open spec fn zlib_decoding(stream: Seq<u8>) -> Result<Seq<u8>, Seq<char>> {
    zlib::inflate_outcome(zlib::zlib_plain(stream))
}

/// A block as the named codec encodes it.
pub open spec fn block_encoding(source: Seq<u8>, codec: Seq<char>) -> Result<Seq<u8>, Seq<char>> {
    if codec == "zlib"@ {
        zlib_encoding(source)
    } else if codec == "bf16-plane-zlib"@ {
        chained(plane::plane_transform(source), |bytes: Seq<u8>| zlib_encoding(bytes))
    } else if codec == "bf16-bitpack"@ {
        bitpack::bitpack_encoding(source)
    } else if codec == "bf16-rle"@ {
        rle::rle_encoding(source)
    } else {
        Err("unsupported codec "@ + codec)
    }
}

/// A stream as the named codec decodes it into a block of `expected_len` bytes.
pub open spec fn block_decoding(
    compressed: Seq<u8>,
    expected_len: nat,
    codec: Seq<char>,
) -> Result<Seq<u8>, Seq<char>> {
    if codec == "zlib"@ {
        zlib_decoding(compressed)
    } else if codec == "bf16-plane-zlib"@ {
        chained(zlib_decoding(compressed), |bytes: Seq<u8>| plane::plane_inverse(bytes))
    } else if codec == "bf16-bitpack"@ {
        bitpack::bitpack_decoding(compressed, expected_len)
    } else if codec == "bf16-rle"@ {
        rle::rle_decoding(compressed)
    } else {
        Err("unsupported codec "@ + codec)
    }
}

/// The verdict on decoded bytes.
pub open spec fn block_check(
    decoded: Result<Seq<u8>, Seq<char>>,
    expected: Seq<u8>,
) -> Result<(), Seq<char>> {
    match decoded {
        Ok(bytes) => if bytes == expected {
            Ok(())
        } else {
            Err("lossless codec round-trip changed BF16 bits"@)
        },
        Err(message) => Err(message),
    }
}

/// The names of the codecs, in the order in which they are measured.
pub open spec fn codec_names() -> Seq<Seq<char>> {
    seq!["zlib"@, "bf16-plane-zlib"@, "bf16-bitpack"@, "bf16-rle"@]
}

/// The codecs in the order in which they are measured.
pub fn codecs() -> (names: Vec<String>)
    ensures
        text::texts(names@) == codec_names(),
{
    let mut names: Vec<String> = Vec::new();
    names.push("zlib".to_owned());
    names.push("bf16-plane-zlib".to_owned());
    names.push("bf16-bitpack".to_owned());
    names.push("bf16-rle".to_owned());
    proof {
        assert(text::texts(names@) =~= codec_names());
    }
    names
}

/// Encodes a block; what is encoded decodes to the block.
pub fn encode_block(source: &[u8], codec: &str) -> (result: Result<Vec<u8>, String>)
    ensures
        text::outcome_view(result) == block_encoding(source@, codec@),
        result matches Ok(encoded) ==> block_decoding(encoded@, source@.len(), codec@) == Ok::<
            Seq<u8>,
            Seq<char>,
        >(source@),
{
    if text::same_text(codec, "zlib") {
        zlib::zlib_encode(source)
    } else if text::same_text(codec, "bf16-plane-zlib") {
        match plane::bf16_plane_transform(source) {
            Ok(transformed) => {
                proof {
                    plane::law_plane_round_trip(source@);
                }
                zlib::zlib_encode(transformed.as_slice())
            },
            Err(message) => Err(message),
        }
    } else if text::same_text(codec, "bf16-bitpack") {
        proof {
            if source@.len() % 2 == 0 && source@.len() > 0 {
                bitpack::law_bitpack_round_trip(source@);
            }
        }
        bitpack::encode_bf16_bitpack(source)
    } else if text::same_text(codec, "bf16-rle") {
        proof {
            if source@.len() % 2 == 0 {
                rle::law_rle_round_trip(source@);
            }
        }
        rle::encode_bf16_rle(source)
    } else {
        Err(text::concat2("unsupported codec ", codec))
    }
}

/// Whether two byte sequences are the same.
pub fn same_bytes(left: &[u8], right: &[u8]) -> (same: bool)
    ensures
        same == (left@ == right@),
{
    if left.len() != right.len() {
        return false;
    }
    let mut index: usize = 0;
    while index < left.len()
        invariant
            left@.len() == right@.len(),
            index <= left@.len(),
            left@.take(index as int) == right@.take(index as int),
        decreases left@.len() - index,
    {
        if left[index] != right[index] {
            return false;
        }
        proof {
            assert(left@.take(index + 1) =~= left@.take(index as int).push(left@[index as int]));
            assert(right@.take(index + 1) =~= right@.take(index as int).push(right@[index as int]));
        }
        index += 1;
    }
    proof {
        assert(left@.take(index as int) =~= left@);
        assert(right@.take(index as int) =~= right@);
    }
    true
}

/// Decodes a block and holds it against the bytes it was made from.
pub fn decode_block(compressed: &[u8], expected: &[u8], codec: &str) -> (result: Result<(), String>)
    ensures
        text::outcome(result) == block_check(
            block_decoding(compressed@, expected@.len(), codec@),
            expected@,
        ),
{
    let decoded = if text::same_text(codec, "zlib") {
        zlib::zlib_decode(compressed, expected.len())
    } else if text::same_text(codec, "bf16-plane-zlib") {
        match zlib::zlib_decode(compressed, expected.len()) {
            Ok(transformed) => plane::bf16_plane_inverse(transformed.as_slice()),
            Err(message) => Err(message),
        }
    } else if text::same_text(codec, "bf16-bitpack") {
        bitpack::decode_bf16_bitpack(compressed, expected.len())
    } else if text::same_text(codec, "bf16-rle") {
        rle::decode_bf16_rle(compressed)
    } else {
        Err(text::concat2("unsupported codec ", codec))
    };
    match decoded {
        Ok(bytes) => if same_bytes(bytes.as_slice(), expected) {
            Ok(())
        } else {
            Err("lossless codec round-trip changed BF16 bits".to_owned())
        },
        Err(message) => Err(message),
    }
}

} // verus!
