//! Zlib compression of whole buffers.
use vstd::prelude::*;

use crate::text;

verus! {

/// The compression level of `flate2::Compression::fast`.
pub const FAST_LEVEL: u32 = 1;

/// The largest buffer that is reserved before anything has been decompressed.
const MAX_RESERVED: usize = 0x7fff_ffff;

/// What writing `source` to a `flate2::write::ZlibEncoder` of the given level
/// and finishing the stream gives: the stream, or whether the failure came
/// from finishing, with the failure's text.
pub uninterp spec fn zlib_stream(source: Seq<u8>, level: nat) -> Result<Seq<u8>, (bool, Seq<char>)>;

/// What reading a `flate2::read::ZlibDecoder` over `stream` to its end gives:
/// the plain bytes, or the failure's text.
pub uninterp spec fn zlib_plain(stream: Seq<u8>) -> Result<Seq<u8>, Seq<char>>;

/// `flate2::write::ZlibEncoder` over a vector: `write_all` of the whole
/// source, then `finish`. The contract names the outcome, and claims that a
/// finished stream is read back by `flate2::read::ZlibDecoder` as the source.
#[verifier::external_body]
fn deflate(source: &[u8], level: u32) -> (result: Result<Vec<u8>, (bool, String)>)
    requires
        level <= 9,
    ensures
        match result {
            Ok(stream) => zlib_stream(source@, level as nat) == Ok::<Seq<u8>, (bool, Seq<char>)>(
                stream@,
            ) && zlib_plain(stream@) == Ok::<Seq<u8>, Seq<char>>(source@),
            Err(failure) => zlib_stream(source@, level as nat) == Err::<
                Seq<u8>,
                (bool, Seq<char>),
            >((failure.0, failure.1@)),
        },
{
    let compression = flate2::Compression::new(level);
    let mut encoder = flate2::write::ZlibEncoder::new(Vec::new(), compression);
    match std::io::Write::write_all(&mut encoder, source) {
        Ok(()) => encoder.finish().map_err(|error| (true, error.to_string())),
        Err(error) => Err((false, error.to_string())),
    }
}

/// `flate2::read::ZlibDecoder` over a stream, read to its end into a vector
/// with room for `capacity` bytes. The contract names the outcome, which does
/// not depend on the capacity.
#[verifier::external_body]
fn inflate(stream: &[u8], capacity: usize) -> (result: Result<Vec<u8>, String>)
    requires
        capacity <= MAX_RESERVED,
    ensures
        text::outcome_view(result) == zlib_plain(stream@),
{
    let mut decoder = flate2::read::ZlibDecoder::new(stream);
    let mut decoded = Vec::with_capacity(capacity);
    match std::io::Read::read_to_end(&mut decoder, &mut decoded) {
        Ok(_) => Ok(decoded),
        Err(error) => Err(error.to_string()),
    }
}

/// The outcome of compressing, with the step that failed named in the message.
pub open spec fn deflate_outcome(stream: Result<Seq<u8>, (bool, Seq<char>)>) -> Result<
    Seq<u8>,
    Seq<char>,
> {
    match stream {
        Ok(bytes) => Ok(bytes),
        Err((finishing, message)) => if finishing {
            Err("zlib finish: "@ + message)
        } else {
            Err("zlib encode: "@ + message)
        },
    }
}

/// The outcome of decompressing, with the step named in the message.
pub open spec fn inflate_outcome(plain: Result<Seq<u8>, Seq<char>>) -> Result<Seq<u8>, Seq<char>> {
    match plain {
        Ok(bytes) => Ok(bytes),
        Err(message) => Err("zlib decode: "@ + message),
    }
}

/// Names the step of a failed compression.
pub fn describe_deflate(result: Result<Vec<u8>, (bool, String)>) -> (described: Result<
    Vec<u8>,
    String,
>)
    ensures
        text::outcome_view(described) == deflate_outcome(
            match result {
                Ok(stream) => Ok(stream@),
                Err(failure) => Err((failure.0, failure.1@)),
            },
        ),
{
    match result {
        Ok(stream) => Ok(stream),
        Err((finishing, message)) => if finishing {
            Err(text::concat2("zlib finish: ", message.as_str()))
        } else {
            Err(text::concat2("zlib encode: ", message.as_str()))
        },
    }
}

/// Names the step of a failed decompression.
pub fn describe_inflate(result: Result<Vec<u8>, String>) -> (described: Result<Vec<u8>, String>)
    ensures
        text::outcome_view(described) == inflate_outcome(text::outcome_view(result)),
{
    match result {
        Ok(bytes) => Ok(bytes),
        Err(message) => Err(text::concat2("zlib decode: ", message.as_str())),
    }
}

/// Compresses a buffer fast.
pub fn zlib_encode(source: &[u8]) -> (result: Result<Vec<u8>, String>)
    ensures
        text::outcome_view(result) == deflate_outcome(zlib_stream(source@, FAST_LEVEL as nat)),
        result matches Ok(stream) ==> zlib_plain(stream@) == Ok::<Seq<u8>, Seq<char>>(source@),
{
    describe_deflate(deflate(source, FAST_LEVEL))
}

/// Decompresses a stream that is expected to hold `expected_len` bytes.
pub fn zlib_decode(source: &[u8], expected_len: usize) -> (result: Result<Vec<u8>, String>)
    ensures
        text::outcome_view(result) == inflate_outcome(zlib_plain(source@)),
{
    let capacity: usize = if expected_len < MAX_RESERVED { expected_len } else { MAX_RESERVED };
    describe_inflate(inflate(source, capacity))
}

} // verus!
