//! The lossless codecs.
use super_inference::lossless::bitpack::{decode_bf16_bitpack, encode_bf16_bitpack};
use super_inference::lossless::block::{codecs, decode_block, encode_block};
use super_inference::lossless::matrix::encode_bf16_bitpack_matrix;
use super_inference::lossless::measure::measure_codec;
use super_inference::lossless::plane::{bf16_plane_inverse, bf16_plane_transform};
use super_inference::lossless::rle::{decode_bf16_rle, encode_bf16_rle};
use super_inference::lossless::zlib::{
    describe_deflate, describe_inflate, zlib_decode, zlib_encode,
};
use super_inference::probes::lossless;
use super_inference::tensor::TensorInfo;

#[test]
fn invariant_bitpack_round_trips_bf16_bits() {
    let source = [0x00_u8, 0x3f, 0x01, 0x3f, 0x00, 0x3f, 0xff, 0x3e];
    let encoded = encode_bf16_bitpack(&source).expect("encode should succeed");
    let decoded = decode_bf16_bitpack(&encoded, source.len()).expect("decode should succeed");
    assert_eq!(decoded, source);
}

#[test]
fn row_aligned_bitpack_round_trips_matrix_tiles() {
    let source = [
        0x00_u8, 0x3f, 0x01, 0x3f, 0x00, 0x3f, 0xff, 0x3e, 0x02, 0x3f, 0x03, 0x3f,
    ];
    let (packed, offsets) =
        encode_bf16_bitpack_matrix(&source, 3, 2, 2).expect("matrix encoding should succeed");
    assert_eq!(offsets.len(), 3);
    let mut decoded = Vec::new();
    for tile in 0..2 {
        let start = offsets[tile] as usize;
        let end = offsets[tile + 1] as usize;
        decoded.extend(
            decode_bf16_bitpack(&packed[start..end], (if tile == 0 { 2 } else { 1 }) * 4)
                .expect("matrix tile should decode"),
        );
    }
    assert_eq!(decoded, source);
}

#[test]
fn bitpack_stores_shared_bits_once() {
    // All bits but the lowest are shared.
    let source = [0x00_u8, 0x3f, 0x01, 0x3f, 0x01, 0x3f];
    let encoded = encode_bf16_bitpack(&source).unwrap();
    assert_eq!(encoded, vec![0xfe, 0xff, 0x00, 0x3f, 0b110]);
    // A constant block needs no payload.
    assert_eq!(encode_bf16_bitpack(&[7, 8, 7, 8]).unwrap(), vec![0xff, 0xff, 7, 8]);
}

#[test]
fn bitpack_errors_are_reported() {
    let aligned = "BF16 bitpack requires non-empty 2-byte-aligned input";
    assert_eq!(encode_bf16_bitpack(&[]).unwrap_err(), aligned);
    assert_eq!(encode_bf16_bitpack(&[1]).unwrap_err(), aligned);
    let dimensions = "BF16 bitpack stream has invalid dimensions";
    assert_eq!(decode_bf16_bitpack(&[0, 0, 0], 2).unwrap_err(), dimensions);
    assert_eq!(decode_bf16_bitpack(&[0, 0, 0, 0], 3).unwrap_err(), dimensions);
    assert_eq!(
        decode_bf16_bitpack(&[0xfe, 0xff, 1, 0], 2).unwrap_err(),
        "BF16 bitpack constants contain a variable bit"
    );
    assert_eq!(
        decode_bf16_bitpack(&[0xfe, 0xff, 0, 0], 2).unwrap_err(),
        "BF16 bitpack payload length does not match metadata"
    );
}

#[test]
fn matrix_errors_are_reported() {
    let refused = |source: &[u8], rows, columns, tile_rows| {
        encode_bf16_bitpack_matrix(source, rows, columns, tile_rows).unwrap_err()
    };
    assert_eq!(refused(&[], 0, 1, 1), "BF16 bitpack matrix dimensions must be non-zero");
    assert_eq!(
        refused(&[], 1, usize::MAX, 1),
        "BF16 bitpack matrix row byte length overflow"
    );
    assert_eq!(refused(&[], usize::MAX, 1, 1), "BF16 bitpack matrix dimensions overflow");
    assert_eq!(
        refused(&[1, 2], 1, 2, 1),
        "BF16 bitpack matrix byte length does not match dimensions"
    );
}

#[test]
fn planes_hold_high_bytes_first() {
    let source = [1_u8, 2, 3, 4, 5, 6];
    let planes = bf16_plane_transform(&source).unwrap();
    assert_eq!(planes, vec![2, 4, 6, 1, 3, 5]);
    assert_eq!(bf16_plane_inverse(&planes).unwrap(), source);
    assert_eq!(
        bf16_plane_transform(&[1]).unwrap_err(),
        "BF16 plane transform requires 2-byte alignment"
    );
    assert_eq!(
        bf16_plane_inverse(&[1, 2, 3]).unwrap_err(),
        "BF16 plane stream has invalid length"
    );
}

#[test]
fn runs_are_counted_up_to_their_limit() {
    let source = [9_u8, 8, 9, 8, 7, 6];
    let encoded = encode_bf16_rle(&source).unwrap();
    assert_eq!(encoded, vec![2, 0, 9, 8, 1, 0, 7, 6]);
    assert_eq!(decode_bf16_rle(&encoded).unwrap(), source);
    let long = [1_u8, 2].repeat(65536);
    let encoded = encode_bf16_rle(&long).unwrap();
    assert_eq!(encoded, vec![0xff, 0xff, 1, 2, 1, 0, 1, 2]);
    assert_eq!(decode_bf16_rle(&encoded).unwrap(), long);
    assert_eq!(encode_bf16_rle(&[]).unwrap(), Vec::<u8>::new());
}

#[test]
fn runs_take_the_fewest_records() {
    let source = [1_u8, 2, 1, 2, 3, 4, 1, 2];
    let encoded = encode_bf16_rle(&source).unwrap();
    assert_eq!(encoded, vec![2, 0, 1, 2, 1, 0, 3, 4, 1, 0, 1, 2]);
    let longer = [1_u8, 0, 1, 2, 1, 0, 1, 2, 1, 0, 3, 4, 1, 0, 1, 2];
    assert_eq!(decode_bf16_rle(&longer).unwrap(), source);
    assert!(encoded.len() < longer.len());
    let encoded = encode_bf16_rle(&[5_u8, 6].repeat(131071)).unwrap();
    assert_eq!(encoded, vec![0xff, 0xff, 5, 6, 0xff, 0xff, 5, 6, 1, 0, 5, 6]);
}

#[test]
fn run_errors_are_reported() {
    assert_eq!(encode_bf16_rle(&[1]).unwrap_err(), "BF16 RLE requires 2-byte alignment");
    assert_eq!(decode_bf16_rle(&[1, 0, 1]).unwrap_err(), "BF16 RLE stream has invalid length");
    assert_eq!(
        decode_bf16_rle(&[0, 0, 1, 2]).unwrap_err(),
        "BF16 RLE stream contains a zero run"
    );
}

#[test]
fn zlib_compresses_and_restores() {
    let source = vec![3_u8; 4096];
    let encoded = zlib_encode(&source).unwrap();
    assert!(encoded.len() < 100);
    assert_ne!(encoded, source);
    assert_eq!(encoded[0] & 0x0f, 8);
    assert_eq!(zlib_decode(&encoded, source.len()).unwrap(), source);
    let message = zlib_decode(&[1, 2, 3], 4).unwrap_err();
    assert!(message.starts_with("zlib decode: "), "{message}");
}

#[test]
fn zlib_failures_say_where_they_came() {
    assert_eq!(
        describe_deflate(Err((false, "full".to_owned()))).unwrap_err(),
        "zlib encode: full"
    );
    assert_eq!(
        describe_deflate(Err((true, "full".to_owned()))).unwrap_err(),
        "zlib finish: full"
    );
    assert_eq!(describe_deflate(Ok(vec![1])).unwrap(), vec![1]);
    assert_eq!(describe_inflate(Err("bad".to_owned())).unwrap_err(), "zlib decode: bad");
    assert_eq!(describe_inflate(Ok(vec![2])).unwrap(), vec![2]);
}

#[test]
fn every_codec_restores_every_block() {
    let blocks: [&[u8]; 4] = [&[1, 2], &[0, 0, 0, 0], &[1, 2, 3, 4, 1, 2], &[255; 64]];
    assert_eq!(codecs(), vec!["zlib", "bf16-plane-zlib", "bf16-bitpack", "bf16-rle"]);
    for codec in codecs() {
        for block in blocks {
            let encoded = encode_block(block, &codec).unwrap();
            assert_eq!(decode_block(&encoded, block, &codec), Ok(()));
        }
    }
    assert_eq!(encode_block(&[1, 2], "lzma").unwrap_err(), "unsupported codec lzma");
    assert_eq!(decode_block(&[1, 2], &[1], "lzma").unwrap_err(), "unsupported codec lzma");
}

#[test]
fn changed_bits_are_noticed() {
    let encoded = encode_block(&[1, 2], "bf16-rle").unwrap();
    assert_eq!(
        decode_block(&encoded, &[1, 3], "bf16-rle").unwrap_err(),
        "lossless codec round-trip changed BF16 bits"
    );
}

#[test]
fn measured_blocks_are_counted_and_summed() {
    let bytes = [1_u8, 2, 1, 2, 1, 2, 5, 6, 7, 8];
    let run = measure_codec(&bytes, 4, "bf16-rle").unwrap();
    assert_eq!(run.blocks, 3);
    // One run, then two runs, then one.
    assert_eq!(run.compressed_bytes, 4 + 8 + 4);
    assert_eq!(run.encode_times.len(), 3);
    assert_eq!(run.decode_times.len(), 3);
    let empty = measure_codec(&[], 4, "zlib").unwrap();
    assert_eq!(empty.blocks, 0);
    assert_eq!(empty.compressed_bytes, 0);
    assert_eq!(
        measure_codec(&[1, 2, 3], 2, "bf16-rle").unwrap_err(),
        "BF16 RLE requires 2-byte alignment"
    );
    let zlib = measure_codec(&bytes, 10, "zlib").unwrap();
    assert_eq!(zlib.compressed_bytes, zlib_encode(&bytes).unwrap().len());
}

#[test]
fn probe_chooses_and_describes_tensors() {
    assert_eq!(
        lossless::measured_tensors(Vec::new()),
        vec![
            "model.layers.0.self_attn.q_proj.weight",
            "model.layers.0.mlp.down_proj.weight",
            "model.embed_tokens.weight",
        ]
    );
    assert_eq!(lossless::measured_tensors(vec!["a".to_owned()]), vec!["a"]);
    assert_eq!(
        lossless::header_line("dir", 65536),
        "probe=model=dir block_kib=64 codecs=zlib,bf16-plane-zlib,bf16-bitpack,bf16-rle"
    );
    assert_eq!(
        lossless::tensor_line("a", &vec![2, 3], 12),
        "tensor=a shape=[2, 3] bytes=12"
    );
    let mut info = TensorInfo {
        name: "a".to_owned(),
        shard: "s".to_owned(),
        dtype: "BF16".to_owned(),
        shape: vec![2, 3],
        data_start: 0,
        data_end: 12,
    };
    assert_eq!(lossless::check_tensor("a", &info), Ok(()));
    info.dtype = "F32".to_owned();
    assert_eq!(lossless::check_tensor("a", &info).unwrap_err(), "a is not BF16");
}

#[test]
fn probe_skips_what_it_cannot_multiply() {
    let limit = 100 * 1024 * 1024;
    assert_eq!(lossless::matvec_probe(1, 2), lossless::MatvecProbe::RankNotTwo);
    assert_eq!(lossless::matvec_probe(2, limit), lossless::MatvecProbe::Run);
    let large = lossless::matvec_probe(2, limit + 1);
    assert_eq!(large, lossless::MatvecProbe::TensorTooLarge);
    assert_eq!(
        lossless::skipped_line(large, limit + 1).unwrap(),
        "metal_matvec=skipped reason=tensor_too_large bytes=104857601 limit=104857600"
    );
    assert_eq!(
        lossless::skipped_line(lossless::MatvecProbe::RankNotTwo, 0).unwrap(),
        "metal_matvec=skipped reason=rank_not_two"
    );
    assert_eq!(lossless::skipped_line(lossless::MatvecProbe::Run, 0), None);
}
