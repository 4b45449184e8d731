//! What the probes check, choose and list.
use super_inference::probes::checks::{
    attention_tensor_names, batches, candidate_ranges, check_capacity, check_committed,
    check_draft_vocabulary, check_first_candidate, check_layer, check_layer_kind,
    check_projection, check_prompt_tokens, check_shared_prompt, check_staged_layer,
    check_verified_prompt, gated_delta_tensor_names, mlp_tensor_names, stepped_token, LayerKind,
};
use super_inference::probes::gguf_inspect::{
    list_file, part_shown, summarize, summarize_text, type_counts, GgufValue, ListedTensor,
};
use super_inference::probes::lossless::{
    check_tensor as check_measured, header_line, matvec_probe, measured_tensors, skipped_line,
    tensor_line, MatvecProbe, MATVEC_LIMIT,
};
use super_inference::metal::kernel::Switches;
use super_inference::probes::drafting::{positions, Draft};
use super_inference::probes::q4::{
    check_tensor, choose_tensor, compared_switches, measured_switches, weight_source, WeightSource,
};
use super_inference::probes::resident_drafter::Tracing;
use super_inference::probes::gguf_batch;
use super_inference::quant::{GGML_TYPE_F32, GGML_TYPE_Q4_K, GGML_TYPE_Q6_K};
use super_inference::tensor::{GgufTensorInfo, TensorInfo};

#[test]
fn layers_are_checked_against_the_model() {
    assert_eq!(check_layer(3, 4), Ok(()));
    assert_eq!(check_layer(4, 4).unwrap_err(), "--layer 4 exceeds 4 layers");
    assert_eq!(check_staged_layer(3, 4), Ok(()));
    assert_eq!(check_staged_layer(4, 4).unwrap_err(), "--layer exceeds model depth");
    let (full, delta) = (LayerKind::FullAttention, LayerKind::GatedDeltaNet);
    assert_eq!(check_layer_kind(3, full, full), Ok(()));
    assert_eq!(
        check_layer_kind(2, delta, full).unwrap_err(),
        "layer 2 is a Gated DeltaNet layer"
    );
    assert_eq!(
        check_layer_kind(3, full, delta).unwrap_err(),
        "layer 3 is a full-attention layer"
    );
}

#[test]
fn sizes_are_checked_before_a_run() {
    assert_eq!(check_capacity(2, 2), Ok(()));
    assert_eq!(
        check_capacity(3, 2).unwrap_err(),
        "--tokens cannot exceed --capacity for a bounded KV state"
    );
    assert_eq!(check_prompt_tokens(1), Ok(()));
    assert_eq!(check_prompt_tokens(0).unwrap_err(), "prompt produced no tokens");
    assert_eq!(check_verified_prompt(1), Ok(()));
    assert_eq!(
        check_verified_prompt(0).unwrap_err(),
        "probe prompt tokenized to zero tokens"
    );
    assert_eq!(check_committed(3, 2, 5), Ok(()));
    assert_eq!(
        check_committed(3, 2, 4).unwrap_err(),
        "verify_many committed 4 cache tokens, expected 5"
    );
    assert_eq!(batches(), vec![1, 2, 4, 8]);
    assert_eq!(candidate_ranges(3, 2), vec![(0, 2), (2, 4), (4, 6)]);
    assert_eq!(stepped_token(548), 549);
    assert_eq!(stepped_token(248_319), 0);
}

#[test]
fn projections_are_bf16_matrices() {
    let info = |dtype: &str, shape| TensorInfo {
        name: "q_proj.weight".to_owned(),
        shard: "shard".to_owned(),
        dtype: dtype.to_owned(),
        shape,
        data_start: 0,
        data_end: 0,
    };
    let message = "q_proj.weight must be a rank-2 BF16 tensor";
    assert_eq!(check_projection(&info("BF16", vec![2, 2])), Ok(()));
    assert_eq!(check_projection(&info("F32", vec![2, 2])).unwrap_err(), message);
    assert_eq!(check_projection(&info("BF16", vec![2])).unwrap_err(), message);
    assert_eq!(check_measured("w", &info("BF16", vec![2])), Ok(()));
    assert_eq!(check_measured("w", &info("F32", vec![2])).unwrap_err(), "w is not BF16");
}

#[test]
fn drafts_share_the_vocabulary_of_the_target() {
    assert_eq!(check_draft_vocabulary(10, 10), Ok(()));
    assert_eq!(
        check_draft_vocabulary(11, 10).unwrap_err(),
        "draft vocabulary exceeds target vocabulary"
    );
    assert_eq!(check_shared_prompt(&[1, 9], 10), Ok(()));
    assert_eq!(
        check_shared_prompt(&[1, 10, 11], 10).unwrap_err(),
        "prompt token 10 is outside draft vocabulary; choose a shared-token prompt"
    );
    assert_eq!(check_first_candidate(&[4, 5], 4), Ok(()));
    assert_eq!(
        check_first_candidate(&[4, 5], 5).unwrap_err(),
        "draft first token 4 disagrees with target 5"
    );
    assert_eq!(
        check_first_candidate(&[], 0).unwrap_err(),
        "draft first token 0 disagrees with target 0"
    );
}

#[test]
fn tensors_of_a_layer_are_named_by_its_number() {
    assert_eq!(
        mlp_tensor_names(12),
        vec!["blk.12.ffn_gate.weight", "blk.12.ffn_up.weight", "blk.12.ffn_down.weight"]
    );
    assert_eq!(attention_tensor_names(3)[5], "blk.3.attn_k_norm.weight");
    assert_eq!(attention_tensor_names(3).len(), 6);
    assert_eq!(gated_delta_tensor_names(0)[6], "blk.0.ssm_dt.bias");
    assert_eq!(gated_delta_tensor_names(0).len(), 9);
}

#[test]
fn a_q4_k_matrix_is_chosen_by_default() {
    let tensor = |name: &str, ggml_type, shape| GgufTensorInfo {
        name: name.to_owned(),
        ggml_type,
        shape,
    };
    let tensors = vec![
        tensor("a", GGML_TYPE_F32, vec![2, 2]),
        tensor("b", GGML_TYPE_Q4_K, vec![256]),
        tensor("c", GGML_TYPE_Q4_K, vec![256, 2]),
    ];
    assert_eq!(choose_tensor(None, &tensors), Ok("c".to_owned()));
    assert_eq!(choose_tensor(Some("a".to_owned()), &tensors), Ok("a".to_owned()));
    let message = "GGUF model has no rank-2 Q4_K tensor";
    assert_eq!(choose_tensor(None, &tensors[..2].to_vec()).unwrap_err(), message);
    assert_eq!(choose_tensor(Some(String::new()), &tensors).unwrap_err(), message);
    assert_eq!(check_tensor("c", &tensors[2]), Ok(()));
    for index in 0..2 {
        assert_eq!(
            check_tensor("t", &tensors[index]).unwrap_err(),
            "tensor t is not a supported rank-2 K-quant matrix"
        );
    }
    assert_eq!(weight_source(true, true), WeightSource::Dequantized);
    assert_eq!(weight_source(false, true), WeightSource::Private);
    assert_eq!(weight_source(false, false), WeightSource::Mapped);
    assert_eq!(gguf_batch::check_tensor(&vec![256, 3], 4), Ok(1024));
    assert_eq!(
        gguf_batch::check_tensor(&vec![256], 4).unwrap_err(),
        "tensor must be rank-2"
    );
}

#[test]
fn lossless_lines_describe_the_tensors() {
    assert_eq!(measured_tensors(vec!["w".to_owned()]), vec!["w"]);
    assert!(!measured_tensors(vec![]).is_empty());
    assert_eq!(
        header_line("m", 65536),
        "probe=model=m block_kib=64 codecs=zlib,bf16-plane-zlib,bf16-bitpack,bf16-rle"
    );
    assert_eq!(tensor_line("w", &vec![2, 3], 12), "tensor=w shape=[2, 3] bytes=12");
    assert_eq!(matvec_probe(1, 8), MatvecProbe::RankNotTwo);
    assert_eq!(matvec_probe(2, MATVEC_LIMIT), MatvecProbe::Run);
    assert_eq!(matvec_probe(2, MATVEC_LIMIT + 1), MatvecProbe::TensorTooLarge);
    assert_eq!(skipped_line(MatvecProbe::Run, 8), None);
    assert_eq!(
        skipped_line(MatvecProbe::RankNotTwo, 8).unwrap(),
        "metal_matvec=skipped reason=rank_not_two"
    );
    assert_eq!(
        skipped_line(MatvecProbe::TensorTooLarge, 104_857_602).unwrap(),
        "metal_matvec=skipped reason=tensor_too_large bytes=104857602 limit=104857600"
    );
}

fn text(value: &str) -> GgufValue {
    GgufValue::String(value.to_owned())
}

#[test]
fn metadata_is_summarized() {
    assert_eq!(summarize(&text("a\"b\n")), format!("string({:?})", "a\"b\n"));
    assert_eq!(summarize(&GgufValue::Other("U32(7)".to_owned())), "U32(7)");
    assert_eq!(summarize(&GgufValue::Array(vec![])), "array(len=0, first=[])");
    let numbers: Vec<GgufValue> =
        (0..4).map(|number| GgufValue::Other(format!("{number}"))).collect();
    assert_eq!(
        summarize(&GgufValue::Array(numbers)),
        "array(len=4, first=[0, 1, 2])"
    );
    let nested = GgufValue::Array(vec![GgufValue::Array(vec![]), text("x")]);
    assert_eq!(
        summarize(&nested),
        "array(len=2, first=[array(len=0, first=[]), string(\"x\")])"
    );
}

#[test]
fn long_texts_are_shown_in_part() {
    let whole = "x".repeat(160);
    assert_eq!(part_shown(&whole), whole);
    assert_eq!(summarize(&text(&whole)), format!("string({whole:?})"));
    let long = "y".repeat(161);
    assert_eq!(
        summarize(&text(&long)),
        format!("string(len=161, prefix={:?})", "y".repeat(160))
    );
    let wide = "é".repeat(100);
    assert_eq!(part_shown(&wide), wide);
    assert_eq!(
        summarize(&text(&wide)),
        format!("string(len=200, prefix={wide:?})")
    );
    assert_eq!(summarize_text("short", "shown"), "string(shown)");
    assert_eq!(summarize_text(&long, "shown"), "string(len=161, prefix=shown)");
}

fn listed(name: &str, ggml_type: u32) -> ListedTensor {
    ListedTensor {
        name: name.to_owned(),
        ggml_type,
        shape: vec![256, 2],
        bytes: 288,
        elements: Some(512),
    }
}

#[test]
fn files_are_listed_in_order() {
    let tensors = vec![
        listed("a", GGML_TYPE_Q4_K),
        listed("b", GGML_TYPE_Q6_K),
        ListedTensor { elements: None, ..listed("output.weight", GGML_TYPE_Q4_K) },
        listed("d", GGML_TYPE_F32),
    ];
    assert_eq!(type_counts(&tensors), vec![(0, 1), (12, 2), (14, 1)]);
    let metadata = vec![("general.name".to_owned(), text("m"))];
    assert_eq!(
        list_file("path", &tensors, &metadata),
        vec![
            "model=path",
            "tensors=4",
            "q4_k_tensor=a shape=[256, 2] bytes=288 elements=512",
            "q4_k_tensor=output.weight shape=[256, 2] bytes=288 elements=0",
            "tensor_type_counts={0: 1, 12: 2, 14: 1}",
            "special_tensor=output.weight type=12 shape=[256, 2] bytes=288",
            "non_q4_tensor=b type=14 shape=[256, 2] bytes=288",
            "non_q4_tensor=d type=0 shape=[256, 2] bytes=288",
            "metadata.general.name=string(\"m\")",
        ]
    );
}

#[test]
fn long_listings_are_cut() {
    let mut tensors = Vec::new();
    for index in 0..30 {
        tensors.push(listed(&format!("q{index}"), GGML_TYPE_Q4_K));
        tensors.push(listed(&format!("f{index}"), GGML_TYPE_F32));
    }
    let lines = list_file("m", &tensors, &vec![]);
    assert_eq!(lines.len(), 2 + 12 + 1 + 24);
    assert!(lines[13].starts_with("q4_k_tensor=q11 "));
    assert!(lines[38].starts_with("non_q4_tensor=f23 "));
}

#[test]
fn drafts_stand_behind_the_prompt() {
    let mut draft = Draft::new(5, 2);
    assert!(!draft.is_full());
    assert_eq!(draft.next(&[0, 1.0_f32.to_bits(), 0]), (1, 5));
    assert_eq!(draft.next(&[2.0_f32.to_bits(), 1.0_f32.to_bits()]), (0, 6));
    assert!(draft.is_full());
    assert_eq!(draft.candidates, vec![1, 0]);
    assert_eq!(positions(5, 2), vec![5, 6]);
    assert!(positions(7, 0).is_empty());
}

#[test]
fn traces_choose_one_token_after_the_other() {
    let mut tracing = Tracing::new(3, 2);
    assert_eq!(tracing.next(&[0, 1.0_f32.to_bits()]), Ok((1, 3)));
    assert_eq!(
        tracing.next(&[f32::NAN.to_bits()]),
        Err("target logits contain no finite values".to_owned())
    );
    assert_eq!(tracing.chosen, 1);
    assert_eq!(tracing.next(&[1.0_f32.to_bits(), 0]), Ok((0, 4)));
    assert!(tracing.is_done());
}

#[test]
fn comparisons_leave_wide_groups_off() {
    let switches = Switches {
        lossless_gpu: false,
        verify_many: false,
        lookahead: false,
        rows4: true,
        rows4x128: true,
        rows4x128_q6: false,
        fused_rows4x128: false,
        gdn_parallel: false,
    };
    let off = Switches { rows4x128: false, ..switches };
    assert!(compared_switches(&off).rows4x128);
    assert!(measured_switches(&switches, false).rows4x128);
    assert!(!measured_switches(&switches, true).rows4x128);
    assert!(measured_switches(&switches, true).rows4);
}
