//! The command lines of the benchmark and of the probes.
use super_inference::bench;
use super_inference::probes::{
    attn, batch, block, external_draft, extrapolate, gdn, gguf_batch, gguf_inspect, jacobi,
    lossless, matmul_many, mlp, pack_model, prefix, q4, resident_drafter, runtime, speculation,
    stage, state, verify_many,
};
use super_inference::OutputFormat;

fn words(arguments: &[&str]) -> Vec<String> {
    arguments.iter().map(|argument| (*argument).to_owned()).collect()
}

#[test]
fn parses_defaults_and_batch() {
    let args = gguf_batch::Args::parse(words(&["--model", "model.gguf", "--batch", "8"]))
    .expect("arguments should parse");
    assert_eq!(args.batch, 8);
    assert_eq!(args.tensor, "blk.0.attn_qkv.weight");
}

#[test]
fn parses_lossless_probe_arguments() {
    let args = lossless::Args::parse(words(&["--model", "model", "--tensor", "head", "--block-kib", "32", "--verify-manifest"]))
    .expect("arguments should parse");
    assert_eq!(args.model, "model");
    assert_eq!(args.tensors, vec!["head"]);
    assert_eq!(args.block_bytes, 32 * 1024);
    assert!(args.verify_manifest);
    assert!(!args.metal_matvec);
    assert_eq!(args.repetitions, 3);
}

#[test]
fn parses_metal_matvec_probe_arguments() {
    let args = lossless::Args::parse(words(&["--model", "model", "--metal-matvec", "--repetitions", "5"]))
    .expect("arguments should parse");
    assert!(args.metal_matvec);
    assert_eq!(args.repetitions, 5);
}

#[test]
fn parses_probe_arguments() {
    let args = q4::Args::parse(words(&["--model", "model.gguf", "--tensor", "blk.0.ffn_gate.weight", "--repetitions", "5"]))
    .expect("probe arguments should parse");
    assert_eq!(args.model, "model.gguf");
    assert_eq!(args.tensor.as_deref(), Some("blk.0.ffn_gate.weight"));
    assert_eq!(args.repetitions, 5);
}

#[test]
fn rejects_missing_model_and_zero_repetitions() {
    assert_eq!(
        q4::Args::parse(words(&["--repetitions", "1"])).unwrap_err(),
        "--model is required"
    );
    assert!(q4::Args::parse(words(&["--model", "model.gguf", "--repetitions", "0"]))
    .is_err());
}

#[test]
fn parses_attention_probe_arguments() {
    let args = attn::Args::parse(words(&["--model", "model.gguf", "--layer", "7", "--position", "11", "--repetitions", "5"]))
    .expect("probe arguments should parse");
    assert_eq!(args.model, "model.gguf");
    assert_eq!(args.layer, 7);
    assert_eq!(args.position, 11);
    assert_eq!(args.repetitions, 5);
}

#[test]
fn si_qwen35_attn_probe_rejects_missing_model_and_zero_repetitions() {
    assert_eq!(
        attn::Args::parse(words(&["--position", "1"])).unwrap_err(),
        "--model is required"
    );
    assert!(attn::Args::parse(words(&["--model", "model.gguf", "--repetitions", "0"]))
    .is_err());
}

#[test]
fn parses_batch() {
    let args = batch::Args::parse(words(&["--model", "model.gguf", "--batch", "4"]))
    .expect("arguments should parse");
    assert_eq!(args.batch, 4);
}

#[test]
fn parses_block_probe_arguments() {
    let args = block::Args::parse(words(&["--model", "model.gguf", "--layer", "3", "--position", "4", "--repetitions", "2"]))
    .expect("probe arguments should parse");
    assert_eq!(args.model, "model.gguf");
    assert_eq!(args.layer, 3);
    assert_eq!(args.position, 4);
    assert_eq!(args.repetitions, 2);
}

#[test]
fn si_qwen35_block_probe_rejects_missing_model_and_zero_repetitions() {
    assert_eq!(
        block::Args::parse(words(&["--layer", "1"])).unwrap_err(),
        "--model is required"
    );
    assert!(block::Args::parse(words(&["--model", "model.gguf", "--repetitions", "0"]))
    .is_err());
}

#[test]
fn parses_external_draft_options() {
    let args = external_draft::Args::parse(words(&["--target", "target.gguf", "--draft", "draft", "--batch", "8"]))
    .expect("arguments should parse");
    assert_eq!(args.batch, 8);
    assert_eq!(args.prompt, "Hello");
}

#[test]
fn parses_extrapolation_options() {
    let args = extrapolate::Args::parse(words(&["--model", "model.gguf", "--prompt", "x", "--batch", "4"]))
    .expect("arguments should parse");
    assert_eq!(args.batch, 4);
    assert_eq!(args.prompt, "x");
}

#[test]
fn si_qwen35_gdn_probe_parses_probe_arguments() {
    let args = gdn::Args::parse(words(&["--model", "model.gguf", "--layer", "4", "--repetitions", "5"]))
    .expect("probe arguments should parse");
    assert_eq!(args.model, "model.gguf");
    assert_eq!(args.layer, 4);
    assert_eq!(args.repetitions, 5);
}

#[test]
fn si_qwen35_gdn_probe_rejects_missing_model_and_zero_repetitions() {
    assert_eq!(
        gdn::Args::parse(words(&["--layer", "1"])).unwrap_err(),
        "--model is required"
    );
    assert!(gdn::Args::parse(words(&["--model", "model.gguf", "--repetitions", "0"]))
    .is_err());
}

#[test]
fn parses_jacobi_options() {
    let args = jacobi::Args::parse(words(&["--model", "model.gguf", "--batch", "8", "--iterations", "3"]))
    .expect("arguments should parse");
    assert_eq!(args.batch, 8);
    assert_eq!(args.iterations, 3);
}

#[test]
fn parses_mlp_probe_arguments() {
    let args = mlp::Args::parse(words(&["--model", "model.gguf", "--layer", "2", "--repetitions", "4"]))
    .expect("probe arguments should parse");
    assert_eq!(args.model, "model.gguf");
    assert_eq!(args.layer, 2);
    assert_eq!(args.repetitions, 4);
}

#[test]
fn si_qwen35_mlp_probe_rejects_missing_model_and_zero_repetitions() {
    assert_eq!(
        mlp::Args::parse(words(&["--layer", "1"])).unwrap_err(),
        "--model is required"
    );
    assert!(mlp::Args::parse(words(&["--model", "model.gguf", "--repetitions", "0"]))
    .is_err());
}

#[test]
fn parses_prefix_probe_arguments() {
    let args = prefix::Args::parse(words(&["--model", "model.gguf", "--token", "548", "--layers", "8", "--top-k", "16"]))
    .expect("prefix probe arguments should parse");
    assert_eq!(args.model, "model.gguf");
    assert_eq!(args.token, 548);
    assert_eq!(args.layers, 8);
    assert_eq!(args.top_k, 16);
}

#[test]
fn rejects_missing_token_and_zero_layers() {
    assert!(prefix::Args::parse(words(&["--model", "model.gguf"])).is_err());
    assert!(prefix::Args::parse(words(&["--model", "model.gguf", "--token", "1", "--layers", "0"]))
    .is_err());
}

#[test]
fn parses_runtime_probe_arguments_and_flag() {
    let args = runtime::Args::parse(words(&["--model", "model.gguf", "--token", "42", "--tokens", "3", "--capacity", "4", "--output-head"]))
    .expect("probe arguments should parse");
    assert_eq!(args.model, "model.gguf");
    assert_eq!(args.token, 42);
    assert_eq!(args.tokens, 3);
    assert_eq!(args.capacity, 4);
    assert!(args.output_head);
}

#[test]
fn rejects_missing_model_zero_values_and_over_capacity() {
    assert_eq!(
        runtime::Args::parse(words(&["--tokens", "1"])).unwrap_err(),
        "--model is required"
    );
    assert!(runtime::Args::parse(words(&["--model", "model.gguf", "--tokens", "0"]))
    .is_err());
    assert!(runtime::Args::parse(words(&["--model", "model.gguf", "--tokens", "3", "--capacity", "2"]))
    .is_err());
}

#[test]
fn parses_speculation_options() {
    let args = speculation::Args::parse(words(&["--model", "model.gguf", "--batch", "4", "--draft-layers", "6"]))
    .expect("arguments should parse");
    assert_eq!(args.batch, 4);
    assert_eq!(args.draft_layers, 6);
}

#[test]
fn parses_stage_probe_arguments() {
    let args = stage::Args::parse(words(&["--model", "model.gguf", "--layer", "4", "--repetitions", "2"]))
    .expect("stage probe arguments should parse");
    assert_eq!(args.layer, 4);
    assert_eq!(args.repetitions, 2);
}

#[test]
fn parses_state_probe_arguments() {
    let args = state::Args::parse(words(&["--model", "model.gguf", "--layer", "3", "--tokens", "6", "--capacity", "8"]))
    .expect("probe arguments should parse");
    assert_eq!(args.model, "model.gguf");
    assert_eq!(args.layer, 3);
    assert_eq!(args.tokens, 6);
    assert_eq!(args.capacity, 8);
}

#[test]
fn rejects_missing_model_zero_values_and_overflow() {
    assert_eq!(
        state::Args::parse(words(&["--tokens", "1"])).unwrap_err(),
        "--model is required"
    );
    assert!(state::Args::parse(words(&["--model", "model.gguf", "--tokens", "0"]))
    .is_err());
    assert!(state::Args::parse(words(&["--model", "model.gguf", "--tokens", "3", "--capacity", "2"]))
    .is_ok());
}

#[test]
fn parses_pack_arguments() {
    assert_eq!(
        pack_model::parse_args(vec![
            "--model".into(),
            "model".into(),
            "--output".into(),
            "packed".into(),
            "--verify-manifest".into(),
        ])
        .expect("arguments should parse"),
        Some(("model".into(), "packed".into(), true))
    );
}

#[test]
fn validates_required_arguments() {
    assert_eq!(
        bench::parse_args(vec!["--backend".into(), "mock".into()]).unwrap_err(),
        "--model is required"
    );
}

#[test]
fn parses_json_configuration() {
    let config = bench::parse_args(vec![
        "--model".into(),
        "m".into(),
        "--backend".into(),
        "mock".into(),
        "--prompt".into(),
        "hi".into(),
        "--output".into(),
        "json".into(),
    ])
    .unwrap()
    .unwrap();
    assert_eq!(config.output_format, OutputFormat::Json);
    assert_eq!(config.max_context, 2048);
    assert_eq!(config.chunk_rows, None);
    assert!(!config.retain_output_head);
    assert_eq!(config.retain_layers, 0);
    assert_eq!(config.repetitions, 3);
}

#[test]
fn parses_streaming_chunk_cap() {
    let config = bench::parse_args(vec![
        "--model".into(),
        "m".into(),
        "--backend".into(),
        "metal-streaming".into(),
        "--prompt".into(),
        "hi".into(),
        "--chunk-rows".into(),
        "16".into(),
    ])
    .expect("arguments should parse")
    .expect("configuration should exist");
    assert_eq!(config.chunk_rows, Some(16));
}

#[test]
fn parses_output_head_residency_flag() {
    let config = bench::parse_args(vec![
        "--model".into(),
        "m".into(),
        "--backend".into(),
        "metal-streaming".into(),
        "--prompt".into(),
        "hi".into(),
        "--retain-output-head".into(),
    ])
    .expect("arguments should parse")
    .expect("configuration should exist");
    assert!(config.retain_output_head);
}

#[test]
fn parses_retained_layer_count() {
    let config = bench::parse_args(vec![
        "--model".into(),
        "m".into(),
        "--backend".into(),
        "metal-streaming".into(),
        "--prompt".into(),
        "hi".into(),
        "--retain-layers".into(),
        "4".into(),
    ])
    .expect("arguments should parse")
    .expect("configuration should exist");
    assert_eq!(config.retain_layers, 4);
}

#[test]
fn parses_repetition_count() {
    let config = bench::parse_args(vec![
        "--model".into(),
        "m".into(),
        "--backend".into(),
        "mock".into(),
        "--prompt".into(),
        "hi".into(),
        "--repetitions".into(),
        "5".into(),
    ])
    .expect("arguments should parse")
    .expect("configuration should exist");
    assert_eq!(config.repetitions, 5);
}

#[test]
fn args_accept_prompt_file() {
    let args = resident_drafter::Args::parse(words(&[
        "--model",
        "models/qwen3-4b-base",
        "--prompt-file",
        "prompts.txt",
    ]))
    .expect("prompt-file arguments should parse");
    assert_eq!(args.prompt, None);
    assert_eq!(args.prompt_file.as_deref(), Some("prompts.txt"));
}

#[test]
fn prompt_and_prompt_file_are_rejected_together() {
    let args = resident_drafter::Args::parse(words(&[
        "--model",
        "models/qwen3-4b-base",
        "--prompt",
        "one",
        "--prompt-file",
        "prompts.txt",
    ]))
    .expect("arguments should parse before semantic validation");
    assert!(resident_drafter::load_prompts(&args, &Ok(String::new()))
        .expect_err("both prompt sources must be rejected")
        .contains("mutually exclusive"));
}

#[test]
fn benchmark_reports_each_argument_error() {
    let refused = |arguments: &[&str]| bench::parse_args(words(arguments)).unwrap_err();
    let complete = ["--model", "m", "--backend", "mock", "--prompt", "p"];
    let with = |option: &str, value: &str| {
        let mut arguments = complete.to_vec();
        arguments.push(option);
        arguments.push(value);
        bench::parse_args(words(&arguments)).unwrap_err()
    };
    assert_eq!(refused(&["--model", "m"]), "--backend is required");
    assert_eq!(
        refused(&["--model", "m", "--backend", "cuda"]),
        "unsupported backend: cuda; available: mock, metal-streaming, metal-resident"
    );
    assert_eq!(refused(&["--backend", "mock", "--model", "m"]), "--prompt is required");
    assert_eq!(refused(&["--model"]), "missing value for --model");
    assert_eq!(refused(&["--nope", "1"]), "unknown option: --nope");
    assert_eq!(with("--max-tokens", "0"), "--max-tokens must be a positive integer");
    assert_eq!(with("--max-tokens", "4294967296"), "--max-tokens must be a positive integer");
    assert_eq!(with("--context", "-1"), "--context must be a positive integer");
    assert_eq!(with("--chunk-rows", "x"), "--chunk-rows must be a positive integer");
    assert_eq!(with("--retain-layers", "0"), "--retain-layers must be a positive integer");
    assert_eq!(with("--warmup", ""), "--warmup must be a non-negative integer");
    assert_eq!(with("--repetitions", "0"), "--repetitions must be a positive integer");
    assert_eq!(with("--output", "xml"), "--output must be text or json");
}

#[test]
fn benchmark_shows_help_and_takes_the_last_value() {
    assert!(bench::parse_args(Vec::new()).unwrap().is_none());
    assert!(bench::parse_args(words(&["--model", "m", "--help"])).unwrap().is_none());
    assert!(bench::parse_args(words(&["-h"])).unwrap().is_none());
    let config = bench::parse_args(words(&[
        "--model", "m", "--backend", "mock", "--prompt", "p", "--max-tokens", "1", "--max-tokens",
        "+7",
    ]))
    .unwrap()
    .unwrap();
    assert_eq!(config.max_tokens, 7);
    assert_eq!(config.warmup, 1);
    assert_eq!(config.output_format, OutputFormat::Text);
    assert_eq!(config.expected_output, None);
}

#[test]
fn probes_report_each_argument_error() {
    assert_eq!(
        attn::Args::parse(words(&["--layer"])).unwrap_err(),
        "missing value for --layer"
    );
    assert_eq!(
        attn::Args::parse(words(&["--depth", "1"])).unwrap_err(),
        "unknown option: --depth"
    );
    assert_eq!(
        attn::Args::parse(words(&["--layer", "x"])).unwrap_err(),
        "--layer must be a non-negative integer"
    );
    assert_eq!(
        batch::Args::parse(words(&["--model", "m", "--batch", "9"])).unwrap_err(),
        "batch must be 2..8"
    );
    assert_eq!(
        batch::Args::parse(words(&["--batch", "many"])).unwrap_err(),
        "--batch is invalid"
    );
    assert_eq!(
        block::Args::parse(words(&["--position", "-1"])).unwrap_err(),
        "--position must be a non-negative integer"
    );
    assert_eq!(
        external_draft::Args::parse(words(&["--draft", "d"])).unwrap_err(),
        "--target is required"
    );
    assert_eq!(
        external_draft::Args::parse(words(&["--target", "t"])).unwrap_err(),
        "--draft is required"
    );
    assert_eq!(
        external_draft::Args::parse(words(&["--capacity", "0"])).unwrap_err(),
        "batch must be 2..8 and capacity must be positive"
    );
    assert_eq!(
        extrapolate::Args::parse(words(&["--batch", "1"])).unwrap_err(),
        "batch must be between 2 and 8"
    );
    assert_eq!(
        gguf_batch::Args::parse(words(&["--repetitions", "0"])).unwrap_err(),
        "batch must be 1..8 and repetitions must be positive"
    );
    assert_eq!(
        jacobi::Args::parse(words(&["--iterations", "0"])).unwrap_err(),
        "batch must be 2..8 and iterations must be positive"
    );
    assert_eq!(
        lossless::Args::parse(words(&["--block-kib", "0"])).unwrap_err(),
        "--block-kib must be non-zero"
    );
    assert_eq!(
        lossless::Args::parse(words(&["--block-kib", "18446744073709551615"])).unwrap_err(),
        "--block-kib overflows"
    );
    assert_eq!(
        lossless::Args::parse(words(&["--help", "x"])).unwrap_err(),
        lossless::USAGE
    );
    assert_eq!(
        pack_model::parse_args(words(&["--model", "m"])).unwrap_err(),
        "--output is required"
    );
    assert_eq!(
        prefix::Args::parse(words(&["--model", "m"])).unwrap_err(),
        "--token is required"
    );
    assert_eq!(
        prefix::Args::parse(words(&["--top-k", "0"])).unwrap_err(),
        "--layers and --top-k must be positive"
    );
    assert_eq!(
        resident_drafter::Args::parse(words(&["--layers"])).unwrap_err(),
        "--layers requires a value"
    );
    assert_eq!(
        resident_drafter::Args::parse(words(&["--tokens", "0"])).unwrap_err(),
        "--tokens requires a positive integer"
    );
    assert_eq!(
        resident_drafter::Args::parse(words(&["-h"])).unwrap_err(),
        resident_drafter::USAGE
    );
    assert_eq!(
        stage::Args::parse(words(&["--layer", "1"])).unwrap_err(),
        "--model is required"
    );
    assert_eq!(
        state::Args::parse(words(&["--capacity", "0"])).unwrap_err(),
        "--capacity must be positive"
    );
    assert_eq!(
        runtime::Args::parse(words(&["--model"])).unwrap_err(),
        "missing value for --model"
    );
    assert_eq!(
        q4::Args::parse(words(&["--tensor", "t"])).unwrap_err(),
        "--model is required"
    );
    assert_eq!(
        gdn::Args::parse(words(&["--layer", "1", "--layer"])).unwrap_err(),
        "missing value for --layer"
    );
    assert_eq!(
        mlp::Args::parse(words(&["--repetitions", "0"])).unwrap_err(),
        "--repetitions must be a positive integer"
    );
}

#[test]
fn named_probes_show_help_and_report_errors() {
    assert!(matmul_many::Args::parse(words(&["--help"])).unwrap().is_none());
    assert!(verify_many::Args::parse(words(&["-h"])).unwrap().is_none());
    assert_eq!(
        matmul_many::Args::parse(words(&["--model", "m", "--repetitions", "0"])).unwrap_err(),
        "--repetitions must be greater than zero"
    );
    assert_eq!(
        matmul_many::Args::parse(words(&["--warmup"])).unwrap_err(),
        "--warmup requires an integer"
    );
    assert_eq!(
        verify_many::Args::parse(words(&["--context", "0", "--model", "m"])).unwrap_err(),
        "--context must be greater than zero"
    );
    assert_eq!(
        verify_many::Args::parse(words(&["--depth"])).unwrap_err(),
        "unknown argument: --depth"
    );
    let args = verify_many::Args::parse(words(&["--model", "m", "--retain-layers", "8"]))
        .unwrap()
        .unwrap();
    assert_eq!(args.prompt, "Hello");
    assert_eq!(args.context, 2048);
    assert_eq!(args.retain_layers, 8);
    assert_eq!(args.warmup, 0);
    assert_eq!(args.repetitions, 1);
}

#[test]
fn draft_sets_are_lists_of_layers() {
    let args = speculation::Args::parse(words(&[
        "--model", "m", "--batch", "4", "--draft-set", "1,5,9",
    ]))
    .unwrap();
    assert_eq!(args.draft_set, Some(vec![1, 5, 9]));
    assert_eq!(speculation::layer_list_text(&vec![1, 5, 9]), "1,5,9");
    assert_eq!(
        speculation::Args::parse(words(&["--draft-set", "1,,2"])).unwrap_err(),
        "--draft-set is invalid"
    );
}

#[test]
fn inspected_model_is_the_last_one_named() {
    assert_eq!(gguf_inspect::parse_model(Vec::new()), None);
    assert_eq!(
        gguf_inspect::parse_model(words(&["--model", "a"])),
        Some("a".to_owned())
    );
    assert_eq!(
        gguf_inspect::parse_model(words(&["--model", "a", "--model", "b"])),
        Some("b".to_owned())
    );
    assert_eq!(gguf_inspect::parse_model(words(&["--model", "a", "--model"])), None);
    assert_eq!(gguf_inspect::parse_model(words(&["a", "--model"])), None);
}
