//! Reports and the mock backend.
use std::time::Duration;
use super_inference::report::{exit_status, json_escape, option_bool, token_count};
use super_inference::{run_mock, Config, OutputFormat, RunReport, Timings};

fn timings() -> Timings {
    Timings {
        prefill_ms: "2.000".to_owned(),
        decode_ms: "3.000".to_owned(),
        prefill_tok_s: "1000.000".to_owned(),
        decode_tok_s: "1000.000".to_owned(),
        total_tok_s: "600.000".to_owned(),
    }
}

fn sample() -> RunReport {
    RunReport {
        model_path: "model\\\"x".into(),
        backend: "mock".into(),
        prompt_tokens: 2,
        generated_tokens: 3,
        warmup_runs: 1,
        prefill: Duration::from_millis(2),
        decode: Duration::from_millis(3),
        peak_vram_mib: 64,
        peak_ram_mib: 32,
        output_match: Some(true),
        generated_output: "a\nb".into(),
    }
}

#[test]
fn json_report_escapes_strings_and_has_expected_fields() {
    let report = sample();
    let json = report.as_json(&timings());
    assert!(json.contains("\"backend\":\"mock\""));
    assert!(json.contains("model\\\\\\\"x"));
    assert!(json.contains("a\\nb"));
}

#[test]
fn json_report_is_one_object_on_one_line() {
    let json = sample().as_json(&timings());
    assert_eq!(
        json,
        "{\"model_path\":\"model\\\\\\\"x\",\"backend\":\"mock\",\"prompt_tokens\":2,\
         \"generated_tokens\":3,\"warmup_runs\":1,\"prefill_ms\":2.000,\"decode_ms\":3.000,\
         \"prefill_tok_s\":1000.000,\"decode_tok_s\":1000.000,\"total_tok_s\":600.000,\
         \"peak_vram_mib\":64,\"peak_ram_mib\":32,\"output_match\":true,\
         \"generated_output\":\"a\\nb\"}"
    );
    assert!(!json.contains('\n'));
}

#[test]
fn text_report_has_one_field_per_line() {
    let mut report = sample();
    report.output_match = None;
    let text = report.as_text(&timings());
    assert_eq!(
        text,
        "model=model\\\"x\nbackend=mock\nprompt_tokens=2\ngenerated_tokens=3\nwarmup_runs=1\n\
         prefill_ms=2.000\ndecode_ms=3.000\nprefill_tok_s=1000.000\ndecode_tok_s=1000.000\n\
         total_tok_s=600.000\npeak_vram_mib=64\npeak_ram_mib=32\noutput_match=null\n\
         generated_output=a\nb"
    );
}

fn test_config() -> Config {
    Config {
        model_path: "model.gguf".into(),
        backend: "mock".into(),
        prompt: "hello world".into(),
        max_tokens: 1,
        max_context: 2048,
        chunk_rows: None,
        retain_output_head: false,
        retain_layers: 0,
        quality_fixture: None,
        warmup: 0,
        repetitions: 1,
        verify_manifest: false,
        output_format: OutputFormat::Text,
        expected_output: None,
    }
}

#[test]
fn mock_compares_expected_output() {
    let mut config = test_config();
    config.max_tokens = 2;
    config.expected_output = Some("mock-0 mock-1".into());
    assert_eq!(run_mock(&config).output_match, Some(true));
}

#[test]
fn mock_notices_other_output() {
    let mut config = test_config();
    config.expected_output = Some("mock-1".into());
    let report = run_mock(&config);
    assert_eq!(report.output_match, Some(false));
    assert_eq!(report.generated_output, "mock-0");
    assert_eq!(report.prompt_tokens, 2);
    assert_eq!(report.generated_tokens, 1);
    assert_eq!(exit_status(report.output_match), 2);
    assert_eq!(exit_status(Some(true)), 0);
    assert_eq!(exit_status(None), 0);
}

#[test]
fn control_characters_are_escaped() {
    assert_eq!(
        json_escape("\"\\\n\r\t\u{0}\u{1f}\u{7f}\u{9f} é"),
        "\\\"\\\\\\n\\r\\t\\u0000\\u001f\\u007f\\u009f é"
    );
}

#[test]
fn tokens_are_counted_by_white_space() {
    assert_eq!(token_count(""), 0);
    assert_eq!(token_count("  "), 0);
    assert_eq!(token_count(" a  b\u{2003}c\n"), 3);
    assert_eq!(option_bool(Some(false)), "false");
    assert_eq!(option_bool(None), "null");
}

#[test]
fn json_report_parses_back() {
    let mut report = sample();
    report.generated_output = "a\nb\t\"c\"\\ \u{1} \u{7f} \u{e9} \u{1f600}".into();
    for output_match in [Some(true), Some(false), None] {
        report.output_match = output_match;
        let json = report.as_json(&timings());
        assert!(!json.contains(char::is_control));
        let parsed: serde_json::Value = serde_json::from_str(&json).expect("a JSON object");
        assert_eq!(parsed.as_object().unwrap().len(), 14);
        assert_eq!(parsed["model_path"].as_str(), Some("model\\\"x"));
        assert_eq!(parsed["backend"].as_str(), Some("mock"));
        assert_eq!(parsed["prompt_tokens"].as_u64(), Some(2));
        assert_eq!(parsed["generated_tokens"].as_u64(), Some(3));
        assert_eq!(parsed["warmup_runs"].as_u64(), Some(1));
        assert_eq!(parsed["prefill_ms"].as_f64(), Some(2.0));
        assert_eq!(parsed["total_tok_s"].as_f64(), Some(600.0));
        assert_eq!(parsed["peak_vram_mib"].as_u64(), Some(64));
        assert_eq!(parsed["output_match"].as_bool(), output_match);
        assert_eq!(parsed["output_match"].is_null(), output_match.is_none());
        assert_eq!(parsed["generated_output"].as_str(), Some(report.generated_output.as_str()));
    }
}

#[test]
fn warmup_runs_are_made_and_counted() {
    let config = Config { warmup: 3, ..test_config() };
    let report = run_mock(&config);
    assert_eq!(report.warmup_runs, 3);
    assert_eq!(report.prompt_tokens, 2);
}
