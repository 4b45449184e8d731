//! Prompts, traces and the texts that they are read from.
use super_inference::probes::resident_drafter;
use super_inference::text;

fn arguments(extra: &[&str]) -> resident_drafter::Args {
    let mut all = vec!["--model".to_owned(), "m".to_owned()];
    all.extend(extra.iter().map(|word| (*word).to_owned()));
    resident_drafter::Args::parse(all).expect("arguments should parse")
}

#[test]
fn every_filled_line_of_a_file_is_a_prompt() {
    let args = arguments(&["--prompt-file", "prompts.txt"]);
    let contents = "one\r\n\n  \t\n two \n\u{3000}\nthree\r".to_owned();
    let prompts = resident_drafter::load_prompts(&args, &Ok(contents)).unwrap();
    assert_eq!(prompts, vec!["one", " two ", "three\r"]);
}

#[test]
fn files_without_prompts_are_reported() {
    let args = arguments(&["--prompt-file", "prompts.txt"]);
    assert_eq!(
        resident_drafter::load_prompts(&args, &Ok(" \n\n".to_owned())).unwrap_err(),
        "prompt file prompts.txt contains no non-empty lines"
    );
    assert_eq!(
        resident_drafter::load_prompts(&args, &Err("gone".to_owned())).unwrap_err(),
        "read prompt file prompts.txt: gone"
    );
}

#[test]
fn prompts_default_to_one_question() {
    let unread = Err("unread".to_owned());
    assert_eq!(
        resident_drafter::load_prompts(&arguments(&[]), &unread).unwrap(),
        vec![resident_drafter::DEFAULT_PROMPT]
    );
    assert_eq!(
        resident_drafter::load_prompts(&arguments(&["--prompt", "why"]), &unread).unwrap(),
        vec!["why"]
    );
}

#[test]
fn lines_are_those_of_the_standard_library() {
    for sample in ["", "a", "a\n", "a\nb", "a\r\nb\r\n", "\n\n", "\r", "a\r", "\r\n\r", "é\n漢\r\n"] {
        let expected: Vec<String> = sample.lines().map(str::to_owned).collect();
        assert_eq!(text::text_lines(sample), expected, "{sample:?}");
    }
}

#[test]
fn white_space_is_that_of_the_standard_library() {
    for c in '\0'..=char::MAX {
        assert_eq!(text::is_whitespace_char(c), c.is_whitespace(), "{c:?}");
    }
}

#[test]
fn numbers_are_written_and_read_in_decimal() {
    for number in [0, 9, 10, 99, 100, 65535, u64::MAX - 1, u64::MAX] {
        assert_eq!(text::decimal_text(number), number.to_string());
        assert_eq!(text::parse_unsigned(&number.to_string(), u64::MAX), Some(number));
    }
    assert_eq!(text::parse_unsigned("18446744073709551616", u64::MAX), None);
    assert_eq!(text::parse_unsigned("+1", 5), Some(1));
    assert_eq!(text::parse_unsigned("+", 5), None);
    assert_eq!(text::parse_unsigned("", 5), None);
    assert_eq!(text::parse_unsigned("-1", 5), None);
    assert_eq!(text::parse_unsigned("6", 5), None);
}

#[test]
fn prompts_must_fit_the_context() {
    assert_eq!(
        resident_drafter::check_prompt(2, 0, 1, 10).unwrap_err(),
        "prompt 2 tokenized to zero tokens"
    );
    assert_eq!(
        resident_drafter::check_prompt(0, 8, 3, 10).unwrap_err(),
        "prompt 0 plus trace tokens exceeds context"
    );
    assert!(resident_drafter::check_prompt(0, 8, 2, 10).is_ok());
    assert!(resident_drafter::check_prompt(0, usize::MAX, 2, 10).is_err());
    assert_eq!(
        resident_drafter::check_depth(9, 8).unwrap_err(),
        "--layers 9 exceeds model depth 8"
    );
    assert!(resident_drafter::check_depth(8, 8).is_ok());
}

#[test]
fn records_are_labelled_with_the_greatest_targets() {
    let bits = |values: &[f32]| values.iter().map(|value| value.to_bits()).collect::<Vec<_>>();
    let logits = bits(&[0.5, 3.0, -1.0, 2.0, f32::NAN, 1.0]);
    let record = resident_drafter::trace_record(7, 3, &logits, vec![1], vec![2]).unwrap();
    assert_eq!(record.record_type, "record");
    assert_eq!(record.position, 7);
    assert_eq!(record.input_token, 3);
    assert_eq!(record.target_top1, 1);
    assert_eq!(record.target_top4, vec![1, 3, 5, 0]);
    assert_eq!(record.hidden, vec![1]);
    assert_eq!(record.target_hidden, vec![2]);
    assert_eq!(resident_drafter::input_token(&logits), Ok(1));
    let nothing = bits(&[f32::NAN, f32::INFINITY]);
    assert_eq!(
        resident_drafter::input_token(&nothing).unwrap_err(),
        "target logits contain no finite values"
    );
    assert!(resident_drafter::trace_record(0, 0, &nothing, Vec::new(), Vec::new()).is_err());
}

#[test]
fn headers_describe_the_run() {
    let args = arguments(&["--layers", "6"]);
    let header = resident_drafter::trace_header(
        &args,
        "rev".to_owned(),
        "why".to_owned(),
        vec![4, 5],
        2560,
    );
    assert_eq!(header.record_type, "header");
    assert_eq!(header.model, "m");
    assert_eq!(header.model_revision, "rev");
    assert_eq!(header.prompt, "why");
    assert_eq!(header.prompt_tokens, vec![4, 5]);
    assert_eq!(header.layers, 6);
    assert_eq!(header.hidden_size, 2560);
    assert_eq!(header.target_hidden_size, 2560);
    assert_eq!(header.target_top_k, 4);
}
