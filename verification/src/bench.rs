//! The command line of the benchmark program.
use vstd::prelude::*;

use crate::options;
use crate::options::{OptionRule, Rule};
use crate::report::{Config, OutputFormat};
use crate::text;

verus! {

pub const USAGE: &'static str = "Usage: si-bench --model PATH --backend mock|metal-streaming|metal-resident --prompt TEXT [options]\n\nOptions:\n  --max-tokens N          Generated tokens (default: 32)\n  --context N             Maximum context capacity (default: 2048)\n  --chunk-rows N          Stream matvec weights in row chunks\n  --retain-output-head   Keep the LM head in a private Metal buffer\n  --retain-layers N       Keep the first N transformer layers in Metal\n  --quality-fixture PATH  Run the versioned capability suite (slow, opt-in)\n  --warmup N              Warmup runs (default: 1)\n  --repetitions N         Measured repetitions (default: 3)\n  --verify-manifest       Verify pinned model file digests\n  --output text|json      Report format (default: text)\n  --expected-output TEXT  Compare generated text\n  -h, --help              Show this help";

/// The backends that a configuration can name.
pub enum Backend {
    Mock,
    Metal,
}

pub open spec fn rules() -> Seq<OptionRule> {
    seq![
        options::switch_option("--verify-manifest"),
        options::switch_option("--retain-output-head"),
        options::text_option("--model"),
        options::text_option("--backend"),
        options::text_option("--prompt"),
        options::positive_word_option("--max-tokens", "--max-tokens must be a positive integer"),
        options::positive_size_option("--context", "--context must be a positive integer"),
        options::positive_size_option("--chunk-rows", "--chunk-rows must be a positive integer"),
        options::positive_size_option(
            "--retain-layers",
            "--retain-layers must be a positive integer",
        ),
        options::text_option("--quality-fixture"),
        options::word_option("--warmup", "--warmup must be a non-negative integer"),
        options::positive_word_option("--repetitions", "--repetitions must be a positive integer"),
        OptionRule {
            name: "--output",
            rule: Rule::Choice {
                first: "text",
                second: "json",
                invalid: "--output must be text or json",
            },
            missing: "",
        },
        options::text_option("--expected-output"),
    ]
}

pub open spec fn is_backend(name: Seq<char>) -> bool {
    name == "mock"@ || name == "metal-streaming"@ || name == "metal-resident"@
}

/// What records under the rules say about a configuration.
pub open spec fn matches_config(
    values: Seq<options::ValueView>,
    config: Config,
    model: Seq<char>,
    backend: Seq<char>,
    prompt: Seq<char>,
) -> bool {
    &&& config.model_path@ == model
    &&& config.backend@ == backend
    &&& config.prompt@ == prompt
    &&& config.max_tokens == options::number_or(values[5], 32)
    &&& config.max_context == options::number_or(values[6], 2048)
    &&& options::optional_size(config.chunk_rows) == options::number_given(values[7])
    &&& config.retain_output_head == values[1] is On
    &&& config.retain_layers == options::number_or(values[8], 0)
    &&& text::optional_text(config.quality_fixture) == options::text_given(values[9])
    &&& config.warmup == options::number_or(values[10], 1)
    &&& config.repetitions == options::number_or(values[11], 3)
    &&& config.verify_manifest == values[0] is On
    &&& config.output_format == (if options::number_or(values[12], 0) == 1 {
        OutputFormat::Json
    } else {
        OutputFormat::Text
    })
    &&& text::optional_text(config.expected_output) == options::text_given(values[13])
}

/// Whether the outcome of reading the arguments is the right one: nothing
/// where they ask for help, the first refusal in the order of the checks, or
/// the configuration that they describe.
pub open spec fn parse_is(arguments: Seq<Seq<char>>, result: Result<Option<Config>, String>) -> bool {
    if arguments.len() == 0 || options::asks_for_help(arguments) {
        result matches Ok(None)
    } else {
        match options::values_result(rules(), options::paired_style(), arguments) {
            Err(message) => result matches Err(error) && error@ == message,
            Ok(values) => match options::text_given(values[3]) {
                None => result matches Err(error) && error@ == "--backend is required"@,
                Some(backend) => if !is_backend(backend) {
                    result matches Err(error) && error@ == "unsupported backend: "@ + backend
                        + "; available: mock, metal-streaming, metal-resident"@
                } else {
                    match options::text_given(values[2]) {
                        None => result matches Err(error) && error@ == "--model is required"@,
                        Some(model) => match options::text_given(values[4]) {
                            None => result matches Err(error) && error@ == "--prompt is required"@,
                            Some(prompt) => result matches Ok(Some(config)) && matches_config(
                                values,
                                config,
                                model,
                                backend,
                                prompt,
                            ),
                        },
                    }
                },
            },
        }
    }
}

/// Reads the arguments of the benchmark program; nothing comes back where they ask for help.
pub fn parse_args(arguments: Vec<String>) -> (result: Result<Option<Config>, String>)
    ensures
        parse_is(text::texts(arguments@), result),
        result matches Ok(Some(config)) ==> {
            &&& is_backend(config.backend@)
            &&& config.max_tokens > 0
            &&& config.max_context > 0
            &&& config.repetitions > 0
        },
{
    if arguments.len() == 0 || options::help_requested(&arguments) {
        return Ok(None);
    }
    let rules: Vec<OptionRule> = vec![
        options::switch_option("--verify-manifest"),
        options::switch_option("--retain-output-head"),
        options::text_option("--model"),
        options::text_option("--backend"),
        options::text_option("--prompt"),
        options::positive_word_option("--max-tokens", "--max-tokens must be a positive integer"),
        options::positive_size_option("--context", "--context must be a positive integer"),
        options::positive_size_option("--chunk-rows", "--chunk-rows must be a positive integer"),
        options::positive_size_option(
            "--retain-layers",
            "--retain-layers must be a positive integer",
        ),
        options::text_option("--quality-fixture"),
        options::word_option("--warmup", "--warmup must be a non-negative integer"),
        options::positive_word_option("--repetitions", "--repetitions must be a positive integer"),
        OptionRule {
            name: "--output",
            rule: Rule::Choice {
                first: "text",
                second: "json",
                invalid: "--output must be text or json",
            },
            missing: "",
        },
        options::text_option("--expected-output"),
    ];
    proof {
        assert(rules@ =~= self::rules());
    }
    let values = match options::scan_values(&rules, &options::paired_style(), &arguments) {
        Ok(values) => values,
        Err(message) => {
            return Err(message);
        },
    };
    let backend = match options::text_of(&values, 3) {
        Some(backend) => backend,
        None => {
            return Err("--backend is required".to_owned());
        },
    };
    let name = backend.as_str();
    if !text::same_text(name, "mock") && !text::same_text(name, "metal-streaming")
        && !text::same_text(name, "metal-resident") {
        return Err(
            text::concat3(
                "unsupported backend: ",
                name,
                "; available: mock, metal-streaming, metal-resident",
            ),
        );
    }
    let model_path = match options::text_of(&values, 2) {
        Some(model_path) => model_path,
        None => {
            return Err("--model is required".to_owned());
        },
    };
    let prompt = match options::text_of(&values, 4) {
        Some(prompt) => prompt,
        None => {
            return Err("--prompt is required".to_owned());
        },
    };
    let output_format = match &values[12] {
        options::Value::Number(1) => OutputFormat::Json,
        _ => OutputFormat::Text,
    };
    Ok(
        Some(
            Config {
                model_path,
                backend,
                prompt,
                max_tokens: options::word_or(&rules, &values, 5, 32),
                max_context: options::size_or(&rules, &values, 6, 2048),
                chunk_rows: options::size_of_option(&rules, &values, 7),
                retain_output_head: options::is_on(&values, 1),
                retain_layers: options::size_or(&rules, &values, 8, 0),
                quality_fixture: options::text_of(&values, 9),
                warmup: options::word_or(&rules, &values, 10, 1),
                repetitions: options::word_or(&rules, &values, 11, 3),
                verify_manifest: options::is_on(&values, 0),
                output_format,
                expected_output: options::text_of(&values, 13),
            },
        ),
    )
}

/// The backend that a configuration names, if it names one.
pub fn backend_of(config: &Config) -> (backend: Option<Backend>)
    ensures
        backend == (if config.backend@ == "mock"@ {
            Some(Backend::Mock)
        } else if config.backend@ == "metal-streaming"@ || config.backend@ == "metal-resident"@ {
            Some(Backend::Metal)
        } else {
            None
        }),
        is_backend(config.backend@) ==> backend is Some,
{
    let name = config.backend.as_str();
    if text::same_text(name, "mock") {
        Some(Backend::Mock)
    } else if text::same_text(name, "metal-streaming") || text::same_text(name, "metal-resident") {
        Some(Backend::Metal)
    } else {
        None
    }
}

/// A configuration with its texts as character sequences.
pub struct ConfigView {
    pub model_path: Seq<char>,
    pub backend: Seq<char>,
    pub prompt: Seq<char>,
    pub max_tokens: nat,
    pub max_context: nat,
    pub chunk_rows: Option<nat>,
    pub retain_output_head: bool,
    pub retain_layers: nat,
    pub quality_fixture: Option<Seq<char>>,
    pub warmup: nat,
    pub repetitions: nat,
    pub verify_manifest: bool,
    pub output_format: OutputFormat,
    pub expected_output: Option<Seq<char>>,
}

pub open spec fn view_of(config: Config) -> ConfigView {
    ConfigView {
        model_path: config.model_path@,
        backend: config.backend@,
        prompt: config.prompt@,
        max_tokens: config.max_tokens as nat,
        max_context: config.max_context as nat,
        chunk_rows: options::optional_size(config.chunk_rows),
        retain_output_head: config.retain_output_head,
        retain_layers: config.retain_layers as nat,
        quality_fixture: text::optional_text(config.quality_fixture),
        warmup: config.warmup as nat,
        repetitions: config.repetitions as nat,
        verify_manifest: config.verify_manifest,
        output_format: config.output_format,
        expected_output: text::optional_text(config.expected_output),
    }
}

/// Whether reading the arguments can only give this configuration.
pub open spec fn reads_as(arguments: Seq<Seq<char>>, config: ConfigView) -> bool {
    forall|result: Result<Option<Config>, String>| #[trigger]
        parse_is(arguments, result) ==> result is Ok && result->Ok_0 is Some && view_of(
            result->Ok_0->Some_0,
        ) == config
}

/// Whether reading the arguments can only fail.
pub open spec fn is_refused(arguments: Seq<Seq<char>>) -> bool {
    forall|result: Result<Option<Config>, String>| #[trigger]
        parse_is(arguments, result) ==> result is Err
}

/// Every option is found in its place.
proof fn lemma_places()
    ensures
        options::found(rules(), "--verify-manifest"@, 0) == 0,
        options::found(rules(), "--retain-output-head"@, 0) == 1,
        options::found(rules(), "--model"@, 0) == 2,
        options::found(rules(), "--backend"@, 0) == 3,
        options::found(rules(), "--prompt"@, 0) == 4,
        options::found(rules(), "--max-tokens"@, 0) == 5,
        options::found(rules(), "--context"@, 0) == 6,
        options::found(rules(), "--chunk-rows"@, 0) == 7,
        options::found(rules(), "--retain-layers"@, 0) == 8,
        options::found(rules(), "--quality-fixture"@, 0) == 9,
        options::found(rules(), "--warmup"@, 0) == 10,
        options::found(rules(), "--repetitions"@, 0) == 11,
        options::found(rules(), "--output"@, 0) == 12,
        options::found(rules(), "--expected-output"@, 0) == 13,
{
    reveal_strlit("--verify-manifest");
    reveal_strlit("--retain-output-head");
    reveal_strlit("--model");
    reveal_strlit("--backend");
    reveal_strlit("--prompt");
    reveal_strlit("--max-tokens");
    reveal_strlit("--context");
    reveal_strlit("--chunk-rows");
    reveal_strlit("--retain-layers");
    reveal_strlit("--quality-fixture");
    reveal_strlit("--warmup");
    reveal_strlit("--repetitions");
    reveal_strlit("--output");
    reveal_strlit("--expected-output");
    assert("--verify-manifest"@.len() == 17);
    assert("--retain-output-head"@.len() == 20);
    assert("--model"@.len() == 7);
    assert("--backend"@.len() == 9);
    assert("--prompt"@.len() == 8);
    assert("--max-tokens"@.len() == 12);
    assert("--context"@.len() == 9);
    assert("--chunk-rows"@.len() == 12);
    assert("--retain-layers"@.len() == 15);
    assert("--quality-fixture"@.len() == 17);
    assert("--warmup"@.len() == 8);
    assert("--repetitions"@.len() == 13);
    assert("--output"@.len() == 8);
    assert("--expected-output"@.len() == 17);
    assert("--context"@[2] != "--backend"@[2]);
    assert("--chunk-rows"@[2] != "--max-tokens"@[2]);
    assert("--quality-fixture"@[2] != "--verify-manifest"@[2]);
    assert("--warmup"@[2] != "--prompt"@[2]);
    assert("--output"@[2] != "--prompt"@[2]);
    assert("--output"@[2] != "--warmup"@[2]);
    assert("--expected-output"@[2] != "--verify-manifest"@[2]);
    assert("--expected-output"@[2] != "--quality-fixture"@[2]);
    let all = rules();
    assert("--retain-output-head"@ != "--verify-manifest"@);
    assert("--model"@ != "--verify-manifest"@);
    assert("--model"@ != "--retain-output-head"@);
    assert("--backend"@ != "--verify-manifest"@);
    assert("--backend"@ != "--retain-output-head"@);
    assert("--backend"@ != "--model"@);
    assert("--prompt"@ != "--verify-manifest"@);
    assert("--prompt"@ != "--retain-output-head"@);
    assert("--prompt"@ != "--model"@);
    assert("--prompt"@ != "--backend"@);
    assert("--max-tokens"@ != "--verify-manifest"@);
    assert("--max-tokens"@ != "--retain-output-head"@);
    assert("--max-tokens"@ != "--model"@);
    assert("--max-tokens"@ != "--backend"@);
    assert("--max-tokens"@ != "--prompt"@);
    assert("--context"@ != "--verify-manifest"@);
    assert("--context"@ != "--retain-output-head"@);
    assert("--context"@ != "--model"@);
    assert("--context"@ != "--backend"@);
    assert("--context"@ != "--prompt"@);
    assert("--context"@ != "--max-tokens"@);
    assert("--chunk-rows"@ != "--verify-manifest"@);
    assert("--chunk-rows"@ != "--retain-output-head"@);
    assert("--chunk-rows"@ != "--model"@);
    assert("--chunk-rows"@ != "--backend"@);
    assert("--chunk-rows"@ != "--prompt"@);
    assert("--chunk-rows"@ != "--max-tokens"@);
    assert("--chunk-rows"@ != "--context"@);
    assert("--retain-layers"@ != "--verify-manifest"@);
    assert("--retain-layers"@ != "--retain-output-head"@);
    assert("--retain-layers"@ != "--model"@);
    assert("--retain-layers"@ != "--backend"@);
    assert("--retain-layers"@ != "--prompt"@);
    assert("--retain-layers"@ != "--max-tokens"@);
    assert("--retain-layers"@ != "--context"@);
    assert("--retain-layers"@ != "--chunk-rows"@);
    assert("--quality-fixture"@ != "--verify-manifest"@);
    assert("--quality-fixture"@ != "--retain-output-head"@);
    assert("--quality-fixture"@ != "--model"@);
    assert("--quality-fixture"@ != "--backend"@);
    assert("--quality-fixture"@ != "--prompt"@);
    assert("--quality-fixture"@ != "--max-tokens"@);
    assert("--quality-fixture"@ != "--context"@);
    assert("--quality-fixture"@ != "--chunk-rows"@);
    assert("--quality-fixture"@ != "--retain-layers"@);
    assert("--warmup"@ != "--verify-manifest"@);
    assert("--warmup"@ != "--retain-output-head"@);
    assert("--warmup"@ != "--model"@);
    assert("--warmup"@ != "--backend"@);
    assert("--warmup"@ != "--prompt"@);
    assert("--warmup"@ != "--max-tokens"@);
    assert("--warmup"@ != "--context"@);
    assert("--warmup"@ != "--chunk-rows"@);
    assert("--warmup"@ != "--retain-layers"@);
    assert("--warmup"@ != "--quality-fixture"@);
    assert("--repetitions"@ != "--verify-manifest"@);
    assert("--repetitions"@ != "--retain-output-head"@);
    assert("--repetitions"@ != "--model"@);
    assert("--repetitions"@ != "--backend"@);
    assert("--repetitions"@ != "--prompt"@);
    assert("--repetitions"@ != "--max-tokens"@);
    assert("--repetitions"@ != "--context"@);
    assert("--repetitions"@ != "--chunk-rows"@);
    assert("--repetitions"@ != "--retain-layers"@);
    assert("--repetitions"@ != "--quality-fixture"@);
    assert("--repetitions"@ != "--warmup"@);
    assert("--output"@ != "--verify-manifest"@);
    assert("--output"@ != "--retain-output-head"@);
    assert("--output"@ != "--model"@);
    assert("--output"@ != "--backend"@);
    assert("--output"@ != "--prompt"@);
    assert("--output"@ != "--max-tokens"@);
    assert("--output"@ != "--context"@);
    assert("--output"@ != "--chunk-rows"@);
    assert("--output"@ != "--retain-layers"@);
    assert("--output"@ != "--quality-fixture"@);
    assert("--output"@ != "--warmup"@);
    assert("--output"@ != "--repetitions"@);
    assert("--expected-output"@ != "--verify-manifest"@);
    assert("--expected-output"@ != "--retain-output-head"@);
    assert("--expected-output"@ != "--model"@);
    assert("--expected-output"@ != "--backend"@);
    assert("--expected-output"@ != "--prompt"@);
    assert("--expected-output"@ != "--max-tokens"@);
    assert("--expected-output"@ != "--context"@);
    assert("--expected-output"@ != "--chunk-rows"@);
    assert("--expected-output"@ != "--retain-layers"@);
    assert("--expected-output"@ != "--quality-fixture"@);
    assert("--expected-output"@ != "--warmup"@);
    assert("--expected-output"@ != "--repetitions"@);
    assert("--expected-output"@ != "--output"@);
    assert(all[0].name@ == "--verify-manifest"@);
    assert(all[1].name@ == "--retain-output-head"@);
    assert(all[2].name@ == "--model"@);
    assert(all[3].name@ == "--backend"@);
    assert(all[4].name@ == "--prompt"@);
    assert(all[5].name@ == "--max-tokens"@);
    assert(all[6].name@ == "--context"@);
    assert(all[7].name@ == "--chunk-rows"@);
    assert(all[8].name@ == "--retain-layers"@);
    assert(all[9].name@ == "--quality-fixture"@);
    assert(all[10].name@ == "--warmup"@);
    assert(all[11].name@ == "--repetitions"@);
    assert(all[12].name@ == "--output"@);
    assert(all[13].name@ == "--expected-output"@);
    options::lemma_found_at(all, "--verify-manifest"@, 0, 0);
    options::lemma_found_at(all, "--retain-output-head"@, 0, 1);
    options::lemma_found_at(all, "--model"@, 0, 2);
    options::lemma_found_at(all, "--backend"@, 0, 3);
    options::lemma_found_at(all, "--prompt"@, 0, 4);
    options::lemma_found_at(all, "--max-tokens"@, 0, 5);
    options::lemma_found_at(all, "--context"@, 0, 6);
    options::lemma_found_at(all, "--chunk-rows"@, 0, 7);
    options::lemma_found_at(all, "--retain-layers"@, 0, 8);
    options::lemma_found_at(all, "--quality-fixture"@, 0, 9);
    options::lemma_found_at(all, "--warmup"@, 0, 10);
    options::lemma_found_at(all, "--repetitions"@, 0, 11);
    options::lemma_found_at(all, "--output"@, 0, 12);
    options::lemma_found_at(all, "--expected-output"@, 0, 13);
}

/// The names of the options are no requests for help.
proof fn lemma_names_are_no_help()
    ensures
        forall|i: int|
            0 <= i < rules().len() ==> (#[trigger] rules()[i]).name@ != "--help"@ && rules()[i].name@
                != "-h"@,
{
    reveal_strlit("--help");
    reveal_strlit("-h");
    assert("--help"@.len() == 6);
    assert("-h"@.len() == 2);
    reveal_strlit("--verify-manifest");
    assert("--verify-manifest"@.len() == 17);
    reveal_strlit("--retain-output-head");
    assert("--retain-output-head"@.len() == 20);
    reveal_strlit("--model");
    assert("--model"@.len() == 7);
    reveal_strlit("--backend");
    assert("--backend"@.len() == 9);
    reveal_strlit("--prompt");
    assert("--prompt"@.len() == 8);
    reveal_strlit("--max-tokens");
    assert("--max-tokens"@.len() == 12);
    reveal_strlit("--context");
    assert("--context"@.len() == 9);
    reveal_strlit("--chunk-rows");
    assert("--chunk-rows"@.len() == 12);
    reveal_strlit("--retain-layers");
    assert("--retain-layers"@.len() == 15);
    reveal_strlit("--quality-fixture");
    assert("--quality-fixture"@.len() == 17);
    reveal_strlit("--warmup");
    assert("--warmup"@.len() == 8);
    reveal_strlit("--repetitions");
    assert("--repetitions"@.len() == 13);
    reveal_strlit("--output");
    assert("--output"@.len() == 8);
    reveal_strlit("--expected-output");
    assert("--expected-output"@.len() == 17);
    let all = rules();
    assert(all[0].name@ == "--verify-manifest"@);
    assert(all[1].name@ == "--retain-output-head"@);
    assert(all[2].name@ == "--model"@);
    assert(all[3].name@ == "--backend"@);
    assert(all[4].name@ == "--prompt"@);
    assert(all[5].name@ == "--max-tokens"@);
    assert(all[6].name@ == "--context"@);
    assert(all[7].name@ == "--chunk-rows"@);
    assert(all[8].name@ == "--retain-layers"@);
    assert(all[9].name@ == "--quality-fixture"@);
    assert(all[10].name@ == "--warmup"@);
    assert(all[11].name@ == "--repetitions"@);
    assert(all[12].name@ == "--output"@);
    assert(all[13].name@ == "--expected-output"@);
}

/// What was recorded before and behind one more option with a value, which is
/// no request for help.
proof fn lemma_option_added(
    arguments: Seq<Seq<char>>,
    config: Config,
    at: int,
    name: Seq<char>,
    value: Seq<char>,
)
    requires
        parse_is(arguments, Ok(Some(config))),
        !options::asks_for_help(seq![value]),
        options::found(rules(), name, 0) == at,
        0 <= at < rules().len(),
        !(rules()[at].rule is Switch),
    ensures
        ({
            let style = options::paired_style();
            let before = options::values_result(rules(), style, arguments)->Ok_0;
            let more = arguments + seq![name, value];
            &&& before.len() == rules().len()
            &&& !options::asks_for_help(more)
            &&& more.len() > 0
            &&& options::values_result(rules(), style, more) == (match options::accepted(
                rules()[at].rule,
                value,
                before[at],
            ) {
                Ok(record) => Ok::<Seq<options::ValueView>, Seq<char>>(before.update(at, record)),
                Err(message) => Err(message),
            })
        }),
{
    let style = options::paired_style();
    lemma_names_are_no_help();
    options::lemma_found_name(rules(), name, 0);
    let rest = seq![name, value];
    assert(!options::asks_for_help(rest)) by {
        if options::asks_for_help(rest) {
            let i = choose|i: int|
                0 <= i < rest.len() && (#[trigger] rest[i] == "--help"@ || rest[i] == "-h"@);
            assert(rules()[at].name@ == name);
            assert(seq![value][0] == value);
            assert(i == 1);
        }
    }
    options::lemma_no_help(arguments, rest);
    options::law_option_is_recorded(rules(), style, arguments, at, name, value);
}

/// What was recorded before and behind one more switch.
proof fn lemma_switch_added(
    arguments: Seq<Seq<char>>,
    config: Config,
    at: int,
    name: Seq<char>,
)
    requires
        parse_is(arguments, Ok(Some(config))),
        options::found(rules(), name, 0) == at,
        0 <= at < rules().len(),
        rules()[at].rule is Switch,
    ensures
        ({
            let style = options::paired_style();
            let before = options::values_result(rules(), style, arguments)->Ok_0;
            let more = arguments + seq![name];
            &&& before.len() == rules().len()
            &&& !options::asks_for_help(more)
            &&& more.len() > 0
            &&& options::values_result(rules(), style, more) == Ok::<
                Seq<options::ValueView>,
                Seq<char>,
            >(before.update(at, options::ValueView::On))
        }),
{
    let style = options::paired_style();
    lemma_names_are_no_help();
    options::lemma_found_name(rules(), name, 0);
    let rest = seq![name];
    assert(!options::asks_for_help(rest)) by {
        if options::asks_for_help(rest) {
            let i = choose|i: int|
                0 <= i < rest.len() && (#[trigger] rest[i] == "--help"@ || rest[i] == "-h"@);
            assert(rules()[at].name@ == name);
            assert(i == 0);
        }
    }
    options::lemma_no_help(arguments, rest);
    options::law_switch_is_recorded(rules(), style, arguments, at, name);
}

/// The last text that is given for an option counts, and changes nothing else.
/// The backend must be one of three, and the report is written as text or JSON.
pub proof fn law_text_options_are_read(arguments: Seq<Seq<char>>, config: Config, value: Seq<char>)
    requires
        parse_is(arguments, Ok(Some(config))),
        !options::asks_for_help(seq![value]),
    ensures
        ({
            let args = view_of(config);
            &&& reads_as(
                arguments + seq!["--model"@, value],
                ConfigView { model_path: value, ..args },
            )
            &&& reads_as(
                arguments + seq!["--prompt"@, value],
                ConfigView { prompt: value, ..args },
            )
            &&& reads_as(
                arguments + seq!["--quality-fixture"@, value],
                ConfigView { quality_fixture: Some(value), ..args },
            )
            &&& reads_as(
                arguments + seq!["--expected-output"@, value],
                ConfigView { expected_output: Some(value), ..args },
            )
            &&& if value == "mock"@ || value == "metal-streaming"@ || value == "metal-resident"@ {
                reads_as(
                    arguments + seq!["--backend"@, value],
                    ConfigView { backend: value, ..args },
                )
            } else {
                is_refused(arguments + seq!["--backend"@, value])
            }
            &&& value == "text"@ ==> reads_as(
                arguments + seq!["--output"@, value],
                ConfigView { output_format: OutputFormat::Text, ..args },
            )
            &&& value == "json"@ ==> reads_as(
                arguments + seq!["--output"@, value],
                ConfigView { output_format: OutputFormat::Json, ..args },
            )
            &&& value != "text"@ && value != "json"@ ==> is_refused(
                arguments + seq!["--output"@, value],
            )
        }),
{
    lemma_places();
    lemma_option_added(arguments, config, 2, "--model"@, value);
    lemma_option_added(arguments, config, 4, "--prompt"@, value);
    lemma_option_added(arguments, config, 9, "--quality-fixture"@, value);
    lemma_option_added(arguments, config, 13, "--expected-output"@, value);
    lemma_option_added(arguments, config, 3, "--backend"@, value);
    lemma_option_added(arguments, config, 12, "--output"@, value);
    reveal_strlit("text");
    reveal_strlit("json");
    assert("text"@[0] != "json"@[0]);
}

/// The last number that is given for an option counts, and changes nothing
/// else. What is no number, or zero where that cannot be, is refused.
pub proof fn law_number_options_are_read(
    arguments: Seq<Seq<char>>,
    config: Config,
    value: Seq<char>,
)
    requires
        parse_is(arguments, Ok(Some(config))),
        !options::asks_for_help(seq![value]),
    ensures
        ({
            let args = view_of(config);
            let size = text::unsigned(value, usize::MAX as nat);
            let word = text::unsigned(value, u32::MAX as nat);
            &&& word matches Some(n) ==> if n > 0 {
                reads_as(
                    arguments + seq!["--max-tokens"@, value],
                    ConfigView { max_tokens: n, ..args },
                )
            } else {
                is_refused(arguments + seq!["--max-tokens"@, value])
            }
            &&& word is None ==> is_refused(arguments + seq!["--max-tokens"@, value])
            &&& size matches Some(n) ==> if n > 0 {
                reads_as(
                    arguments + seq!["--context"@, value],
                    ConfigView { max_context: n, ..args },
                )
            } else {
                is_refused(arguments + seq!["--context"@, value])
            }
            &&& size is None ==> is_refused(arguments + seq!["--context"@, value])
            &&& size matches Some(n) ==> if n > 0 {
                reads_as(
                    arguments + seq!["--chunk-rows"@, value],
                    ConfigView { chunk_rows: Some(n), ..args },
                )
            } else {
                is_refused(arguments + seq!["--chunk-rows"@, value])
            }
            &&& size is None ==> is_refused(arguments + seq!["--chunk-rows"@, value])
            &&& size matches Some(n) ==> if n > 0 {
                reads_as(
                    arguments + seq!["--retain-layers"@, value],
                    ConfigView { retain_layers: n, ..args },
                )
            } else {
                is_refused(arguments + seq!["--retain-layers"@, value])
            }
            &&& size is None ==> is_refused(arguments + seq!["--retain-layers"@, value])
            &&& word matches Some(n) ==> reads_as(
                arguments + seq!["--warmup"@, value],
                ConfigView { warmup: n, ..args },
            )
            &&& word is None ==> is_refused(arguments + seq!["--warmup"@, value])
            &&& word matches Some(n) ==> if n > 0 {
                reads_as(
                    arguments + seq!["--repetitions"@, value],
                    ConfigView { repetitions: n, ..args },
                )
            } else {
                is_refused(arguments + seq!["--repetitions"@, value])
            }
            &&& word is None ==> is_refused(arguments + seq!["--repetitions"@, value])
        }),
{
    lemma_places();
    let all = rules();
    lemma_option_added(arguments, config, 5, "--max-tokens"@, value);
    options::lemma_number_under(all[5].rule->Number_0, value);
    lemma_option_added(arguments, config, 6, "--context"@, value);
    options::lemma_number_under(all[6].rule->Number_0, value);
    lemma_option_added(arguments, config, 7, "--chunk-rows"@, value);
    options::lemma_number_under(all[7].rule->Number_0, value);
    lemma_option_added(arguments, config, 8, "--retain-layers"@, value);
    options::lemma_number_under(all[8].rule->Number_0, value);
    lemma_option_added(arguments, config, 10, "--warmup"@, value);
    options::lemma_number_under(all[10].rule->Number_0, value);
    lemma_option_added(arguments, config, 11, "--repetitions"@, value);
    options::lemma_number_under(all[11].rule->Number_0, value);
}

/// A switch that is given is on, and changes nothing else.
pub proof fn law_switches_are_read(arguments: Seq<Seq<char>>, config: Config)
    requires
        parse_is(arguments, Ok(Some(config))),
    ensures
        reads_as(
            arguments + seq!["--verify-manifest"@],
            ConfigView { verify_manifest: true, ..view_of(config) },
        ),
        reads_as(
            arguments + seq!["--retain-output-head"@],
            ConfigView { retain_output_head: true, ..view_of(config) },
        ),
{
    lemma_places();
    lemma_switch_added(arguments, config, 0, "--verify-manifest"@);
    lemma_switch_added(arguments, config, 1, "--retain-output-head"@);
}

/// What is not given has its default, and what is required was given.
pub proof fn law_defaults(arguments: Seq<Seq<char>>, config: Config)
    requires
        parse_is(arguments, Ok(Some(config))),
    ensures
        arguments.contains("--model"@),
        arguments.contains("--backend"@),
        arguments.contains("--prompt"@),
        !arguments.contains("--max-tokens"@) ==> config.max_tokens == 32,
        !arguments.contains("--context"@) ==> config.max_context == 2048,
        !arguments.contains("--chunk-rows"@) ==> config.chunk_rows is None,
        !arguments.contains("--retain-output-head"@) ==> !config.retain_output_head,
        !arguments.contains("--retain-layers"@) ==> config.retain_layers == 0,
        !arguments.contains("--quality-fixture"@) ==> config.quality_fixture is None,
        !arguments.contains("--warmup"@) ==> config.warmup == 1,
        !arguments.contains("--repetitions"@) ==> config.repetitions == 3,
        !arguments.contains("--verify-manifest"@) ==> !config.verify_manifest,
        !arguments.contains("--output"@) ==> config.output_format == OutputFormat::Text,
        !arguments.contains("--expected-output"@) ==> config.expected_output is None,
{
    let all = rules();
    let style = options::paired_style();
    options::law_unnamed_option_is_absent(all, style, arguments, 0);
    assert(all[0].name@ == "--verify-manifest"@);
    options::law_unnamed_option_is_absent(all, style, arguments, 1);
    assert(all[1].name@ == "--retain-output-head"@);
    options::law_unnamed_option_is_absent(all, style, arguments, 2);
    assert(all[2].name@ == "--model"@);
    options::law_unnamed_option_is_absent(all, style, arguments, 3);
    assert(all[3].name@ == "--backend"@);
    options::law_unnamed_option_is_absent(all, style, arguments, 4);
    assert(all[4].name@ == "--prompt"@);
    options::law_unnamed_option_is_absent(all, style, arguments, 5);
    assert(all[5].name@ == "--max-tokens"@);
    options::law_unnamed_option_is_absent(all, style, arguments, 6);
    assert(all[6].name@ == "--context"@);
    options::law_unnamed_option_is_absent(all, style, arguments, 7);
    assert(all[7].name@ == "--chunk-rows"@);
    options::law_unnamed_option_is_absent(all, style, arguments, 8);
    assert(all[8].name@ == "--retain-layers"@);
    options::law_unnamed_option_is_absent(all, style, arguments, 9);
    assert(all[9].name@ == "--quality-fixture"@);
    options::law_unnamed_option_is_absent(all, style, arguments, 10);
    assert(all[10].name@ == "--warmup"@);
    options::law_unnamed_option_is_absent(all, style, arguments, 11);
    assert(all[11].name@ == "--repetitions"@);
    options::law_unnamed_option_is_absent(all, style, arguments, 12);
    assert(all[12].name@ == "--output"@);
    options::law_unnamed_option_is_absent(all, style, arguments, 13);
    assert(all[13].name@ == "--expected-output"@);
}

/// Without arguments, or with a request for help anywhere among them, nothing
/// is read; nothing else is taken as such a request.
pub proof fn law_help_is_asked_for(
    arguments: Seq<Seq<char>>,
    result: Result<Option<Config>, String>,
)
    requires
        parse_is(arguments, result),
    ensures
        result matches Ok(None) <==> arguments.len() == 0 || arguments.contains("--help"@)
            || arguments.contains("-h"@),
{
    if arguments.contains("--help"@) {
        let i = choose|i: int| 0 <= i < arguments.len() && arguments[i] == "--help"@;
        assert(arguments[i] == "--help"@);
    }
    if arguments.contains("-h"@) {
        let i = choose|i: int| 0 <= i < arguments.len() && arguments[i] == "-h"@;
        assert(arguments[i] == "-h"@);
    }
}

} // verus!
