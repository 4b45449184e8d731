//! Lossless block codecs measured on the BF16 weights of a model.
use vstd::prelude::*;

use crate::options;
use crate::options::{OptionRule, Rule};
use crate::tensor;
use crate::tensor::TensorInfo;
use crate::text;

verus! {

pub const USAGE: &'static str = "Usage: si-lossless-probe --model PATH [--tensor NAME] [--block-kib N] [--repetitions N] [--verify-manifest] [--metal-matvec]";

#[derive(Debug, Clone)]
pub struct Args {
    pub model: String,
    pub tensors: Vec<String>,
    pub block_bytes: usize,
    pub verify_manifest: bool,
    pub metal_matvec: bool,
    pub repetitions: usize,
}

/// The arguments with their texts as character sequences.
pub struct ArgsView {
    pub model: Seq<char>,
    pub tensors: Seq<Seq<char>>,
    pub block_bytes: nat,
    pub verify_manifest: bool,
    pub metal_matvec: bool,
    pub repetitions: nat,
}

impl View for Args {
    type V = ArgsView;

    open spec fn view(&self) -> ArgsView {
        ArgsView {
            model: self.model@,
            tensors: text::texts(self.tensors@),
            block_bytes: self.block_bytes as nat,
            verify_manifest: self.verify_manifest,
            metal_matvec: self.metal_matvec,
            repetitions: self.repetitions as nat,
        }
    }
}

pub open spec fn rules() -> Seq<OptionRule> {
    seq![
        options::text_option("--model"),
        OptionRule { name: "--tensor", rule: Rule::Texts, missing: "" },
        OptionRule {
            name: "--block-kib",
            rule: Rule::Number(
                options::NumberRule {
                    limit: usize::MAX as u64,
                    scale: 1024,
                    least: 1,
                    invalid: "--block-kib must be an integer",
                    overflow: "--block-kib overflows",
                    low: "--block-kib must be non-zero",
                },
            ),
            missing: "",
        },
        options::switch_option("--verify-manifest"),
        options::switch_option("--metal-matvec"),
        OptionRule {
            name: "--repetitions",
            rule: Rule::Number(
                options::size_rule(
                    1,
                    "--repetitions must be an integer",
                    "--repetitions must be non-zero",
                ),
            ),
            missing: "",
        },
        OptionRule { name: "--help", rule: Rule::Refuse(USAGE), missing: "" },
        OptionRule { name: "-h", rule: Rule::Refuse(USAGE), missing: "" },
    ]
}

/// What the arguments mean, or the message that refuses them.
pub open spec fn parsed(arguments: Seq<Seq<char>>) -> Result<ArgsView, Seq<char>> {
    match options::values_result(rules(), options::paired_style(), arguments) {
        Err(message) => Err(message),
        Ok(values) => {
            let tensors = options::texts_given(values[1]);
            let block_bytes = options::number_or(values[2], 65536);
            let verify_manifest = values[3] is On;
            let metal_matvec = values[4] is On;
            let repetitions = options::number_or(values[5], 3);
            match options::text_given(values[0]) {
                None => Err("--model is required"@),
                Some(model) => {
                    Ok(ArgsView { model, tensors, block_bytes, verify_manifest, metal_matvec, repetitions })
                },
            }
        },
    }
}

impl Args {
    pub fn usage() -> (usage: &'static str)
        ensures
            usage@ == USAGE@,
    {
        USAGE
    }

    pub fn parse(arguments: Vec<String>) -> (result: Result<Args, String>)
        ensures
            text::outcome_view(result) == parsed(text::texts(arguments@)),
    {
        let rules: Vec<OptionRule> = vec![
            options::text_option("--model"),
            OptionRule { name: "--tensor", rule: Rule::Texts, missing: "" },
            OptionRule {
            name: "--block-kib",
            rule: Rule::Number(
                options::NumberRule {
                    limit: usize::MAX as u64,
                    scale: 1024,
                    least: 1,
                    invalid: "--block-kib must be an integer",
                    overflow: "--block-kib overflows",
                    low: "--block-kib must be non-zero",
                },
            ),
            missing: "",
        },
            options::switch_option("--verify-manifest"),
            options::switch_option("--metal-matvec"),
            OptionRule {
            name: "--repetitions",
            rule: Rule::Number(
                options::size_rule(
                    1,
                    "--repetitions must be an integer",
                    "--repetitions must be non-zero",
                ),
            ),
            missing: "",
        },
            OptionRule { name: "--help", rule: Rule::Refuse(USAGE), missing: "" },
            OptionRule { name: "-h", rule: Rule::Refuse(USAGE), missing: "" },
        ];
        proof {
            assert(rules@ =~= self::rules());
        }
        let values = match options::scan_values(&rules, &options::paired_style(), &arguments) {
            Ok(values) => values,
            Err(message) => {
                return Err(message);
            },
        };
        let tensors = options::texts_of(&values, 1);
        let block_bytes: usize = options::size_or(&rules, &values, 2, 65536);
        let verify_manifest = options::is_on(&values, 3);
        let metal_matvec = options::is_on(&values, 4);
        let repetitions: usize = options::size_or(&rules, &values, 5, 3);
        let model = match options::text_of(&values, 0) {
            Some(model) => model,
            None => {
                return Err("--model is required".to_owned());
            },
        };
        Ok(Args { model, tensors, block_bytes, verify_manifest, metal_matvec, repetitions })
    }
}

/// The tensors that are measured where none is named.
pub open spec fn default_tensors() -> Seq<Seq<char>> {
    seq![
        "model.layers.0.self_attn.q_proj.weight"@,
        "model.layers.0.mlp.down_proj.weight"@,
        "model.embed_tokens.weight"@,
    ]
}

/// The tensors to measure: those that were named, or the default ones.
pub fn measured_tensors(named: Vec<String>) -> (names: Vec<String>)
    ensures
        text::texts(names@) == if named@.len() == 0 {
            default_tensors()
        } else {
            text::texts(named@)
        },
{
    if named.len() > 0 {
        return named;
    }
    let names: Vec<String> = vec![
        "model.layers.0.self_attn.q_proj.weight".to_owned(),
        "model.layers.0.mlp.down_proj.weight".to_owned(),
        "model.embed_tokens.weight".to_owned(),
    ];
    proof {
        assert(text::texts(names@) =~= default_tensors());
    }
    names
}

/// The line that opens the report.
pub fn header_line(model: &str, block_bytes: usize) -> (line: String)
    ensures
        line@ == "probe=model="@ + model@ + " block_kib="@ + text::decimal(
            (block_bytes / 1024) as nat,
        ) + " codecs=zlib,bf16-plane-zlib,bf16-bitpack,bf16-rle"@,
{
    text::concat5(
        "probe=model=",
        model,
        " block_kib=",
        text::decimal_text((block_bytes / 1024) as u64).as_str(),
        " codecs=zlib,bf16-plane-zlib,bf16-bitpack,bf16-rle",
    )
}

/// The line that opens the report of a tensor.
pub fn tensor_line(name: &str, shape: &Vec<usize>, bytes: usize) -> (line: String)
    ensures
        line@ == "tensor="@ + name@ + " shape="@ + text::shape_form(shape@) + " bytes="@
            + text::decimal(bytes as nat),
{
    let mut line = text::concat4("tensor=", name, " shape=", text::shape_text(shape).as_str());
    line.append(" bytes=");
    line.append(text::decimal_text(bytes as u64).as_str());
    line
}

/// Only BF16 tensors are measured.
pub fn check_tensor(name: &str, info: &TensorInfo) -> (result: Result<(), String>)
    ensures
        text::outcome(result) == if tensor::is_bf16(*info) {
            Ok(())
        } else {
            Err(name@ + " is not BF16"@)
        },
{
    if info.has_bf16_values() {
        Ok(())
    } else {
        Err(text::concat2(name, " is not BF16"))
    }
}

/// The most bytes of a tensor that is multiplied on the device.
pub const MATVEC_LIMIT: usize = 104857600;

/// The rows of a tile of the matrix that is multiplied on the device.
pub const TILE_ROWS: usize = 8;

/// Whether a tensor is multiplied on the device, and why not.
#[derive(Debug, Clone, Copy, PartialEq, Eq, Structural)]
pub enum MatvecProbe {
    RankNotTwo,
    TensorTooLarge,
    Run,
}

pub fn matvec_probe(rank: usize, bytes: usize) -> (probe: MatvecProbe)
    ensures
        probe == if rank != 2 {
            MatvecProbe::RankNotTwo
        } else if bytes > MATVEC_LIMIT {
            MatvecProbe::TensorTooLarge
        } else {
            MatvecProbe::Run
        },
{
    if rank != 2 {
        MatvecProbe::RankNotTwo
    } else if bytes > MATVEC_LIMIT {
        MatvecProbe::TensorTooLarge
    } else {
        MatvecProbe::Run
    }
}

/// The line for a tensor that is not multiplied on the device.
pub fn skipped_line(probe: MatvecProbe, bytes: usize) -> (line: Option<String>)
    ensures
        text::optional_text(line) == match probe {
            MatvecProbe::RankNotTwo => Some("metal_matvec=skipped reason=rank_not_two"@),
            MatvecProbe::TensorTooLarge => Some(
                "metal_matvec=skipped reason=tensor_too_large bytes="@ + text::decimal(bytes as nat)
                    + " limit="@ + text::decimal(MATVEC_LIMIT as nat),
            ),
            MatvecProbe::Run => None,
        },
{
    match probe {
        MatvecProbe::RankNotTwo => Some("metal_matvec=skipped reason=rank_not_two".to_owned()),
        MatvecProbe::TensorTooLarge => Some(
            text::concat4(
                "metal_matvec=skipped reason=tensor_too_large bytes=",
                text::decimal_text(bytes as u64).as_str(),
                " limit=",
                text::decimal_text(MATVEC_LIMIT as u64).as_str(),
            ),
        ),
        MatvecProbe::Run => None,
    }
}

/// Every option is found in its place.
proof fn lemma_places()
    ensures
        options::found(rules(), "--model"@, 0) == 0,
        options::found(rules(), "--tensor"@, 0) == 1,
        options::found(rules(), "--block-kib"@, 0) == 2,
        options::found(rules(), "--verify-manifest"@, 0) == 3,
        options::found(rules(), "--metal-matvec"@, 0) == 4,
        options::found(rules(), "--repetitions"@, 0) == 5,
        options::found(rules(), "--help"@, 0) == 6,
        options::found(rules(), "-h"@, 0) == 7,
{
    reveal_strlit("--model");
    reveal_strlit("--tensor");
    reveal_strlit("--block-kib");
    reveal_strlit("--verify-manifest");
    reveal_strlit("--metal-matvec");
    reveal_strlit("--repetitions");
    reveal_strlit("--help");
    reveal_strlit("-h");
    assert("--model"@.len() == 7);
    assert("--tensor"@.len() == 8);
    assert("--block-kib"@.len() == 11);
    assert("--verify-manifest"@.len() == 17);
    assert("--metal-matvec"@.len() == 14);
    assert("--repetitions"@.len() == 13);
    assert("--help"@.len() == 6);
    assert("-h"@.len() == 2);
    let all = rules();
    assert("--tensor"@ != "--model"@);
    assert("--block-kib"@ != "--model"@);
    assert("--block-kib"@ != "--tensor"@);
    assert("--verify-manifest"@ != "--model"@);
    assert("--verify-manifest"@ != "--tensor"@);
    assert("--verify-manifest"@ != "--block-kib"@);
    assert("--metal-matvec"@ != "--model"@);
    assert("--metal-matvec"@ != "--tensor"@);
    assert("--metal-matvec"@ != "--block-kib"@);
    assert("--metal-matvec"@ != "--verify-manifest"@);
    assert("--repetitions"@ != "--model"@);
    assert("--repetitions"@ != "--tensor"@);
    assert("--repetitions"@ != "--block-kib"@);
    assert("--repetitions"@ != "--verify-manifest"@);
    assert("--repetitions"@ != "--metal-matvec"@);
    assert("--help"@ != "--model"@);
    assert("--help"@ != "--tensor"@);
    assert("--help"@ != "--block-kib"@);
    assert("--help"@ != "--verify-manifest"@);
    assert("--help"@ != "--metal-matvec"@);
    assert("--help"@ != "--repetitions"@);
    assert("-h"@ != "--model"@);
    assert("-h"@ != "--tensor"@);
    assert("-h"@ != "--block-kib"@);
    assert("-h"@ != "--verify-manifest"@);
    assert("-h"@ != "--metal-matvec"@);
    assert("-h"@ != "--repetitions"@);
    assert("-h"@ != "--help"@);
    assert(all[0].name@ == "--model"@);
    assert(all[1].name@ == "--tensor"@);
    assert(all[2].name@ == "--block-kib"@);
    assert(all[3].name@ == "--verify-manifest"@);
    assert(all[4].name@ == "--metal-matvec"@);
    assert(all[5].name@ == "--repetitions"@);
    assert(all[6].name@ == "--help"@);
    assert(all[7].name@ == "-h"@);
    options::lemma_found_at(all, "--model"@, 0, 0);
    options::lemma_found_at(all, "--tensor"@, 0, 1);
    options::lemma_found_at(all, "--block-kib"@, 0, 2);
    options::lemma_found_at(all, "--verify-manifest"@, 0, 3);
    options::lemma_found_at(all, "--metal-matvec"@, 0, 4);
    options::lemma_found_at(all, "--repetitions"@, 0, 5);
    options::lemma_found_at(all, "--help"@, 0, 6);
    options::lemma_found_at(all, "-h"@, 0, 7);
}

/// The last value that is given for an option counts, and changes nothing else.
/// What is not given has its default, and what is required was given.
pub proof fn law_options_are_read(arguments: Seq<Seq<char>>, value: Seq<char>)
    requires
        parsed(arguments) matches Ok(_),
    ensures
        ({
            let args = parsed(arguments)->Ok_0;
            let size = text::unsigned(value, usize::MAX as nat);
            &&& parsed(arguments + seq!["--model"@, value]) == Ok::<ArgsView, Seq<char>>(
                ArgsView { model: value, ..args },
            )
            &&& arguments.contains("--model"@)
            &&& parsed(arguments + seq!["--tensor"@, value]) == Ok::<ArgsView, Seq<char>>(
                ArgsView { tensors: args.tensors.push(value), ..args },
            )
            &&& !arguments.contains("--tensor"@) ==> args.tensors.len() == 0
            &&& size matches Some(n) ==> if 0 < n * 1024 <= usize::MAX {
                parsed(arguments + seq!["--block-kib"@, value]) == Ok::<ArgsView, Seq<char>>(
                    ArgsView { block_bytes: (n * 1024) as nat, ..args },
                )
            } else {
                parsed(arguments + seq!["--block-kib"@, value]) is Err
            }
            &&& size is None ==> parsed(arguments + seq!["--block-kib"@, value]) is Err
            &&& !arguments.contains("--block-kib"@) ==> args.block_bytes == 65536
            &&& parsed(arguments + seq!["--verify-manifest"@]) == Ok::<ArgsView, Seq<char>>(
                ArgsView { verify_manifest: true, ..args },
            )
            &&& !arguments.contains("--verify-manifest"@) ==> !args.verify_manifest
            &&& parsed(arguments + seq!["--metal-matvec"@]) == Ok::<ArgsView, Seq<char>>(
                ArgsView { metal_matvec: true, ..args },
            )
            &&& !arguments.contains("--metal-matvec"@) ==> !args.metal_matvec
            &&& size matches Some(n) ==> if n > 0 {
                parsed(arguments + seq!["--repetitions"@, value]) == Ok::<ArgsView, Seq<char>>(
                    ArgsView { repetitions: n, ..args },
                )
            } else {
                parsed(arguments + seq!["--repetitions"@, value]) is Err
            }
            &&& size is None ==> parsed(arguments + seq!["--repetitions"@, value]) is Err
            &&& !arguments.contains("--repetitions"@) ==> args.repetitions == 3
        }),
{
    lemma_places();
    let all = rules();
    let style = options::paired_style();
    options::law_option_is_recorded(all, style, arguments, 0, "--model"@, value);
    options::law_unnamed_option_is_absent(all, style, arguments, 0);
    options::law_option_is_recorded(all, style, arguments, 1, "--tensor"@, value);
    options::law_unnamed_option_is_absent(all, style, arguments, 1);
    options::law_option_is_recorded(all, style, arguments, 2, "--block-kib"@, value);
    options::law_unnamed_option_is_absent(all, style, arguments, 2);
    options::law_switch_is_recorded(all, style, arguments, 3, "--verify-manifest"@);
    options::law_unnamed_option_is_absent(all, style, arguments, 3);
    options::law_switch_is_recorded(all, style, arguments, 4, "--metal-matvec"@);
    options::law_unnamed_option_is_absent(all, style, arguments, 4);
    options::law_option_is_recorded(all, style, arguments, 5, "--repetitions"@, value);
    options::lemma_number_under(all[5].rule->Number_0, value);
    options::law_unnamed_option_is_absent(all, style, arguments, 5);
}

} // verus!
