//! Batched verification of candidates against separate target calls.
use vstd::prelude::*;

use crate::options;
use crate::options::{OptionRule, Rule};
use crate::text;

verus! {

pub const USAGE: &'static str = "Usage: si-verify-many-probe --model PATH [--prompt TEXT] [--context N] [--retain-layers N] [--verify-manifest] [--warmup N] [--repetitions N]";

#[derive(Debug, Clone)]
pub struct Args {
    pub model: String,
    pub prompt: String,
    pub context: usize,
    pub verify_manifest: bool,
    pub retain_layers: usize,
    pub warmup: usize,
    pub repetitions: usize,
}

/// The arguments with their texts as character sequences.
pub struct ArgsView {
    pub model: Seq<char>,
    pub prompt: Seq<char>,
    pub context: nat,
    pub verify_manifest: bool,
    pub retain_layers: nat,
    pub warmup: nat,
    pub repetitions: nat,
}

impl View for Args {
    type V = ArgsView;

    open spec fn view(&self) -> ArgsView {
        ArgsView {
            model: self.model@,
            prompt: self.prompt@,
            context: self.context as nat,
            verify_manifest: self.verify_manifest,
            retain_layers: self.retain_layers as nat,
            warmup: self.warmup as nat,
            repetitions: self.repetitions as nat,
        }
    }
}

pub open spec fn rules() -> Seq<OptionRule> {
    seq![
        options::with_missing(options::text_option("--model"), "--model requires a path"),
        options::with_missing(options::text_option("--prompt"), "--prompt requires text"),
        options::with_missing(options::size_option("--context", "--context requires a positive integer"), "--context requires an integer"),
        options::switch_option("--verify-manifest"),
        options::with_missing(options::size_option("--retain-layers", "--retain-layers requires a positive integer"), "--retain-layers requires an integer"),
        options::with_missing(options::size_option("--warmup", "--warmup requires a non-negative integer"), "--warmup requires an integer"),
        options::with_missing(options::size_option("--repetitions", "--repetitions requires a positive integer"), "--repetitions requires an integer"),
        OptionRule { name: "-h", rule: Rule::Help, missing: "" },
        OptionRule { name: "--help", rule: Rule::Help, missing: "" },
    ]
}

/// What the arguments mean, or the message that refuses them.
/// Arguments that ask for help mean nothing else.
pub open spec fn parsed(arguments: Seq<Seq<char>>) -> Result<Option<ArgsView>, Seq<char>> {
    match options::scan_result(rules(), options::named_style("unknown argument: "), arguments) {
        Err(message) => Err(message),
        Ok(options::ScanView::Help) => Ok(None),
        Ok(options::ScanView::Values(values)) => {
            let prompt = options::text_or(values[1], "Hello"@);
            let context = options::number_or(values[2], 2048);
            let verify_manifest = values[3] is On;
            let retain_layers = options::number_or(values[4], 0);
            let warmup = options::number_or(values[5], 0);
            let repetitions = options::number_or(values[6], 1);
            match options::text_given(values[0]) {
                None => Err("--model is required"@),
                Some(model) => {
                    if context == 0 {
                        Err("--context must be greater than zero"@)
                    } else {
                        if repetitions == 0 {
                            Err("--repetitions must be greater than zero"@)
                        } else {
                            Ok(Some(ArgsView { model, prompt, context, verify_manifest, retain_layers, warmup, repetitions }))
                        }
                    }
                },
            }
        },
    }
}

impl Args {
    pub fn usage() -> (usage: &'static str)
        ensures
            usage@ == USAGE@,
    {
        USAGE
    }

    /// Reads the arguments; nothing comes back where they ask for help.
    pub fn parse(arguments: Vec<String>) -> (result: Result<Option<Args>, String>)
        ensures
            parsed(text::texts(arguments@)) == (match result {
                Ok(Some(args)) => Ok(Some(args@)),
                Ok(None) => Ok(None),
                Err(message) => Err(message@),
            }),
    {
        let rules: Vec<OptionRule> = vec![
            options::with_missing(options::text_option("--model"), "--model requires a path"),
            options::with_missing(options::text_option("--prompt"), "--prompt requires text"),
            options::with_missing(options::size_option("--context", "--context requires a positive integer"), "--context requires an integer"),
            options::switch_option("--verify-manifest"),
            options::with_missing(options::size_option("--retain-layers", "--retain-layers requires a positive integer"), "--retain-layers requires an integer"),
            options::with_missing(options::size_option("--warmup", "--warmup requires a non-negative integer"), "--warmup requires an integer"),
            options::with_missing(options::size_option("--repetitions", "--repetitions requires a positive integer"), "--repetitions requires an integer"),
            OptionRule { name: "-h", rule: Rule::Help, missing: "" },
            OptionRule { name: "--help", rule: Rule::Help, missing: "" },
        ];
        proof {
            assert(rules@ =~= self::rules());
        }
        let values = match options::scan(&rules, &options::named_style("unknown argument: "), &arguments) {
            Ok(options::Scan::Values(values)) => values,
            Ok(options::Scan::Help) => {
                return Ok(None);
            },
            Err(message) => {
                return Err(message);
            },
        };
        let prompt = options::text_of_or(&values, 1, "Hello");
        let context: usize = options::size_or(&rules, &values, 2, 2048);
        let verify_manifest = options::is_on(&values, 3);
        let retain_layers: usize = options::size_or(&rules, &values, 4, 0);
        let warmup: usize = options::size_or(&rules, &values, 5, 0);
        let repetitions: usize = options::size_or(&rules, &values, 6, 1);
        let model = match options::text_of(&values, 0) {
            Some(model) => model,
            None => {
                return Err("--model is required".to_owned());
            },
        };
        if context == 0 {
            return Err("--context must be greater than zero".to_owned());
        }
        if repetitions == 0 {
            return Err("--repetitions must be greater than zero".to_owned());
        }
        Ok(Some(Args { model, prompt, context, verify_manifest, retain_layers, warmup, repetitions }))
    }
}

/// Every option is found in its place.
proof fn lemma_places()
    ensures
        options::found(rules(), "--model"@, 0) == 0,
        options::found(rules(), "--prompt"@, 0) == 1,
        options::found(rules(), "--context"@, 0) == 2,
        options::found(rules(), "--verify-manifest"@, 0) == 3,
        options::found(rules(), "--retain-layers"@, 0) == 4,
        options::found(rules(), "--warmup"@, 0) == 5,
        options::found(rules(), "--repetitions"@, 0) == 6,
        options::found(rules(), "-h"@, 0) == 7,
        options::found(rules(), "--help"@, 0) == 8,
{
    reveal_strlit("--model");
    reveal_strlit("--prompt");
    reveal_strlit("--context");
    reveal_strlit("--verify-manifest");
    reveal_strlit("--retain-layers");
    reveal_strlit("--warmup");
    reveal_strlit("--repetitions");
    reveal_strlit("-h");
    reveal_strlit("--help");
    assert("--model"@.len() == 7);
    assert("--prompt"@.len() == 8);
    assert("--context"@.len() == 9);
    assert("--verify-manifest"@.len() == 17);
    assert("--retain-layers"@.len() == 15);
    assert("--warmup"@.len() == 8);
    assert("--repetitions"@.len() == 13);
    assert("-h"@.len() == 2);
    assert("--help"@.len() == 6);
    assert("--warmup"@[2] != "--prompt"@[2]);
    let all = rules();
    assert("--prompt"@ != "--model"@);
    assert("--context"@ != "--model"@);
    assert("--context"@ != "--prompt"@);
    assert("--verify-manifest"@ != "--model"@);
    assert("--verify-manifest"@ != "--prompt"@);
    assert("--verify-manifest"@ != "--context"@);
    assert("--retain-layers"@ != "--model"@);
    assert("--retain-layers"@ != "--prompt"@);
    assert("--retain-layers"@ != "--context"@);
    assert("--retain-layers"@ != "--verify-manifest"@);
    assert("--warmup"@ != "--model"@);
    assert("--warmup"@ != "--prompt"@);
    assert("--warmup"@ != "--context"@);
    assert("--warmup"@ != "--verify-manifest"@);
    assert("--warmup"@ != "--retain-layers"@);
    assert("--repetitions"@ != "--model"@);
    assert("--repetitions"@ != "--prompt"@);
    assert("--repetitions"@ != "--context"@);
    assert("--repetitions"@ != "--verify-manifest"@);
    assert("--repetitions"@ != "--retain-layers"@);
    assert("--repetitions"@ != "--warmup"@);
    assert("-h"@ != "--model"@);
    assert("-h"@ != "--prompt"@);
    assert("-h"@ != "--context"@);
    assert("-h"@ != "--verify-manifest"@);
    assert("-h"@ != "--retain-layers"@);
    assert("-h"@ != "--warmup"@);
    assert("-h"@ != "--repetitions"@);
    assert("--help"@ != "--model"@);
    assert("--help"@ != "--prompt"@);
    assert("--help"@ != "--context"@);
    assert("--help"@ != "--verify-manifest"@);
    assert("--help"@ != "--retain-layers"@);
    assert("--help"@ != "--warmup"@);
    assert("--help"@ != "--repetitions"@);
    assert("--help"@ != "-h"@);
    assert(all[0].name@ == "--model"@);
    assert(all[1].name@ == "--prompt"@);
    assert(all[2].name@ == "--context"@);
    assert(all[3].name@ == "--verify-manifest"@);
    assert(all[4].name@ == "--retain-layers"@);
    assert(all[5].name@ == "--warmup"@);
    assert(all[6].name@ == "--repetitions"@);
    assert(all[7].name@ == "-h"@);
    assert(all[8].name@ == "--help"@);
    options::lemma_found_at(all, "--model"@, 0, 0);
    options::lemma_found_at(all, "--prompt"@, 0, 1);
    options::lemma_found_at(all, "--context"@, 0, 2);
    options::lemma_found_at(all, "--verify-manifest"@, 0, 3);
    options::lemma_found_at(all, "--retain-layers"@, 0, 4);
    options::lemma_found_at(all, "--warmup"@, 0, 5);
    options::lemma_found_at(all, "--repetitions"@, 0, 6);
    options::lemma_found_at(all, "-h"@, 0, 7);
    options::lemma_found_at(all, "--help"@, 0, 8);
}

/// The last value that is given for an option counts, and changes nothing else.
/// What is not given has its default, and what is required was given.
pub proof fn law_options_are_read(arguments: Seq<Seq<char>>, value: Seq<char>)
    requires
        parsed(arguments) matches Ok(Some(_)),
    ensures
        ({
            let args = parsed(arguments)->Ok_0->Some_0;
            let size = text::unsigned(value, usize::MAX as nat);
            &&& parsed(arguments + seq!["--model"@, value]) == Ok::<Option<ArgsView>, Seq<char>>(
                Some(ArgsView { model: value, ..args }),
            )
            &&& arguments.contains("--model"@)
            &&& parsed(arguments + seq!["--prompt"@, value]) == Ok::<Option<ArgsView>, Seq<char>>(
                Some(ArgsView { prompt: value, ..args }),
            )
            &&& !arguments.contains("--prompt"@) ==> args.prompt == "Hello"@
            &&& size matches Some(n) ==> if n > 0 {
                parsed(arguments + seq!["--context"@, value]) == Ok::<Option<ArgsView>, Seq<char>>(
                    Some(ArgsView { context: n, ..args }),
                )
            } else {
                parsed(arguments + seq!["--context"@, value]) is Err
            }
            &&& size is None ==> parsed(arguments + seq!["--context"@, value]) is Err
            &&& !arguments.contains("--context"@) ==> args.context == 2048
            &&& parsed(arguments + seq!["--verify-manifest"@]) == Ok::<Option<ArgsView>, Seq<char>>(
                Some(ArgsView { verify_manifest: true, ..args }),
            )
            &&& !arguments.contains("--verify-manifest"@) ==> !args.verify_manifest
            &&& size matches Some(n) ==> parsed(arguments + seq!["--retain-layers"@, value]) == Ok::<Option<ArgsView>, Seq<char>>(
                Some(ArgsView { retain_layers: n, ..args }),
            )
            &&& size is None ==> parsed(arguments + seq!["--retain-layers"@, value]) is Err
            &&& !arguments.contains("--retain-layers"@) ==> args.retain_layers == 0
            &&& size matches Some(n) ==> parsed(arguments + seq!["--warmup"@, value]) == Ok::<Option<ArgsView>, Seq<char>>(
                Some(ArgsView { warmup: n, ..args }),
            )
            &&& size is None ==> parsed(arguments + seq!["--warmup"@, value]) is Err
            &&& !arguments.contains("--warmup"@) ==> args.warmup == 0
            &&& size matches Some(n) ==> if n > 0 {
                parsed(arguments + seq!["--repetitions"@, value]) == Ok::<Option<ArgsView>, Seq<char>>(
                    Some(ArgsView { repetitions: n, ..args }),
                )
            } else {
                parsed(arguments + seq!["--repetitions"@, value]) is Err
            }
            &&& size is None ==> parsed(arguments + seq!["--repetitions"@, value]) is Err
            &&& !arguments.contains("--repetitions"@) ==> args.repetitions == 1
            &&& parsed(arguments + (seq!["-h"@] + seq![value])) == Ok::<Option<ArgsView>, Seq<char>>(None)
            &&& parsed(arguments + (seq!["--help"@] + seq![value])) == Ok::<Option<ArgsView>, Seq<char>>(None)
        }),
{
    lemma_places();
    let all = rules();
    let style = options::named_style("unknown argument: ");
    options::law_option_is_recorded(all, style, arguments, 0, "--model"@, value);
    options::law_unnamed_option_is_absent(all, style, arguments, 0);
    options::law_option_is_recorded(all, style, arguments, 1, "--prompt"@, value);
    options::law_unnamed_option_is_absent(all, style, arguments, 1);
    options::law_option_is_recorded(all, style, arguments, 2, "--context"@, value);
    options::lemma_number_under(all[2].rule->Number_0, value);
    options::law_unnamed_option_is_absent(all, style, arguments, 2);
    options::law_switch_is_recorded(all, style, arguments, 3, "--verify-manifest"@);
    options::law_unnamed_option_is_absent(all, style, arguments, 3);
    options::law_option_is_recorded(all, style, arguments, 4, "--retain-layers"@, value);
    options::lemma_number_under(all[4].rule->Number_0, value);
    options::law_unnamed_option_is_absent(all, style, arguments, 4);
    options::law_option_is_recorded(all, style, arguments, 5, "--warmup"@, value);
    options::lemma_number_under(all[5].rule->Number_0, value);
    options::law_unnamed_option_is_absent(all, style, arguments, 5);
    options::law_option_is_recorded(all, style, arguments, 6, "--repetitions"@, value);
    options::lemma_number_under(all[6].rule->Number_0, value);
    options::law_unnamed_option_is_absent(all, style, arguments, 6);
    options::law_lone_option_ends_scan(all, style, arguments, 7, "-h"@, seq![value]);
    options::law_lone_option_ends_scan(all, style, arguments, 8, "--help"@, seq![value]);
}

} // verus!
