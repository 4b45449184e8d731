//! Batched against separate BF16 matrix products.
use vstd::prelude::*;

use crate::options;
use crate::options::{OptionRule, Rule};
use crate::text;

verus! {

pub const USAGE: &'static str = "Usage: si-matmul-many-probe --model PATH [--verify-manifest] [--warmup N] [--repetitions N]";

#[derive(Debug, Clone)]
pub struct Args {
    pub model: String,
    pub verify_manifest: bool,
    pub warmup: usize,
    pub repetitions: usize,
}

/// The arguments with their texts as character sequences.
pub struct ArgsView {
    pub model: Seq<char>,
    pub verify_manifest: bool,
    pub warmup: nat,
    pub repetitions: nat,
}

impl View for Args {
    type V = ArgsView;

    open spec fn view(&self) -> ArgsView {
        ArgsView {
            model: self.model@,
            verify_manifest: self.verify_manifest,
            warmup: self.warmup as nat,
            repetitions: self.repetitions as nat,
        }
    }
}

pub open spec fn rules() -> Seq<OptionRule> {
    seq![
        options::with_missing(options::text_option("--model"), "--model requires a path"),
        options::switch_option("--verify-manifest"),
        options::with_missing(options::size_option("--warmup", "--warmup requires a non-negative integer"), "--warmup requires an integer"),
        options::with_missing(options::size_option("--repetitions", "--repetitions requires a positive integer"), "--repetitions requires an integer"),
        OptionRule { name: "-h", rule: Rule::Help, missing: "" },
        OptionRule { name: "--help", rule: Rule::Help, missing: "" },
    ]
}

/// What the arguments mean, or the message that refuses them.
/// Arguments that ask for help mean nothing else.
pub open spec fn parsed(arguments: Seq<Seq<char>>) -> Result<Option<ArgsView>, Seq<char>> {
    match options::scan_result(rules(), options::named_style("unknown argument: "), arguments) {
        Err(message) => Err(message),
        Ok(options::ScanView::Help) => Ok(None),
        Ok(options::ScanView::Values(values)) => {
            let verify_manifest = values[1] is On;
            let warmup = options::number_or(values[2], 1);
            let repetitions = options::number_or(values[3], 5);
            match options::text_given(values[0]) {
                None => Err("--model is required"@),
                Some(model) => {
                    if repetitions == 0 {
                        Err("--repetitions must be greater than zero"@)
                    } else {
                        Ok(Some(ArgsView { model, verify_manifest, warmup, repetitions }))
                    }
                },
            }
        },
    }
}

impl Args {
    pub fn usage() -> (usage: &'static str)
        ensures
            usage@ == USAGE@,
    {
        USAGE
    }

    /// Reads the arguments; nothing comes back where they ask for help.
    pub fn parse(arguments: Vec<String>) -> (result: Result<Option<Args>, String>)
        ensures
            parsed(text::texts(arguments@)) == (match result {
                Ok(Some(args)) => Ok(Some(args@)),
                Ok(None) => Ok(None),
                Err(message) => Err(message@),
            }),
    {
        let rules: Vec<OptionRule> = vec![
            options::with_missing(options::text_option("--model"), "--model requires a path"),
            options::switch_option("--verify-manifest"),
            options::with_missing(options::size_option("--warmup", "--warmup requires a non-negative integer"), "--warmup requires an integer"),
            options::with_missing(options::size_option("--repetitions", "--repetitions requires a positive integer"), "--repetitions requires an integer"),
            OptionRule { name: "-h", rule: Rule::Help, missing: "" },
            OptionRule { name: "--help", rule: Rule::Help, missing: "" },
        ];
        proof {
            assert(rules@ =~= self::rules());
        }
        let values = match options::scan(&rules, &options::named_style("unknown argument: "), &arguments) {
            Ok(options::Scan::Values(values)) => values,
            Ok(options::Scan::Help) => {
                return Ok(None);
            },
            Err(message) => {
                return Err(message);
            },
        };
        let verify_manifest = options::is_on(&values, 1);
        let warmup: usize = options::size_or(&rules, &values, 2, 1);
        let repetitions: usize = options::size_or(&rules, &values, 3, 5);
        let model = match options::text_of(&values, 0) {
            Some(model) => model,
            None => {
                return Err("--model is required".to_owned());
            },
        };
        if repetitions == 0 {
            return Err("--repetitions must be greater than zero".to_owned());
        }
        Ok(Some(Args { model, verify_manifest, warmup, repetitions }))
    }
}

/// Every option is found in its place.
proof fn lemma_places()
    ensures
        options::found(rules(), "--model"@, 0) == 0,
        options::found(rules(), "--verify-manifest"@, 0) == 1,
        options::found(rules(), "--warmup"@, 0) == 2,
        options::found(rules(), "--repetitions"@, 0) == 3,
        options::found(rules(), "-h"@, 0) == 4,
        options::found(rules(), "--help"@, 0) == 5,
{
    reveal_strlit("--model");
    reveal_strlit("--verify-manifest");
    reveal_strlit("--warmup");
    reveal_strlit("--repetitions");
    reveal_strlit("-h");
    reveal_strlit("--help");
    assert("--model"@.len() == 7);
    assert("--verify-manifest"@.len() == 17);
    assert("--warmup"@.len() == 8);
    assert("--repetitions"@.len() == 13);
    assert("-h"@.len() == 2);
    assert("--help"@.len() == 6);
    let all = rules();
    assert("--verify-manifest"@ != "--model"@);
    assert("--warmup"@ != "--model"@);
    assert("--warmup"@ != "--verify-manifest"@);
    assert("--repetitions"@ != "--model"@);
    assert("--repetitions"@ != "--verify-manifest"@);
    assert("--repetitions"@ != "--warmup"@);
    assert("-h"@ != "--model"@);
    assert("-h"@ != "--verify-manifest"@);
    assert("-h"@ != "--warmup"@);
    assert("-h"@ != "--repetitions"@);
    assert("--help"@ != "--model"@);
    assert("--help"@ != "--verify-manifest"@);
    assert("--help"@ != "--warmup"@);
    assert("--help"@ != "--repetitions"@);
    assert("--help"@ != "-h"@);
    assert(all[0].name@ == "--model"@);
    assert(all[1].name@ == "--verify-manifest"@);
    assert(all[2].name@ == "--warmup"@);
    assert(all[3].name@ == "--repetitions"@);
    assert(all[4].name@ == "-h"@);
    assert(all[5].name@ == "--help"@);
    options::lemma_found_at(all, "--model"@, 0, 0);
    options::lemma_found_at(all, "--verify-manifest"@, 0, 1);
    options::lemma_found_at(all, "--warmup"@, 0, 2);
    options::lemma_found_at(all, "--repetitions"@, 0, 3);
    options::lemma_found_at(all, "-h"@, 0, 4);
    options::lemma_found_at(all, "--help"@, 0, 5);
}

/// The last value that is given for an option counts, and changes nothing else.
/// What is not given has its default, and what is required was given.
pub proof fn law_options_are_read(arguments: Seq<Seq<char>>, value: Seq<char>)
    requires
        parsed(arguments) matches Ok(Some(_)),
    ensures
        ({
            let args = parsed(arguments)->Ok_0->Some_0;
            let size = text::unsigned(value, usize::MAX as nat);
            &&& parsed(arguments + seq!["--model"@, value]) == Ok::<Option<ArgsView>, Seq<char>>(
                Some(ArgsView { model: value, ..args }),
            )
            &&& arguments.contains("--model"@)
            &&& parsed(arguments + seq!["--verify-manifest"@]) == Ok::<Option<ArgsView>, Seq<char>>(
                Some(ArgsView { verify_manifest: true, ..args }),
            )
            &&& !arguments.contains("--verify-manifest"@) ==> !args.verify_manifest
            &&& size matches Some(n) ==> parsed(arguments + seq!["--warmup"@, value]) == Ok::<Option<ArgsView>, Seq<char>>(
                Some(ArgsView { warmup: n, ..args }),
            )
            &&& size is None ==> parsed(arguments + seq!["--warmup"@, value]) is Err
            &&& !arguments.contains("--warmup"@) ==> args.warmup == 1
            &&& size matches Some(n) ==> if n > 0 {
                parsed(arguments + seq!["--repetitions"@, value]) == Ok::<Option<ArgsView>, Seq<char>>(
                    Some(ArgsView { repetitions: n, ..args }),
                )
            } else {
                parsed(arguments + seq!["--repetitions"@, value]) is Err
            }
            &&& size is None ==> parsed(arguments + seq!["--repetitions"@, value]) is Err
            &&& !arguments.contains("--repetitions"@) ==> args.repetitions == 5
            &&& parsed(arguments + (seq!["-h"@] + seq![value])) == Ok::<Option<ArgsView>, Seq<char>>(None)
            &&& parsed(arguments + (seq!["--help"@] + seq![value])) == Ok::<Option<ArgsView>, Seq<char>>(None)
        }),
{
    lemma_places();
    let all = rules();
    let style = options::named_style("unknown argument: ");
    options::law_option_is_recorded(all, style, arguments, 0, "--model"@, value);
    options::law_unnamed_option_is_absent(all, style, arguments, 0);
    options::law_switch_is_recorded(all, style, arguments, 1, "--verify-manifest"@);
    options::law_unnamed_option_is_absent(all, style, arguments, 1);
    options::law_option_is_recorded(all, style, arguments, 2, "--warmup"@, value);
    options::lemma_number_under(all[2].rule->Number_0, value);
    options::law_unnamed_option_is_absent(all, style, arguments, 2);
    options::law_option_is_recorded(all, style, arguments, 3, "--repetitions"@, value);
    options::lemma_number_under(all[3].rule->Number_0, value);
    options::law_unnamed_option_is_absent(all, style, arguments, 3);
    options::law_lone_option_ends_scan(all, style, arguments, 4, "-h"@, seq![value]);
    options::law_lone_option_ends_scan(all, style, arguments, 5, "--help"@, seq![value]);
}

} // verus!
