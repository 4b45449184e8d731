//! Packing a model in execution order.
use vstd::prelude::*;

use crate::options;
use crate::options::OptionRule;
use crate::text;

verus! {

pub const USAGE: &'static str = "Usage: si-pack-model --model PATH --output PATH [--verify-manifest]";

pub open spec fn rules() -> Seq<OptionRule> {
    seq![
        options::text_option("--model"),
        options::text_option("--output"),
        options::switch_option("--verify-manifest"),
    ]
}

/// The model, the place for the packed model and whether the manifest is
/// verified; nothing where the arguments ask for help.
pub open spec fn parsed(arguments: Seq<Seq<char>>) -> Result<
    Option<(Seq<char>, Seq<char>, bool)>,
    Seq<char>,
> {
    if arguments.len() == 0 || options::asks_for_help(arguments) {
        Ok(None)
    } else {
        match options::values_result(rules(), options::paired_style(), arguments) {
            Err(message) => Err(message),
            Ok(values) => match options::text_given(values[0]) {
                None => Err("--model is required"@),
                Some(model) => match options::text_given(values[1]) {
                    None => Err("--output is required"@),
                    Some(output) => Ok(Some((model, output, values[2] is On))),
                },
            },
        }
    }
}

/// The outcome of reading the arguments with its texts as character sequences.
pub open spec fn parse_outcome(result: Result<Option<(String, String, bool)>, String>) -> Result<
    Option<(Seq<char>, Seq<char>, bool)>,
    Seq<char>,
> {
    match result {
        Ok(Some(packing)) => Ok(Some((packing.0@, packing.1@, packing.2))),
        Ok(None) => Ok(None),
        Err(message) => Err(message@),
    }
}

pub fn parse_args(arguments: Vec<String>) -> (result: Result<Option<(String, String, bool)>, String>)
    ensures
        parse_outcome(result) == parsed(text::texts(arguments@)),
{
    if arguments.len() == 0 || options::help_requested(&arguments) {
        return Ok(None);
    }
    let rules: Vec<OptionRule> = vec![
        options::text_option("--model"),
        options::text_option("--output"),
        options::switch_option("--verify-manifest"),
    ];
    proof {
        assert(rules@ =~= self::rules());
    }
    let values = match options::scan_values(&rules, &options::paired_style(), &arguments) {
        Ok(values) => values,
        Err(message) => {
            return Err(message);
        },
    };
    let model = match options::text_of(&values, 0) {
        Some(model) => model,
        None => {
            return Err("--model is required".to_owned());
        },
    };
    let output = match options::text_of(&values, 1) {
        Some(output) => output,
        None => {
            return Err("--output is required".to_owned());
        },
    };
    Ok(Some((model, output, options::is_on(&values, 2))))
}

/// Every option is found in its place, and none of them asks for help.
proof fn lemma_places()
    ensures
        options::found(rules(), "--model"@, 0) == 0,
        options::found(rules(), "--output"@, 0) == 1,
        options::found(rules(), "--verify-manifest"@, 0) == 2,
        "--model"@ != "--help"@ && "--model"@ != "-h"@,
        "--output"@ != "--help"@ && "--output"@ != "-h"@,
        "--verify-manifest"@ != "--help"@ && "--verify-manifest"@ != "-h"@,
{
    reveal_strlit("--model");
    reveal_strlit("--output");
    reveal_strlit("--verify-manifest");
    reveal_strlit("--help");
    reveal_strlit("-h");
    assert("--model"@.len() == 7);
    assert("--output"@.len() == 8);
    assert("--verify-manifest"@.len() == 17);
    assert("--help"@.len() == 6);
    assert("-h"@.len() == 2);
    let all = rules();
    assert("--output"@ != "--model"@);
    assert("--verify-manifest"@ != "--model"@);
    assert("--verify-manifest"@ != "--output"@);
    assert(all[0].name@ == "--model"@);
    assert(all[1].name@ == "--output"@);
    assert(all[2].name@ == "--verify-manifest"@);
    options::lemma_found_at(all, "--model"@, 0, 0);
    options::lemma_found_at(all, "--output"@, 0, 1);
    options::lemma_found_at(all, "--verify-manifest"@, 0, 2);
}

/// The last value that is given for an option counts, and changes nothing else.
/// The manifest is verified only where that is asked for, and both paths were given.
pub proof fn law_options_are_read(arguments: Seq<Seq<char>>, value: Seq<char>)
    requires
        parsed(arguments) matches Ok(Some(_)),
        value != "--help"@ && value != "-h"@,
    ensures
        ({
            let (model, output, verified) = parsed(arguments)->Ok_0->Some_0;
            &&& parsed(arguments + seq!["--model"@, value])->Ok_0 == Some((value, output, verified))
            &&& parsed(arguments + seq!["--output"@, value])->Ok_0 == Some((model, value, verified))
            &&& parsed(arguments + seq!["--verify-manifest"@])->Ok_0 == Some((model, output, true))
            &&& parsed(arguments + seq!["--model"@, value]) is Ok
            &&& parsed(arguments + seq!["--output"@, value]) is Ok
            &&& parsed(arguments + seq!["--verify-manifest"@]) is Ok
            &&& arguments.contains("--model"@)
            &&& arguments.contains("--output"@)
            &&& !arguments.contains("--verify-manifest"@) ==> !verified
        }),
{
    lemma_places();
    let all = rules();
    let style = options::paired_style();
    options::lemma_no_help(arguments, seq!["--model"@, value]);
    options::lemma_no_help(arguments, seq!["--output"@, value]);
    options::lemma_no_help(arguments, seq!["--verify-manifest"@]);
    options::law_option_is_recorded(all, style, arguments, 0, "--model"@, value);
    options::law_unnamed_option_is_absent(all, style, arguments, 0);
    options::law_option_is_recorded(all, style, arguments, 1, "--output"@, value);
    options::law_unnamed_option_is_absent(all, style, arguments, 1);
    options::law_switch_is_recorded(all, style, arguments, 2, "--verify-manifest"@);
    options::law_unnamed_option_is_absent(all, style, arguments, 2);
}

} // verus!
