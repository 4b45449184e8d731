//! Decoding tokens through one layer with its state.
use vstd::prelude::*;

use crate::options;
use crate::options::OptionRule;
use crate::text;

verus! {

#[derive(Debug, Clone, PartialEq, Eq)]
pub struct Args {
    pub model: String,
    pub layer: usize,
    pub tokens: usize,
    pub capacity: usize,
}

/// The arguments with their texts as character sequences.
pub struct ArgsView {
    pub model: Seq<char>,
    pub layer: nat,
    pub tokens: nat,
    pub capacity: nat,
}

impl View for Args {
    type V = ArgsView;

    open spec fn view(&self) -> ArgsView {
        ArgsView {
            model: self.model@,
            layer: self.layer as nat,
            tokens: self.tokens as nat,
            capacity: self.capacity as nat,
        }
    }
}

pub open spec fn rules() -> Seq<OptionRule> {
    seq![
        options::text_option("--model"),
        options::size_option("--layer", "--layer must be a non-negative integer"),
        options::size_option("--tokens", "--tokens must be a non-negative integer"),
        options::size_option("--capacity", "--capacity must be a non-negative integer"),
    ]
}

/// What the arguments mean, or the message that refuses them.
pub open spec fn parsed(arguments: Seq<Seq<char>>) -> Result<ArgsView, Seq<char>> {
    match options::values_result(rules(), options::paired_style(), arguments) {
        Err(message) => Err(message),
        Ok(values) => {
            let layer = options::number_or(values[1], 0);
            let tokens = options::number_or(values[2], 4);
            let capacity = options::number_or(values[3], 8);
            if tokens == 0 {
                Err("--tokens must be positive"@)
            } else {
                if capacity == 0 {
                    Err("--capacity must be positive"@)
                } else {
                    match options::text_given(values[0]) {
                        None => Err("--model is required"@),
                        Some(model) => {
                            Ok(ArgsView { model, layer, tokens, capacity })
                        },
                    }
                }
            }
        },
    }
}

impl Args {
    pub fn parse(arguments: Vec<String>) -> (result: Result<Args, String>)
        ensures
            text::outcome_view(result) == parsed(text::texts(arguments@)),
    {
        let rules: Vec<OptionRule> = vec![
            options::text_option("--model"),
            options::size_option("--layer", "--layer must be a non-negative integer"),
            options::size_option("--tokens", "--tokens must be a non-negative integer"),
            options::size_option("--capacity", "--capacity must be a non-negative integer"),
        ];
        proof {
            assert(rules@ =~= self::rules());
        }
        let values = match options::scan_values(&rules, &options::paired_style(), &arguments) {
            Ok(values) => values,
            Err(message) => {
                return Err(message);
            },
        };
        let layer: usize = options::size_or(&rules, &values, 1, 0);
        let tokens: usize = options::size_or(&rules, &values, 2, 4);
        let capacity: usize = options::size_or(&rules, &values, 3, 8);
        if tokens == 0 {
            return Err("--tokens must be positive".to_owned());
        }
        if capacity == 0 {
            return Err("--capacity must be positive".to_owned());
        }
        let model = match options::text_of(&values, 0) {
            Some(model) => model,
            None => {
                return Err("--model is required".to_owned());
            },
        };
        Ok(Args { model, layer, tokens, capacity })
    }
}

/// Every option is found in its place.
proof fn lemma_places()
    ensures
        options::found(rules(), "--model"@, 0) == 0,
        options::found(rules(), "--layer"@, 0) == 1,
        options::found(rules(), "--tokens"@, 0) == 2,
        options::found(rules(), "--capacity"@, 0) == 3,
{
    reveal_strlit("--model");
    reveal_strlit("--layer");
    reveal_strlit("--tokens");
    reveal_strlit("--capacity");
    assert("--model"@.len() == 7);
    assert("--layer"@.len() == 7);
    assert("--tokens"@.len() == 8);
    assert("--capacity"@.len() == 10);
    assert("--layer"@[2] != "--model"@[2]);
    let all = rules();
    assert("--layer"@ != "--model"@);
    assert("--tokens"@ != "--model"@);
    assert("--tokens"@ != "--layer"@);
    assert("--capacity"@ != "--model"@);
    assert("--capacity"@ != "--layer"@);
    assert("--capacity"@ != "--tokens"@);
    assert(all[0].name@ == "--model"@);
    assert(all[1].name@ == "--layer"@);
    assert(all[2].name@ == "--tokens"@);
    assert(all[3].name@ == "--capacity"@);
    options::lemma_found_at(all, "--model"@, 0, 0);
    options::lemma_found_at(all, "--layer"@, 0, 1);
    options::lemma_found_at(all, "--tokens"@, 0, 2);
    options::lemma_found_at(all, "--capacity"@, 0, 3);
}

/// The last value that is given for an option counts, and changes nothing else.
/// What is not given has its default, and what is required was given.
pub proof fn law_options_are_read(arguments: Seq<Seq<char>>, value: Seq<char>)
    requires
        parsed(arguments) matches Ok(_),
    ensures
        ({
            let args = parsed(arguments)->Ok_0;
            let size = text::unsigned(value, usize::MAX as nat);
            &&& parsed(arguments + seq!["--model"@, value]) == Ok::<ArgsView, Seq<char>>(
                ArgsView { model: value, ..args },
            )
            &&& arguments.contains("--model"@)
            &&& size matches Some(n) ==> parsed(arguments + seq!["--layer"@, value]) == Ok::<ArgsView, Seq<char>>(
                ArgsView { layer: n, ..args },
            )
            &&& size is None ==> parsed(arguments + seq!["--layer"@, value]) is Err
            &&& !arguments.contains("--layer"@) ==> args.layer == 0
            &&& size matches Some(n) ==> if n > 0 {
                parsed(arguments + seq!["--tokens"@, value]) == Ok::<ArgsView, Seq<char>>(
                    ArgsView { tokens: n, ..args },
                )
            } else {
                parsed(arguments + seq!["--tokens"@, value]) is Err
            }
            &&& size is None ==> parsed(arguments + seq!["--tokens"@, value]) is Err
            &&& !arguments.contains("--tokens"@) ==> args.tokens == 4
            &&& size matches Some(n) ==> if n > 0 {
                parsed(arguments + seq!["--capacity"@, value]) == Ok::<ArgsView, Seq<char>>(
                    ArgsView { capacity: n, ..args },
                )
            } else {
                parsed(arguments + seq!["--capacity"@, value]) is Err
            }
            &&& size is None ==> parsed(arguments + seq!["--capacity"@, value]) is Err
            &&& !arguments.contains("--capacity"@) ==> args.capacity == 8
        }),
{
    lemma_places();
    let all = rules();
    let style = options::paired_style();
    options::law_option_is_recorded(all, style, arguments, 0, "--model"@, value);
    options::law_unnamed_option_is_absent(all, style, arguments, 0);
    options::law_option_is_recorded(all, style, arguments, 1, "--layer"@, value);
    options::lemma_number_under(all[1].rule->Number_0, value);
    options::law_unnamed_option_is_absent(all, style, arguments, 1);
    options::law_option_is_recorded(all, style, arguments, 2, "--tokens"@, value);
    options::lemma_number_under(all[2].rule->Number_0, value);
    options::law_unnamed_option_is_absent(all, style, arguments, 2);
    options::law_option_is_recorded(all, style, arguments, 3, "--capacity"@, value);
    options::lemma_number_under(all[3].rule->Number_0, value);
    options::law_unnamed_option_is_absent(all, style, arguments, 3);
}

} // verus!
