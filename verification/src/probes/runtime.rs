//! Decoding a few tokens with the whole model.
use vstd::prelude::*;

use crate::options;
use crate::options::OptionRule;
use crate::text;

verus! {

#[derive(Debug, Clone, PartialEq, Eq)]
pub struct Args {
    pub model: String,
    pub token: u32,
    pub tokens: usize,
    pub capacity: usize,
    pub output_head: bool,
}

/// The arguments with their texts as character sequences.
pub struct ArgsView {
    pub model: Seq<char>,
    pub token: nat,
    pub tokens: nat,
    pub capacity: nat,
    pub output_head: bool,
}

impl View for Args {
    type V = ArgsView;

    open spec fn view(&self) -> ArgsView {
        ArgsView {
            model: self.model@,
            token: self.token as nat,
            tokens: self.tokens as nat,
            capacity: self.capacity as nat,
            output_head: self.output_head,
        }
    }
}

pub open spec fn rules() -> Seq<OptionRule> {
    seq![
        options::text_option("--model"),
        options::word_option("--token", "--token must be a u32"),
        options::size_option("--tokens", "--tokens must be a positive integer"),
        options::size_option("--capacity", "--capacity must be a positive integer"),
        options::switch_option("--output-head"),
    ]
}

/// What the arguments mean, or the message that refuses them.
pub open spec fn parsed(arguments: Seq<Seq<char>>) -> Result<ArgsView, Seq<char>> {
    match options::values_result(rules(), options::paired_style(), arguments) {
        Err(message) => Err(message),
        Ok(values) => {
            let token = options::number_or(values[1], 0);
            let tokens = options::number_or(values[2], 1);
            let capacity = options::number_or(values[3], 8);
            let output_head = values[4] is On;
            if tokens == 0 || capacity == 0 {
                Err("--tokens and --capacity must be positive"@)
            } else {
                if tokens > capacity {
                    Err("--tokens cannot exceed --capacity"@)
                } else {
                    match options::text_given(values[0]) {
                        None => Err("--model is required"@),
                        Some(model) => {
                            Ok(ArgsView { model, token, tokens, capacity, output_head })
                        },
                    }
                }
            }
        },
    }
}

impl Args {
    pub fn parse(arguments: Vec<String>) -> (result: Result<Args, String>)
        ensures
            text::outcome_view(result) == parsed(text::texts(arguments@)),
    {
        let rules: Vec<OptionRule> = vec![
            options::text_option("--model"),
            options::word_option("--token", "--token must be a u32"),
            options::size_option("--tokens", "--tokens must be a positive integer"),
            options::size_option("--capacity", "--capacity must be a positive integer"),
            options::switch_option("--output-head"),
        ];
        proof {
            assert(rules@ =~= self::rules());
        }
        let values = match options::scan_values(&rules, &options::paired_style(), &arguments) {
            Ok(values) => values,
            Err(message) => {
                return Err(message);
            },
        };
        let token: u32 = options::word_or(&rules, &values, 1, 0);
        let tokens: usize = options::size_or(&rules, &values, 2, 1);
        let capacity: usize = options::size_or(&rules, &values, 3, 8);
        let output_head = options::is_on(&values, 4);
        if tokens == 0 || capacity == 0 {
            return Err("--tokens and --capacity must be positive".to_owned());
        }
        if tokens > capacity {
            return Err("--tokens cannot exceed --capacity".to_owned());
        }
        let model = match options::text_of(&values, 0) {
            Some(model) => model,
            None => {
                return Err("--model is required".to_owned());
            },
        };
        Ok(Args { model, token, tokens, capacity, output_head })
    }
}

/// Every option is found in its place.
proof fn lemma_places()
    ensures
        options::found(rules(), "--model"@, 0) == 0,
        options::found(rules(), "--token"@, 0) == 1,
        options::found(rules(), "--tokens"@, 0) == 2,
        options::found(rules(), "--capacity"@, 0) == 3,
        options::found(rules(), "--output-head"@, 0) == 4,
{
    reveal_strlit("--model");
    reveal_strlit("--token");
    reveal_strlit("--tokens");
    reveal_strlit("--capacity");
    reveal_strlit("--output-head");
    assert("--model"@.len() == 7);
    assert("--token"@.len() == 7);
    assert("--tokens"@.len() == 8);
    assert("--capacity"@.len() == 10);
    assert("--output-head"@.len() == 13);
    assert("--token"@[2] != "--model"@[2]);
    let all = rules();
    assert("--token"@ != "--model"@);
    assert("--tokens"@ != "--model"@);
    assert("--tokens"@ != "--token"@);
    assert("--capacity"@ != "--model"@);
    assert("--capacity"@ != "--token"@);
    assert("--capacity"@ != "--tokens"@);
    assert("--output-head"@ != "--model"@);
    assert("--output-head"@ != "--token"@);
    assert("--output-head"@ != "--tokens"@);
    assert("--output-head"@ != "--capacity"@);
    assert(all[0].name@ == "--model"@);
    assert(all[1].name@ == "--token"@);
    assert(all[2].name@ == "--tokens"@);
    assert(all[3].name@ == "--capacity"@);
    assert(all[4].name@ == "--output-head"@);
    options::lemma_found_at(all, "--model"@, 0, 0);
    options::lemma_found_at(all, "--token"@, 0, 1);
    options::lemma_found_at(all, "--tokens"@, 0, 2);
    options::lemma_found_at(all, "--capacity"@, 0, 3);
    options::lemma_found_at(all, "--output-head"@, 0, 4);
}

/// The last value that is given for an option counts, and changes nothing else.
/// What is not given has its default, and what is required was given.
pub proof fn law_options_are_read(arguments: Seq<Seq<char>>, value: Seq<char>)
    requires
        parsed(arguments) matches Ok(_),
    ensures
        ({
            let args = parsed(arguments)->Ok_0;
            let size = text::unsigned(value, usize::MAX as nat);
            let word = text::unsigned(value, u32::MAX as nat);
            &&& parsed(arguments + seq!["--model"@, value]) == Ok::<ArgsView, Seq<char>>(
                ArgsView { model: value, ..args },
            )
            &&& arguments.contains("--model"@)
            &&& word matches Some(n) ==> parsed(arguments + seq!["--token"@, value]) == Ok::<ArgsView, Seq<char>>(
                ArgsView { token: n, ..args },
            )
            &&& word is None ==> parsed(arguments + seq!["--token"@, value]) is Err
            &&& !arguments.contains("--token"@) ==> args.token == 0
            &&& size matches Some(n) ==> if 0 < n <= args.capacity {
                parsed(arguments + seq!["--tokens"@, value]) == Ok::<ArgsView, Seq<char>>(
                    ArgsView { tokens: n, ..args },
                )
            } else {
                parsed(arguments + seq!["--tokens"@, value]) is Err
            }
            &&& size is None ==> parsed(arguments + seq!["--tokens"@, value]) is Err
            &&& !arguments.contains("--tokens"@) ==> args.tokens == 1
            &&& size matches Some(n) ==> if args.tokens <= n {
                parsed(arguments + seq!["--capacity"@, value]) == Ok::<ArgsView, Seq<char>>(
                    ArgsView { capacity: n, ..args },
                )
            } else {
                parsed(arguments + seq!["--capacity"@, value]) is Err
            }
            &&& size is None ==> parsed(arguments + seq!["--capacity"@, value]) is Err
            &&& !arguments.contains("--capacity"@) ==> args.capacity == 8
            &&& parsed(arguments + seq!["--output-head"@]) == Ok::<ArgsView, Seq<char>>(
                ArgsView { output_head: true, ..args },
            )
            &&& !arguments.contains("--output-head"@) ==> !args.output_head
        }),
{
    lemma_places();
    let all = rules();
    let style = options::paired_style();
    options::law_option_is_recorded(all, style, arguments, 0, "--model"@, value);
    options::law_unnamed_option_is_absent(all, style, arguments, 0);
    options::law_option_is_recorded(all, style, arguments, 1, "--token"@, value);
    options::lemma_number_under(all[1].rule->Number_0, value);
    options::law_unnamed_option_is_absent(all, style, arguments, 1);
    options::law_option_is_recorded(all, style, arguments, 2, "--tokens"@, value);
    options::lemma_number_under(all[2].rule->Number_0, value);
    options::law_unnamed_option_is_absent(all, style, arguments, 2);
    options::law_option_is_recorded(all, style, arguments, 3, "--capacity"@, value);
    options::lemma_number_under(all[3].rule->Number_0, value);
    options::law_unnamed_option_is_absent(all, style, arguments, 3);
    options::law_switch_is_recorded(all, style, arguments, 4, "--output-head"@);
    options::law_unnamed_option_is_absent(all, style, arguments, 4);
}

} // verus!
