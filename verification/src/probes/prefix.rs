//! The first layers against the whole model.
use vstd::prelude::*;

use crate::options;
use crate::options::OptionRule;
use crate::text;

verus! {

#[derive(Debug, Clone, PartialEq, Eq)]
pub struct Args {
    pub model: String,
    pub token: u32,
    pub layers: usize,
    pub top_k: usize,
}

/// The arguments with their texts as character sequences.
pub struct ArgsView {
    pub model: Seq<char>,
    pub token: nat,
    pub layers: nat,
    pub top_k: nat,
}

impl View for Args {
    type V = ArgsView;

    open spec fn view(&self) -> ArgsView {
        ArgsView {
            model: self.model@,
            token: self.token as nat,
            layers: self.layers as nat,
            top_k: self.top_k as nat,
        }
    }
}

pub open spec fn rules() -> Seq<OptionRule> {
    seq![
        options::text_option("--model"),
        options::word_option("--token", "--token must be a non-negative integer"),
        options::size_option("--layers", "--layers must be a positive integer"),
        options::size_option("--top-k", "--top-k must be a positive integer"),
    ]
}

/// What the arguments mean, or the message that refuses them.
pub open spec fn parsed(arguments: Seq<Seq<char>>) -> Result<ArgsView, Seq<char>> {
    match options::values_result(rules(), options::paired_style(), arguments) {
        Err(message) => Err(message),
        Ok(values) => {
            let layers = options::number_or(values[2], 8);
            let top_k = options::number_or(values[3], 8);
            if layers == 0 || top_k == 0 {
                Err("--layers and --top-k must be positive"@)
            } else {
                match options::text_given(values[0]) {
                    None => Err("--model is required"@),
                    Some(model) => {
                        match options::number_given(values[1]) {
                            None => Err("--token is required"@),
                            Some(token) => {
                                Ok(ArgsView { model, token, layers, top_k })
                            },
                        }
                    },
                }
            }
        },
    }
}

impl Args {
    pub fn parse(arguments: Vec<String>) -> (result: Result<Args, String>)
        ensures
            text::outcome_view(result) == parsed(text::texts(arguments@)),
    {
        let rules: Vec<OptionRule> = vec![
            options::text_option("--model"),
            options::word_option("--token", "--token must be a non-negative integer"),
            options::size_option("--layers", "--layers must be a positive integer"),
            options::size_option("--top-k", "--top-k must be a positive integer"),
        ];
        proof {
            assert(rules@ =~= self::rules());
        }
        let values = match options::scan_values(&rules, &options::paired_style(), &arguments) {
            Ok(values) => values,
            Err(message) => {
                return Err(message);
            },
        };
        let layers: usize = options::size_or(&rules, &values, 2, 8);
        let top_k: usize = options::size_or(&rules, &values, 3, 8);
        if layers == 0 || top_k == 0 {
            return Err("--layers and --top-k must be positive".to_owned());
        }
        let model = match options::text_of(&values, 0) {
            Some(model) => model,
            None => {
                return Err("--model is required".to_owned());
            },
        };
        let token = match options::word_of_option(&rules, &values, 1) {
            Some(token) => token,
            None => {
                return Err("--token is required".to_owned());
            },
        };
        Ok(Args { model, token, layers, top_k })
    }
}

/// Every option is found in its place.
proof fn lemma_places()
    ensures
        options::found(rules(), "--model"@, 0) == 0,
        options::found(rules(), "--token"@, 0) == 1,
        options::found(rules(), "--layers"@, 0) == 2,
        options::found(rules(), "--top-k"@, 0) == 3,
{
    reveal_strlit("--model");
    reveal_strlit("--token");
    reveal_strlit("--layers");
    reveal_strlit("--top-k");
    assert("--model"@.len() == 7);
    assert("--token"@.len() == 7);
    assert("--layers"@.len() == 8);
    assert("--top-k"@.len() == 7);
    assert("--token"@[2] != "--model"@[2]);
    assert("--top-k"@[2] != "--model"@[2]);
    assert("--top-k"@[4] != "--token"@[4]);
    let all = rules();
    assert("--token"@ != "--model"@);
    assert("--layers"@ != "--model"@);
    assert("--layers"@ != "--token"@);
    assert("--top-k"@ != "--model"@);
    assert("--top-k"@ != "--token"@);
    assert("--top-k"@ != "--layers"@);
    assert(all[0].name@ == "--model"@);
    assert(all[1].name@ == "--token"@);
    assert(all[2].name@ == "--layers"@);
    assert(all[3].name@ == "--top-k"@);
    options::lemma_found_at(all, "--model"@, 0, 0);
    options::lemma_found_at(all, "--token"@, 0, 1);
    options::lemma_found_at(all, "--layers"@, 0, 2);
    options::lemma_found_at(all, "--top-k"@, 0, 3);
}

/// The last value that is given for an option counts, and changes nothing else.
/// What is not given has its default, and what is required was given.
pub proof fn law_options_are_read(arguments: Seq<Seq<char>>, value: Seq<char>)
    requires
        parsed(arguments) matches Ok(_),
    ensures
        ({
            let args = parsed(arguments)->Ok_0;
            let size = text::unsigned(value, usize::MAX as nat);
            let word = text::unsigned(value, u32::MAX as nat);
            &&& parsed(arguments + seq!["--model"@, value]) == Ok::<ArgsView, Seq<char>>(
                ArgsView { model: value, ..args },
            )
            &&& arguments.contains("--model"@)
            &&& word matches Some(n) ==> parsed(arguments + seq!["--token"@, value]) == Ok::<ArgsView, Seq<char>>(
                ArgsView { token: n, ..args },
            )
            &&& word is None ==> parsed(arguments + seq!["--token"@, value]) is Err
            &&& arguments.contains("--token"@)
            &&& size matches Some(n) ==> if n > 0 {
                parsed(arguments + seq!["--layers"@, value]) == Ok::<ArgsView, Seq<char>>(
                    ArgsView { layers: n, ..args },
                )
            } else {
                parsed(arguments + seq!["--layers"@, value]) is Err
            }
            &&& size is None ==> parsed(arguments + seq!["--layers"@, value]) is Err
            &&& !arguments.contains("--layers"@) ==> args.layers == 8
            &&& size matches Some(n) ==> if n > 0 {
                parsed(arguments + seq!["--top-k"@, value]) == Ok::<ArgsView, Seq<char>>(
                    ArgsView { top_k: n, ..args },
                )
            } else {
                parsed(arguments + seq!["--top-k"@, value]) is Err
            }
            &&& size is None ==> parsed(arguments + seq!["--top-k"@, value]) is Err
            &&& !arguments.contains("--top-k"@) ==> args.top_k == 8
        }),
{
    lemma_places();
    let all = rules();
    let style = options::paired_style();
    options::law_option_is_recorded(all, style, arguments, 0, "--model"@, value);
    options::law_unnamed_option_is_absent(all, style, arguments, 0);
    options::law_option_is_recorded(all, style, arguments, 1, "--token"@, value);
    options::lemma_number_under(all[1].rule->Number_0, value);
    options::law_unnamed_option_is_absent(all, style, arguments, 1);
    options::law_option_is_recorded(all, style, arguments, 2, "--layers"@, value);
    options::lemma_number_under(all[2].rule->Number_0, value);
    options::law_unnamed_option_is_absent(all, style, arguments, 2);
    options::law_option_is_recorded(all, style, arguments, 3, "--top-k"@, value);
    options::lemma_number_under(all[3].rule->Number_0, value);
    options::law_unnamed_option_is_absent(all, style, arguments, 3);
}

} // verus!
