//! Drafting by extrapolating the hidden state.
use vstd::prelude::*;

use crate::options;
use crate::options::OptionRule;
use crate::text;

verus! {

#[derive(Debug, Clone)]
pub struct Args {
    pub model: String,
    pub prompt: String,
    pub batch: usize,
}

/// The arguments with their texts as character sequences.
pub struct ArgsView {
    pub model: Seq<char>,
    pub prompt: Seq<char>,
    pub batch: nat,
}

impl View for Args {
    type V = ArgsView;

    open spec fn view(&self) -> ArgsView {
        ArgsView {
            model: self.model@,
            prompt: self.prompt@,
            batch: self.batch as nat,
        }
    }
}

pub open spec fn rules() -> Seq<OptionRule> {
    seq![
        options::text_option("--model"),
        options::text_option("--prompt"),
        options::size_option("--batch", "--batch is invalid"),
    ]
}

/// What the arguments mean, or the message that refuses them.
pub open spec fn parsed(arguments: Seq<Seq<char>>) -> Result<ArgsView, Seq<char>> {
    match options::values_result(rules(), options::paired_style(), arguments) {
        Err(message) => Err(message),
        Ok(values) => {
            let prompt = options::text_or(values[1], "Hello"@);
            let batch = options::number_or(values[2], 8);
            if !(2 <= batch <= 8) {
                Err("batch must be between 2 and 8"@)
            } else {
                match options::text_given(values[0]) {
                    None => Err("--model is required"@),
                    Some(model) => {
                        Ok(ArgsView { model, prompt, batch })
                    },
                }
            }
        },
    }
}

impl Args {
    pub fn parse(arguments: Vec<String>) -> (result: Result<Args, String>)
        ensures
            text::outcome_view(result) == parsed(text::texts(arguments@)),
    {
        let rules: Vec<OptionRule> = vec![
            options::text_option("--model"),
            options::text_option("--prompt"),
            options::size_option("--batch", "--batch is invalid"),
        ];
        proof {
            assert(rules@ =~= self::rules());
        }
        let values = match options::scan_values(&rules, &options::paired_style(), &arguments) {
            Ok(values) => values,
            Err(message) => {
                return Err(message);
            },
        };
        let prompt = options::text_of_or(&values, 1, "Hello");
        let batch: usize = options::size_or(&rules, &values, 2, 8);
        if batch < 2 || batch > 8 {
            return Err("batch must be between 2 and 8".to_owned());
        }
        let model = match options::text_of(&values, 0) {
            Some(model) => model,
            None => {
                return Err("--model is required".to_owned());
            },
        };
        Ok(Args { model, prompt, batch })
    }
}

/// Every option is found in its place.
proof fn lemma_places()
    ensures
        options::found(rules(), "--model"@, 0) == 0,
        options::found(rules(), "--prompt"@, 0) == 1,
        options::found(rules(), "--batch"@, 0) == 2,
{
    reveal_strlit("--model");
    reveal_strlit("--prompt");
    reveal_strlit("--batch");
    assert("--model"@.len() == 7);
    assert("--prompt"@.len() == 8);
    assert("--batch"@.len() == 7);
    assert("--batch"@[2] != "--model"@[2]);
    let all = rules();
    assert("--prompt"@ != "--model"@);
    assert("--batch"@ != "--model"@);
    assert("--batch"@ != "--prompt"@);
    assert(all[0].name@ == "--model"@);
    assert(all[1].name@ == "--prompt"@);
    assert(all[2].name@ == "--batch"@);
    options::lemma_found_at(all, "--model"@, 0, 0);
    options::lemma_found_at(all, "--prompt"@, 0, 1);
    options::lemma_found_at(all, "--batch"@, 0, 2);
}

/// The last value that is given for an option counts, and changes nothing else.
/// What is not given has its default, and what is required was given.
pub proof fn law_options_are_read(arguments: Seq<Seq<char>>, value: Seq<char>)
    requires
        parsed(arguments) matches Ok(_),
    ensures
        ({
            let args = parsed(arguments)->Ok_0;
            let size = text::unsigned(value, usize::MAX as nat);
            &&& parsed(arguments + seq!["--model"@, value]) == Ok::<ArgsView, Seq<char>>(
                ArgsView { model: value, ..args },
            )
            &&& arguments.contains("--model"@)
            &&& parsed(arguments + seq!["--prompt"@, value]) == Ok::<ArgsView, Seq<char>>(
                ArgsView { prompt: value, ..args },
            )
            &&& !arguments.contains("--prompt"@) ==> args.prompt == "Hello"@
            &&& size matches Some(n) ==> if 2 <= n <= 8 {
                parsed(arguments + seq!["--batch"@, value]) == Ok::<ArgsView, Seq<char>>(
                    ArgsView { batch: n, ..args },
                )
            } else {
                parsed(arguments + seq!["--batch"@, value]) is Err
            }
            &&& size is None ==> parsed(arguments + seq!["--batch"@, value]) is Err
            &&& !arguments.contains("--batch"@) ==> args.batch == 8
        }),
{
    lemma_places();
    let all = rules();
    let style = options::paired_style();
    options::law_option_is_recorded(all, style, arguments, 0, "--model"@, value);
    options::law_unnamed_option_is_absent(all, style, arguments, 0);
    options::law_option_is_recorded(all, style, arguments, 1, "--prompt"@, value);
    options::law_unnamed_option_is_absent(all, style, arguments, 1);
    options::law_option_is_recorded(all, style, arguments, 2, "--batch"@, value);
    options::lemma_number_under(all[2].rule->Number_0, value);
    options::law_unnamed_option_is_absent(all, style, arguments, 2);
}

} // verus!
