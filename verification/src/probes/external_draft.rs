//! Drafting with a separate model and verifying with the target.
use vstd::prelude::*;

use crate::options;
use crate::options::OptionRule;
use crate::text;

verus! {

#[derive(Debug, Clone)]
pub struct Args {
    pub target: String,
    pub draft: String,
    pub prompt: String,
    pub batch: usize,
    pub capacity: usize,
}

/// The arguments with their texts as character sequences.
pub struct ArgsView {
    pub target: Seq<char>,
    pub draft: Seq<char>,
    pub prompt: Seq<char>,
    pub batch: nat,
    pub capacity: nat,
}

impl View for Args {
    type V = ArgsView;

    open spec fn view(&self) -> ArgsView {
        ArgsView {
            target: self.target@,
            draft: self.draft@,
            prompt: self.prompt@,
            batch: self.batch as nat,
            capacity: self.capacity as nat,
        }
    }
}

pub open spec fn rules() -> Seq<OptionRule> {
    seq![
        options::text_option("--target"),
        options::text_option("--draft"),
        options::text_option("--prompt"),
        options::size_option("--batch", "--batch is invalid"),
        options::size_option("--capacity", "--capacity is invalid"),
    ]
}

/// What the arguments mean, or the message that refuses them.
pub open spec fn parsed(arguments: Seq<Seq<char>>) -> Result<ArgsView, Seq<char>> {
    match options::values_result(rules(), options::paired_style(), arguments) {
        Err(message) => Err(message),
        Ok(values) => {
            let prompt = options::text_or(values[2], "Hello"@);
            let batch = options::number_or(values[3], 4);
            let capacity = options::number_or(values[4], 32);
            if !(2 <= batch <= 8) || capacity == 0 {
                Err("batch must be 2..8 and capacity must be positive"@)
            } else {
                match options::text_given(values[0]) {
                    None => Err("--target is required"@),
                    Some(target) => {
                        match options::text_given(values[1]) {
                            None => Err("--draft is required"@),
                            Some(draft) => {
                                Ok(ArgsView { target, draft, prompt, batch, capacity })
                            },
                        }
                    },
                }
            }
        },
    }
}

impl Args {
    pub fn parse(arguments: Vec<String>) -> (result: Result<Args, String>)
        ensures
            text::outcome_view(result) == parsed(text::texts(arguments@)),
    {
        let rules: Vec<OptionRule> = vec![
            options::text_option("--target"),
            options::text_option("--draft"),
            options::text_option("--prompt"),
            options::size_option("--batch", "--batch is invalid"),
            options::size_option("--capacity", "--capacity is invalid"),
        ];
        proof {
            assert(rules@ =~= self::rules());
        }
        let values = match options::scan_values(&rules, &options::paired_style(), &arguments) {
            Ok(values) => values,
            Err(message) => {
                return Err(message);
            },
        };
        let prompt = options::text_of_or(&values, 2, "Hello");
        let batch: usize = options::size_or(&rules, &values, 3, 4);
        let capacity: usize = options::size_or(&rules, &values, 4, 32);
        if batch < 2 || batch > 8 || capacity == 0 {
            return Err("batch must be 2..8 and capacity must be positive".to_owned());
        }
        let target = match options::text_of(&values, 0) {
            Some(target) => target,
            None => {
                return Err("--target is required".to_owned());
            },
        };
        let draft = match options::text_of(&values, 1) {
            Some(draft) => draft,
            None => {
                return Err("--draft is required".to_owned());
            },
        };
        Ok(Args { target, draft, prompt, batch, capacity })
    }
}

/// Every option is found in its place.
proof fn lemma_places()
    ensures
        options::found(rules(), "--target"@, 0) == 0,
        options::found(rules(), "--draft"@, 0) == 1,
        options::found(rules(), "--prompt"@, 0) == 2,
        options::found(rules(), "--batch"@, 0) == 3,
        options::found(rules(), "--capacity"@, 0) == 4,
{
    reveal_strlit("--target");
    reveal_strlit("--draft");
    reveal_strlit("--prompt");
    reveal_strlit("--batch");
    reveal_strlit("--capacity");
    assert("--target"@.len() == 8);
    assert("--draft"@.len() == 7);
    assert("--prompt"@.len() == 8);
    assert("--batch"@.len() == 7);
    assert("--capacity"@.len() == 10);
    assert("--prompt"@[2] != "--target"@[2]);
    assert("--batch"@[2] != "--draft"@[2]);
    let all = rules();
    assert("--draft"@ != "--target"@);
    assert("--prompt"@ != "--target"@);
    assert("--prompt"@ != "--draft"@);
    assert("--batch"@ != "--target"@);
    assert("--batch"@ != "--draft"@);
    assert("--batch"@ != "--prompt"@);
    assert("--capacity"@ != "--target"@);
    assert("--capacity"@ != "--draft"@);
    assert("--capacity"@ != "--prompt"@);
    assert("--capacity"@ != "--batch"@);
    assert(all[0].name@ == "--target"@);
    assert(all[1].name@ == "--draft"@);
    assert(all[2].name@ == "--prompt"@);
    assert(all[3].name@ == "--batch"@);
    assert(all[4].name@ == "--capacity"@);
    options::lemma_found_at(all, "--target"@, 0, 0);
    options::lemma_found_at(all, "--draft"@, 0, 1);
    options::lemma_found_at(all, "--prompt"@, 0, 2);
    options::lemma_found_at(all, "--batch"@, 0, 3);
    options::lemma_found_at(all, "--capacity"@, 0, 4);
}

/// The last value that is given for an option counts, and changes nothing else.
/// What is not given has its default, and what is required was given.
pub proof fn law_options_are_read(arguments: Seq<Seq<char>>, value: Seq<char>)
    requires
        parsed(arguments) matches Ok(_),
    ensures
        ({
            let args = parsed(arguments)->Ok_0;
            let size = text::unsigned(value, usize::MAX as nat);
            &&& parsed(arguments + seq!["--target"@, value]) == Ok::<ArgsView, Seq<char>>(
                ArgsView { target: value, ..args },
            )
            &&& arguments.contains("--target"@)
            &&& parsed(arguments + seq!["--draft"@, value]) == Ok::<ArgsView, Seq<char>>(
                ArgsView { draft: value, ..args },
            )
            &&& arguments.contains("--draft"@)
            &&& parsed(arguments + seq!["--prompt"@, value]) == Ok::<ArgsView, Seq<char>>(
                ArgsView { prompt: value, ..args },
            )
            &&& !arguments.contains("--prompt"@) ==> args.prompt == "Hello"@
            &&& size matches Some(n) ==> if 2 <= n <= 8 {
                parsed(arguments + seq!["--batch"@, value]) == Ok::<ArgsView, Seq<char>>(
                    ArgsView { batch: n, ..args },
                )
            } else {
                parsed(arguments + seq!["--batch"@, value]) is Err
            }
            &&& size is None ==> parsed(arguments + seq!["--batch"@, value]) is Err
            &&& !arguments.contains("--batch"@) ==> args.batch == 4
            &&& size matches Some(n) ==> if n > 0 {
                parsed(arguments + seq!["--capacity"@, value]) == Ok::<ArgsView, Seq<char>>(
                    ArgsView { capacity: n, ..args },
                )
            } else {
                parsed(arguments + seq!["--capacity"@, value]) is Err
            }
            &&& size is None ==> parsed(arguments + seq!["--capacity"@, value]) is Err
            &&& !arguments.contains("--capacity"@) ==> args.capacity == 32
        }),
{
    lemma_places();
    let all = rules();
    let style = options::paired_style();
    options::law_option_is_recorded(all, style, arguments, 0, "--target"@, value);
    options::law_unnamed_option_is_absent(all, style, arguments, 0);
    options::law_option_is_recorded(all, style, arguments, 1, "--draft"@, value);
    options::law_unnamed_option_is_absent(all, style, arguments, 1);
    options::law_option_is_recorded(all, style, arguments, 2, "--prompt"@, value);
    options::law_unnamed_option_is_absent(all, style, arguments, 2);
    options::law_option_is_recorded(all, style, arguments, 3, "--batch"@, value);
    options::lemma_number_under(all[3].rule->Number_0, value);
    options::law_unnamed_option_is_absent(all, style, arguments, 3);
    options::law_option_is_recorded(all, style, arguments, 4, "--capacity"@, value);
    options::lemma_number_under(all[4].rule->Number_0, value);
    options::law_unnamed_option_is_absent(all, style, arguments, 4);
}

} // verus!
