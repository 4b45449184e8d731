//! Batched against separate matrix-vector products on one GGUF tensor.
use vstd::prelude::*;

use crate::options;
use crate::options::OptionRule;
use crate::text;

verus! {

#[derive(Debug, Clone)]
pub struct Args {
    pub model: String,
    pub tensor: String,
    pub batch: usize,
    pub repetitions: usize,
}

/// The arguments with their texts as character sequences.
pub struct ArgsView {
    pub model: Seq<char>,
    pub tensor: Seq<char>,
    pub batch: nat,
    pub repetitions: nat,
}

impl View for Args {
    type V = ArgsView;

    open spec fn view(&self) -> ArgsView {
        ArgsView {
            model: self.model@,
            tensor: self.tensor@,
            batch: self.batch as nat,
            repetitions: self.repetitions as nat,
        }
    }
}

pub open spec fn rules() -> Seq<OptionRule> {
    seq![
        options::text_option("--model"),
        options::text_option("--tensor"),
        options::size_option("--batch", "--batch is invalid"),
        options::size_option("--repetitions", "--repetitions is invalid"),
    ]
}

/// What the arguments mean, or the message that refuses them.
pub open spec fn parsed(arguments: Seq<Seq<char>>) -> Result<ArgsView, Seq<char>> {
    match options::values_result(rules(), options::paired_style(), arguments) {
        Err(message) => Err(message),
        Ok(values) => {
            let tensor = options::text_or(values[1], "blk.0.attn_qkv.weight"@);
            let batch = options::number_or(values[2], 4);
            let repetitions = options::number_or(values[3], 3);
            if !(1 <= batch <= 8) || repetitions == 0 {
                Err("batch must be 1..8 and repetitions must be positive"@)
            } else {
                match options::text_given(values[0]) {
                    None => Err("--model is required"@),
                    Some(model) => {
                        Ok(ArgsView { model, tensor, batch, repetitions })
                    },
                }
            }
        },
    }
}

impl Args {
    pub fn parse(arguments: Vec<String>) -> (result: Result<Args, String>)
        ensures
            text::outcome_view(result) == parsed(text::texts(arguments@)),
    {
        let rules: Vec<OptionRule> = vec![
            options::text_option("--model"),
            options::text_option("--tensor"),
            options::size_option("--batch", "--batch is invalid"),
            options::size_option("--repetitions", "--repetitions is invalid"),
        ];
        proof {
            assert(rules@ =~= self::rules());
        }
        let values = match options::scan_values(&rules, &options::paired_style(), &arguments) {
            Ok(values) => values,
            Err(message) => {
                return Err(message);
            },
        };
        let tensor = options::text_of_or(&values, 1, "blk.0.attn_qkv.weight");
        let batch: usize = options::size_or(&rules, &values, 2, 4);
        let repetitions: usize = options::size_or(&rules, &values, 3, 3);
        if batch < 1 || batch > 8 || repetitions == 0 {
            return Err("batch must be 1..8 and repetitions must be positive".to_owned());
        }
        let model = match options::text_of(&values, 0) {
            Some(model) => model,
            None => {
                return Err("--model is required".to_owned());
            },
        };
        Ok(Args { model, tensor, batch, repetitions })
    }
}

/// The number of input values of a batch, where the tensor is a matrix.
pub open spec fn batch_inputs(shape: Seq<usize>, batch: usize) -> Result<int, Seq<char>> {
    if shape.len() != 2 {
        Err("tensor must be rank-2"@)
    } else {
        Ok(batch * shape[0])
    }
}

/// The number of input values of a batch.
pub fn check_tensor(shape: &Vec<usize>, batch: usize) -> (result: Result<usize, String>)
    requires
        shape@.len() == 2 ==> batch * shape@[0] <= usize::MAX,
    ensures
        match batch_inputs(shape@, batch) {
            Ok(inputs) => result is Ok && result->Ok_0 == inputs,
            Err(message) => result is Err && result->Err_0@ == message,
        },
{
    if shape.len() != 2 {
        return Err("tensor must be rank-2".to_owned());
    }
    proof {
        assert(batch * shape@[0] >= 0) by (nonlinear_arith)
            requires
                batch >= 0,
                shape@[0] >= 0,
        ;
    }
    Ok(batch * shape[0])
}

/// Every option is found in its place.
proof fn lemma_places()
    ensures
        options::found(rules(), "--model"@, 0) == 0,
        options::found(rules(), "--tensor"@, 0) == 1,
        options::found(rules(), "--batch"@, 0) == 2,
        options::found(rules(), "--repetitions"@, 0) == 3,
{
    reveal_strlit("--model");
    reveal_strlit("--tensor");
    reveal_strlit("--batch");
    reveal_strlit("--repetitions");
    assert("--model"@.len() == 7);
    assert("--tensor"@.len() == 8);
    assert("--batch"@.len() == 7);
    assert("--repetitions"@.len() == 13);
    assert("--batch"@[2] != "--model"@[2]);
    let all = rules();
    assert("--tensor"@ != "--model"@);
    assert("--batch"@ != "--model"@);
    assert("--batch"@ != "--tensor"@);
    assert("--repetitions"@ != "--model"@);
    assert("--repetitions"@ != "--tensor"@);
    assert("--repetitions"@ != "--batch"@);
    assert(all[0].name@ == "--model"@);
    assert(all[1].name@ == "--tensor"@);
    assert(all[2].name@ == "--batch"@);
    assert(all[3].name@ == "--repetitions"@);
    options::lemma_found_at(all, "--model"@, 0, 0);
    options::lemma_found_at(all, "--tensor"@, 0, 1);
    options::lemma_found_at(all, "--batch"@, 0, 2);
    options::lemma_found_at(all, "--repetitions"@, 0, 3);
}

/// The last value that is given for an option counts, and changes nothing else.
/// What is not given has its default, and what is required was given.
pub proof fn law_options_are_read(arguments: Seq<Seq<char>>, value: Seq<char>)
    requires
        parsed(arguments) matches Ok(_),
    ensures
        ({
            let args = parsed(arguments)->Ok_0;
            let size = text::unsigned(value, usize::MAX as nat);
            &&& parsed(arguments + seq!["--model"@, value]) == Ok::<ArgsView, Seq<char>>(
                ArgsView { model: value, ..args },
            )
            &&& arguments.contains("--model"@)
            &&& parsed(arguments + seq!["--tensor"@, value]) == Ok::<ArgsView, Seq<char>>(
                ArgsView { tensor: value, ..args },
            )
            &&& !arguments.contains("--tensor"@) ==> args.tensor == "blk.0.attn_qkv.weight"@
            &&& size matches Some(n) ==> if 1 <= n <= 8 {
                parsed(arguments + seq!["--batch"@, value]) == Ok::<ArgsView, Seq<char>>(
                    ArgsView { batch: n, ..args },
                )
            } else {
                parsed(arguments + seq!["--batch"@, value]) is Err
            }
            &&& size is None ==> parsed(arguments + seq!["--batch"@, value]) is Err
            &&& !arguments.contains("--batch"@) ==> args.batch == 4
            &&& size matches Some(n) ==> if n > 0 {
                parsed(arguments + seq!["--repetitions"@, value]) == Ok::<ArgsView, Seq<char>>(
                    ArgsView { repetitions: n, ..args },
                )
            } else {
                parsed(arguments + seq!["--repetitions"@, value]) is Err
            }
            &&& size is None ==> parsed(arguments + seq!["--repetitions"@, value]) is Err
            &&& !arguments.contains("--repetitions"@) ==> args.repetitions == 3
        }),
{
    lemma_places();
    let all = rules();
    let style = options::paired_style();
    options::law_option_is_recorded(all, style, arguments, 0, "--model"@, value);
    options::law_unnamed_option_is_absent(all, style, arguments, 0);
    options::law_option_is_recorded(all, style, arguments, 1, "--tensor"@, value);
    options::law_unnamed_option_is_absent(all, style, arguments, 1);
    options::law_option_is_recorded(all, style, arguments, 2, "--batch"@, value);
    options::lemma_number_under(all[2].rule->Number_0, value);
    options::law_unnamed_option_is_absent(all, style, arguments, 2);
    options::law_option_is_recorded(all, style, arguments, 3, "--repetitions"@, value);
    options::lemma_number_under(all[3].rule->Number_0, value);
    options::law_unnamed_option_is_absent(all, style, arguments, 3);
}

} // verus!
