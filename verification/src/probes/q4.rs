//! Repeated quantized matrix-vector products on one tensor.
use vstd::prelude::*;

use crate::metal::kernel::Switches;
use crate::options;
use crate::options::OptionRule;
use crate::quant;
use crate::tensor::GgufTensorInfo;
use crate::text;

verus! {

#[derive(Debug, Clone, PartialEq, Eq)]
pub struct Args {
    pub model: String,
    pub tensor: Option<String>,
    pub repetitions: usize,
}

/// The arguments with their texts as character sequences.
pub struct ArgsView {
    pub model: Seq<char>,
    pub tensor: Option<Seq<char>>,
    pub repetitions: nat,
}

impl View for Args {
    type V = ArgsView;

    open spec fn view(&self) -> ArgsView {
        ArgsView {
            model: self.model@,
            tensor: text::optional_text(self.tensor),
            repetitions: self.repetitions as nat,
        }
    }
}

pub open spec fn rules() -> Seq<OptionRule> {
    seq![
        options::text_option("--model"),
        options::text_option("--tensor"),
        options::positive_size_option("--repetitions", "--repetitions must be a positive integer"),
    ]
}

/// What the arguments mean, or the message that refuses them.
pub open spec fn parsed(arguments: Seq<Seq<char>>) -> Result<ArgsView, Seq<char>> {
    match options::values_result(rules(), options::paired_style(), arguments) {
        Err(message) => Err(message),
        Ok(values) => {
            let tensor = options::text_given(values[1]);
            let repetitions = options::number_or(values[2], 3);
            match options::text_given(values[0]) {
                None => Err("--model is required"@),
                Some(model) => {
                    Ok(ArgsView { model, tensor, repetitions })
                },
            }
        },
    }
}

impl Args {
    pub fn parse(arguments: Vec<String>) -> (result: Result<Args, String>)
        ensures
            text::outcome_view(result) == parsed(text::texts(arguments@)),
    {
        let rules: Vec<OptionRule> = vec![
            options::text_option("--model"),
            options::text_option("--tensor"),
            options::positive_size_option("--repetitions", "--repetitions must be a positive integer"),
        ];
        proof {
            assert(rules@ =~= self::rules());
        }
        let values = match options::scan_values(&rules, &options::paired_style(), &arguments) {
            Ok(values) => values,
            Err(message) => {
                return Err(message);
            },
        };
        let tensor = options::text_of(&values, 1);
        let repetitions: usize = options::size_or(&rules, &values, 2, 3);
        let model = match options::text_of(&values, 0) {
            Some(model) => model,
            None => {
                return Err("--model is required".to_owned());
            },
        };
        Ok(Args { model, tensor, repetitions })
    }
}

/// The name of the first tensor that is a Q4_K matrix.
pub open spec fn first_q4_k_matrix(tensors: Seq<GgufTensorInfo>) -> Option<Seq<char>>
    decreases tensors.len(),
{
    if tensors.len() == 0 {
        None
    } else if tensors[0].ggml_type == quant::GGML_TYPE_Q4_K && tensors[0].shape@.len() == 2 {
        Some(tensors[0].name@)
    } else {
        first_q4_k_matrix(tensors.skip(1))
    }
}

/// The tensor to multiply: the named one, or the first Q4_K matrix.
pub open spec fn chosen_tensor(named: Option<Seq<char>>, tensors: Seq<GgufTensorInfo>) -> Result<
    Seq<char>,
    Seq<char>,
> {
    let name = match named {
        Some(name) => name,
        None => match first_q4_k_matrix(tensors) {
            Some(name) => name,
            None => Seq::empty(),
        },
    };
    if name.len() == 0 {
        Err("GGUF model has no rank-2 Q4_K tensor"@)
    } else {
        Ok(name)
    }
}

fn find_q4_k_matrix(tensors: &Vec<GgufTensorInfo>) -> (name: Option<String>)
    ensures
        text::optional_text(name) == first_q4_k_matrix(tensors@),
{
    let mut index: usize = 0;
    proof {
        assert(tensors@.skip(0) =~= tensors@);
    }
    while index < tensors.len()
        invariant
            index <= tensors@.len(),
            first_q4_k_matrix(tensors@.skip(index as int)) == first_q4_k_matrix(tensors@),
        decreases tensors@.len() - index,
    {
        proof {
            assert(tensors@.skip(index as int)[0] == tensors@[index as int]);
            assert(tensors@.skip(index as int).skip(1) =~= tensors@.skip(index + 1));
        }
        if tensors[index].ggml_type == quant::GGML_TYPE_Q4_K && tensors[index].shape.len() == 2 {
            return Some(tensors[index].name.clone());
        }
        index += 1;
    }
    None
}

/// The tensor to multiply, given the tensors of the model in the order of
/// their names.
pub fn choose_tensor(named: Option<String>, tensors: &Vec<GgufTensorInfo>) -> (result: Result<
    String,
    String,
>)
    ensures
        text::outcome_view(result) == chosen_tensor(text::optional_text(named), tensors@),
{
    let name = match named {
        Some(name) => name,
        None => match find_q4_k_matrix(tensors) {
            Some(name) => name,
            None => String::new(),
        },
    };
    if name.as_str().is_empty() {
        Err("GGUF model has no rank-2 Q4_K tensor".to_owned())
    } else {
        Ok(name)
    }
}

/// Only quantized matrices are multiplied.
pub fn check_tensor(name: &str, info: &GgufTensorInfo) -> (result: Result<(), String>)
    ensures
        text::outcome(result) == if quant::quant_of(info.ggml_type) is Some && info.shape@.len()
            == 2 {
            Ok(())
        } else {
            Err("tensor "@ + name@ + " is not a supported rank-2 K-quant matrix"@)
        },
{
    if quant::quant_type(info.ggml_type).is_some() && info.shape.len() == 2 {
        Ok(())
    } else {
        Err(text::concat3("tensor ", name, " is not a supported rank-2 K-quant matrix"))
    }
}

/// Where the weights that are multiplied come from.
#[derive(Debug, Clone, Copy, PartialEq, Eq, Structural)]
pub enum WeightSource {
    Dequantized,
    Private,
    Mapped,
}

/// Dequantized weights are preferred to private ones, and these to mapped ones.
pub fn weight_source(dequantized: bool, private: bool) -> (source: WeightSource)
    ensures
        source == if dequantized {
            WeightSource::Dequantized
        } else if private {
            WeightSource::Private
        } else {
            WeightSource::Mapped
        },
{
    if dequantized {
        WeightSource::Dequantized
    } else if private {
        WeightSource::Private
    } else {
        WeightSource::Mapped
    }
}

/// The switches of the product that others are compared with: wide groups of
/// threads are on.
pub fn compared_switches(switches: &Switches) -> (compared: Switches)
    ensures
        compared == (Switches { rows4x128: true, ..*switches }),
{
    Switches { rows4x128: true, ..*switches }
}

/// The switches of the measured products: a comparison before them leaves wide
/// groups of threads off.
pub fn measured_switches(switches: &Switches, compared: bool) -> (measured: Switches)
    ensures
        measured == (if compared {
            Switches { rows4x128: false, ..*switches }
        } else {
            *switches
        }),
{
    if compared { Switches { rows4x128: false, ..*switches } } else { *switches }
}

/// Every option is found in its place.
proof fn lemma_places()
    ensures
        options::found(rules(), "--model"@, 0) == 0,
        options::found(rules(), "--tensor"@, 0) == 1,
        options::found(rules(), "--repetitions"@, 0) == 2,
{
    reveal_strlit("--model");
    reveal_strlit("--tensor");
    reveal_strlit("--repetitions");
    assert("--model"@.len() == 7);
    assert("--tensor"@.len() == 8);
    assert("--repetitions"@.len() == 13);
    let all = rules();
    assert("--tensor"@ != "--model"@);
    assert("--repetitions"@ != "--model"@);
    assert("--repetitions"@ != "--tensor"@);
    assert(all[0].name@ == "--model"@);
    assert(all[1].name@ == "--tensor"@);
    assert(all[2].name@ == "--repetitions"@);
    options::lemma_found_at(all, "--model"@, 0, 0);
    options::lemma_found_at(all, "--tensor"@, 0, 1);
    options::lemma_found_at(all, "--repetitions"@, 0, 2);
}

/// The last value that is given for an option counts, and changes nothing else.
/// What is not given has its default, and what is required was given.
pub proof fn law_options_are_read(arguments: Seq<Seq<char>>, value: Seq<char>)
    requires
        parsed(arguments) matches Ok(_),
    ensures
        ({
            let args = parsed(arguments)->Ok_0;
            let size = text::unsigned(value, usize::MAX as nat);
            &&& parsed(arguments + seq!["--model"@, value]) == Ok::<ArgsView, Seq<char>>(
                ArgsView { model: value, ..args },
            )
            &&& arguments.contains("--model"@)
            &&& parsed(arguments + seq!["--tensor"@, value]) == Ok::<ArgsView, Seq<char>>(
                ArgsView { tensor: Some(value), ..args },
            )
            &&& !arguments.contains("--tensor"@) ==> args.tensor is None
            &&& size matches Some(n) ==> if n > 0 {
                parsed(arguments + seq!["--repetitions"@, value]) == Ok::<ArgsView, Seq<char>>(
                    ArgsView { repetitions: n, ..args },
                )
            } else {
                parsed(arguments + seq!["--repetitions"@, value]) is Err
            }
            &&& size is None ==> parsed(arguments + seq!["--repetitions"@, value]) is Err
            &&& !arguments.contains("--repetitions"@) ==> args.repetitions == 3
        }),
{
    lemma_places();
    let all = rules();
    let style = options::paired_style();
    options::law_option_is_recorded(all, style, arguments, 0, "--model"@, value);
    options::law_unnamed_option_is_absent(all, style, arguments, 0);
    options::law_option_is_recorded(all, style, arguments, 1, "--tensor"@, value);
    options::law_unnamed_option_is_absent(all, style, arguments, 1);
    options::law_option_is_recorded(all, style, arguments, 2, "--repetitions"@, value);
    options::lemma_number_under(all[2].rule->Number_0, value);
    options::law_unnamed_option_is_absent(all, style, arguments, 2);
}

/// The tensor that is chosen without a name is the first that is a Q4_K
/// matrix: none before it is one.
pub proof fn law_first_matrix_is_chosen(tensors: Seq<GgufTensorInfo>, index: int)
    requires
        0 <= index < tensors.len(),
        tensors[index].ggml_type == quant::GGML_TYPE_Q4_K,
        tensors[index].shape@.len() == 2,
        forall|i: int|
            0 <= i < index ==> !((#[trigger] tensors[i]).ggml_type == quant::GGML_TYPE_Q4_K
                && tensors[i].shape@.len() == 2),
    ensures
        first_q4_k_matrix(tensors) == Some(tensors[index].name@),
    decreases index,
{
    if index > 0 {
        assert(!(tensors[0].ggml_type == quant::GGML_TYPE_Q4_K && tensors[0].shape@.len() == 2));
        let rest = tensors.skip(1);
        assert forall|i: int| 0 <= i < index - 1 implies !((#[trigger] rest[i]).ggml_type
            == quant::GGML_TYPE_Q4_K && rest[i].shape@.len() == 2) by {
            assert(rest[i] == tensors[i + 1]);
        }
        law_first_matrix_is_chosen(rest, index - 1);
    }
}

/// Without a Q4_K matrix and without a name, none is chosen.
pub proof fn law_no_matrix_is_chosen(tensors: Seq<GgufTensorInfo>)
    requires
        forall|i: int|
            0 <= i < tensors.len() ==> !((#[trigger] tensors[i]).ggml_type == quant::GGML_TYPE_Q4_K
                && tensors[i].shape@.len() == 2),
    ensures
        chosen_tensor(None, tensors) is Err,
    decreases tensors.len(),
{
    if tensors.len() > 0 {
        assert(!(tensors[0].ggml_type == quant::GGML_TYPE_Q4_K && tensors[0].shape@.len() == 2));
        let rest = tensors.skip(1);
        assert forall|i: int| 0 <= i < rest.len() implies !((#[trigger] rest[i]).ggml_type
            == quant::GGML_TYPE_Q4_K && rest[i].shape@.len() == 2) by {
            assert(rest[i] == tensors[i + 1]);
        }
        law_no_matrix_is_chosen(rest);
    }
}

} // verus!
