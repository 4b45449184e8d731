//! Drafting with the first layers, or a set of layers, of the target model.
use vstd::prelude::*;

use crate::options;
use crate::options::{OptionRule, Rule, Value};
use crate::text;

verus! {

#[derive(Debug, Clone)]
pub struct Args {
    pub model: String,
    pub batch: usize,
    pub draft_layers: usize,
    pub draft_set: Option<Vec<usize>>,
    pub prompt: String,
}

/// The arguments with their texts as character sequences.
pub struct ArgsView {
    pub model: Seq<char>,
    pub batch: nat,
    pub draft_layers: nat,
    pub draft_set: Option<Seq<nat>>,
    pub prompt: Seq<char>,
}

/// The layers of an optional layer set.
pub open spec fn layer_set(layers: Option<Vec<usize>>) -> Option<Seq<nat>> {
    match layers {
        Some(layers) => Some(layers@.map_values(|layer: usize| layer as nat)),
        None => None,
    }
}

/// The numbers that an option recorded.
pub open spec fn numbers_given(value: options::ValueView) -> Option<Seq<nat>> {
    match value {
        options::ValueView::Numbers(numbers) => Some(numbers),
        _ => None,
    }
}

impl View for Args {
    type V = ArgsView;

    open spec fn view(&self) -> ArgsView {
        ArgsView {
            model: self.model@,
            batch: self.batch as nat,
            draft_layers: self.draft_layers as nat,
            draft_set: layer_set(self.draft_set),
            prompt: self.prompt@,
        }
    }
}

pub open spec fn rules() -> Seq<OptionRule> {
    seq![
        options::text_option("--model"),
        options::size_option("--batch", "--batch is invalid"),
        options::size_option("--draft-layers", "--draft-layers is invalid"),
        OptionRule {
            name: "--draft-set",
            rule: Rule::Numbers(
                options::size_rule(0, "--draft-set is invalid", "--draft-set is invalid"),
            ),
            missing: "",
        },
        options::text_option("--prompt"),
    ]
}

/// What the arguments mean, or the message that refuses them.
pub open spec fn parsed(arguments: Seq<Seq<char>>) -> Result<ArgsView, Seq<char>> {
    match options::values_result(rules(), options::paired_style(), arguments) {
        Err(message) => Err(message),
        Ok(values) => {
            let batch = options::number_or(values[1], 4);
            let draft_layers = options::number_or(values[2], 4);
            let draft_set = numbers_given(values[3]);
            let prompt = options::text_or(values[4], "x"@);
            if !(2 <= batch <= 8) || draft_layers == 0 {
                Err("batch must be 2..8 and draft layers must be positive"@)
            } else {
                match options::text_given(values[0]) {
                    None => Err("--model is required"@),
                    Some(model) => {
                        Ok(ArgsView { model, batch, draft_layers, draft_set, prompt })
                    },
                }
            }
        },
    }
}

/// The layers of a recorded list.
fn recorded_layers(value: &Value) -> (layers: Option<Vec<usize>>)
    requires
        value@ matches options::ValueView::Numbers(numbers) ==> forall|i: int|
            0 <= i < numbers.len() ==> #[trigger] numbers[i] <= usize::MAX,
    ensures
        layer_set(layers) == numbers_given(value@),
{
    match value {
        Value::Numbers(numbers) => {
            let ghost expected = numbers@.map_values(|n: u64| n as nat);
            let mut layers: Vec<usize> = Vec::new();
            let mut index: usize = 0;
            while index < numbers.len()
                invariant
                    index <= numbers@.len(),
                    expected == numbers@.map_values(|n: u64| n as nat),
                    forall|i: int|
                        0 <= i < expected.len() ==> #[trigger] expected[i] <= usize::MAX,
                    layers@.len() == index,
                    forall|i: int| 0 <= i < index ==> #[trigger] layers@[i] == expected[i],
                decreases numbers@.len() - index,
            {
                proof {
                    assert(expected[index as int] <= usize::MAX);
                }
                layers.push(numbers[index] as usize);
                index += 1;
            }
            proof {
                assert(layers@.map_values(|layer: usize| layer as nat) =~= expected);
            }
            Some(layers)
        },
        _ => None,
    }
}

/// Writes the numbers of a set of layers with commas between them.
pub fn layer_list_text(layers: &Vec<usize>) -> (list: String)
    ensures
        list@ == text::number_list(layers@, ","@),
{
    text::number_list_text(layers, ",")
}

impl Args {
    pub fn parse(arguments: Vec<String>) -> (result: Result<Args, String>)
        ensures
            text::outcome_view(result) == parsed(text::texts(arguments@)),
    {
        let rules: Vec<OptionRule> = vec![
            options::text_option("--model"),
            options::size_option("--batch", "--batch is invalid"),
            options::size_option("--draft-layers", "--draft-layers is invalid"),
            OptionRule {
                name: "--draft-set",
                rule: Rule::Numbers(
                    options::size_rule(0, "--draft-set is invalid", "--draft-set is invalid"),
                ),
                missing: "",
            },
            options::text_option("--prompt"),
        ];
        proof {
            assert(rules@ =~= self::rules());
        }
        let values = match options::scan_values(&rules, &options::paired_style(), &arguments) {
            Ok(values) => values,
            Err(message) => {
                return Err(message);
            },
        };
        let batch: usize = options::size_or(&rules, &values, 1, 4);
        let draft_layers: usize = options::size_or(&rules, &values, 2, 4);
        proof {
            assert(options::fits(rules@[3].rule, options::value_views(values@)[3]));
        }
        let draft_set = recorded_layers(&values[3]);
        let prompt = options::text_of_or(&values, 4, "x");
        if batch < 2 || batch > 8 || draft_layers == 0 {
            return Err("batch must be 2..8 and draft layers must be positive".to_owned());
        }
        match options::text_of(&values, 0) {
            Some(model) => Ok(Args { model, batch, draft_layers, draft_set, prompt }),
            None => Err("--model is required".to_owned()),
        }
    }

    /// The number of layers that the draft retains by itself: none where a set is given.
    pub fn retained_layers(&self) -> (layers: usize)
        ensures
            layers == (if self.draft_set is Some {
                0
            } else {
                self.draft_layers as int
            }),
    {
        if self.draft_set.is_some() {
            0
        } else {
            self.draft_layers
        }
    }
}

/// Every option is found in its place.
proof fn lemma_places()
    ensures
        options::found(rules(), "--model"@, 0) == 0,
        options::found(rules(), "--batch"@, 0) == 1,
        options::found(rules(), "--draft-layers"@, 0) == 2,
        options::found(rules(), "--draft-set"@, 0) == 3,
        options::found(rules(), "--prompt"@, 0) == 4,
{
    reveal_strlit("--model");
    reveal_strlit("--batch");
    reveal_strlit("--draft-layers");
    reveal_strlit("--draft-set");
    reveal_strlit("--prompt");
    assert("--model"@.len() == 7);
    assert("--batch"@.len() == 7);
    assert("--draft-layers"@.len() == 14);
    assert("--draft-set"@.len() == 11);
    assert("--prompt"@.len() == 8);
    assert("--batch"@[2] != "--model"@[2]);
    let all = rules();
    assert("--batch"@ != "--model"@);
    assert("--draft-layers"@ != "--model"@);
    assert("--draft-layers"@ != "--batch"@);
    assert("--draft-set"@ != "--model"@);
    assert("--draft-set"@ != "--batch"@);
    assert("--draft-set"@ != "--draft-layers"@);
    assert("--prompt"@ != "--model"@);
    assert("--prompt"@ != "--batch"@);
    assert("--prompt"@ != "--draft-layers"@);
    assert("--prompt"@ != "--draft-set"@);
    assert(all[0].name@ == "--model"@);
    assert(all[1].name@ == "--batch"@);
    assert(all[2].name@ == "--draft-layers"@);
    assert(all[3].name@ == "--draft-set"@);
    assert(all[4].name@ == "--prompt"@);
    options::lemma_found_at(all, "--model"@, 0, 0);
    options::lemma_found_at(all, "--batch"@, 0, 1);
    options::lemma_found_at(all, "--draft-layers"@, 0, 2);
    options::lemma_found_at(all, "--draft-set"@, 0, 3);
    options::lemma_found_at(all, "--prompt"@, 0, 4);
}

/// Whether a text is numbers with commas between them.
pub open spec fn spells(value: Seq<char>, numbers: Seq<nat>) -> bool {
    let pieces = text::split(value, ',');
    &&& numbers.len() == pieces.len()
    &&& forall|i: int|
        0 <= i < pieces.len() ==> text::unsigned(#[trigger] pieces[i], usize::MAX as nat) == Some(
            numbers[i],
        )
}

/// The last value that is given for an option counts, and changes nothing else.
/// What is not given has its default, and what is required was given.
pub proof fn law_options_are_read(arguments: Seq<Seq<char>>, value: Seq<char>, numbers: Seq<nat>)
    requires
        parsed(arguments) matches Ok(_),
    ensures
        ({
            let args = parsed(arguments)->Ok_0;
            let size = text::unsigned(value, usize::MAX as nat);
            &&& parsed(arguments + seq!["--model"@, value]) == Ok::<ArgsView, Seq<char>>(
                ArgsView { model: value, ..args },
            )
            &&& arguments.contains("--model"@)
            &&& size matches Some(n) ==> if 2 <= n <= 8 {
                parsed(arguments + seq!["--batch"@, value]) == Ok::<ArgsView, Seq<char>>(
                    ArgsView { batch: n, ..args },
                )
            } else {
                parsed(arguments + seq!["--batch"@, value]) is Err
            }
            &&& size is None ==> parsed(arguments + seq!["--batch"@, value]) is Err
            &&& !arguments.contains("--batch"@) ==> args.batch == 4
            &&& size matches Some(n) ==> if n > 0 {
                parsed(arguments + seq!["--draft-layers"@, value]) == Ok::<ArgsView, Seq<char>>(
                    ArgsView { draft_layers: n, ..args },
                )
            } else {
                parsed(arguments + seq!["--draft-layers"@, value]) is Err
            }
            &&& size is None ==> parsed(arguments + seq!["--draft-layers"@, value]) is Err
            &&& !arguments.contains("--draft-layers"@) ==> args.draft_layers == 4
            &&& spells(value, numbers) ==> parsed(arguments + seq!["--draft-set"@, value]) == Ok::<ArgsView, Seq<char>>(
                ArgsView { draft_set: Some(numbers), ..args },
            )
            &&& !arguments.contains("--draft-set"@) ==> args.draft_set is None
            &&& parsed(arguments + seq!["--prompt"@, value]) == Ok::<ArgsView, Seq<char>>(
                ArgsView { prompt: value, ..args },
            )
            &&& !arguments.contains("--prompt"@) ==> args.prompt == "x"@
        }),
{
    lemma_places();
    let all = rules();
    let style = options::paired_style();
    options::law_option_is_recorded(all, style, arguments, 0, "--model"@, value);
    options::law_unnamed_option_is_absent(all, style, arguments, 0);
    options::law_option_is_recorded(all, style, arguments, 1, "--batch"@, value);
    options::lemma_number_under(all[1].rule->Number_0, value);
    options::law_unnamed_option_is_absent(all, style, arguments, 1);
    options::law_option_is_recorded(all, style, arguments, 2, "--draft-layers"@, value);
    options::lemma_number_under(all[2].rule->Number_0, value);
    options::law_unnamed_option_is_absent(all, style, arguments, 2);
    options::law_option_is_recorded(all, style, arguments, 3, "--draft-set"@, value);
    options::law_unnamed_option_is_absent(all, style, arguments, 3);
    options::law_option_is_recorded(all, style, arguments, 4, "--prompt"@, value);
    options::law_unnamed_option_is_absent(all, style, arguments, 4);
    if spells(value, numbers) {
        let pieces = text::split(value, ',');
        assert(pieces.map_values(
            |piece: Seq<char>| text::unsigned(piece, usize::MAX as nat)->Some_0,
        ) =~= numbers);
    }
}

} // verus!
