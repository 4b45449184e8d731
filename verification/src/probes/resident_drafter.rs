//! Exact target labels paired with retained-prefix hidden states.
use vstd::prelude::*;

use crate::options;
use crate::options::{OptionRule, Rule};
use crate::logits;
use crate::text;

verus! {

pub const USAGE: &'static str = "Usage: si-resident-drafter-probe --model PATH [--prompt TEXT | --prompt-file PATH] [--trace PATH] [--layers N] [--tokens N] [--context N] [--verify-manifest]";

#[derive(Debug, Clone)]
pub struct Args {
    pub model: String,
    pub prompt: Option<String>,
    pub prompt_file: Option<String>,
    pub trace: Option<String>,
    pub layers: usize,
    pub tokens: usize,
    pub context: usize,
    pub verify_manifest: bool,
}

/// The arguments with their texts as character sequences.
pub struct ArgsView {
    pub model: Seq<char>,
    pub prompt: Option<Seq<char>>,
    pub prompt_file: Option<Seq<char>>,
    pub trace: Option<Seq<char>>,
    pub layers: nat,
    pub tokens: nat,
    pub context: nat,
    pub verify_manifest: bool,
}

impl View for Args {
    type V = ArgsView;

    open spec fn view(&self) -> ArgsView {
        ArgsView {
            model: self.model@,
            prompt: text::optional_text(self.prompt),
            prompt_file: text::optional_text(self.prompt_file),
            trace: text::optional_text(self.trace),
            layers: self.layers as nat,
            tokens: self.tokens as nat,
            context: self.context as nat,
            verify_manifest: self.verify_manifest,
        }
    }
}

pub open spec fn rules() -> Seq<OptionRule> {
    seq![
        options::with_missing(options::text_option("--model"), "--model requires a value"),
        options::with_missing(options::text_option("--prompt"), "--prompt requires a value"),
        options::with_missing(options::text_option("--prompt-file"), "--prompt-file requires a value"),
        options::with_missing(options::text_option("--trace"), "--trace requires a value"),
        options::with_missing(
            options::positive_size_option("--layers", "--layers requires a positive integer"),
            "--layers requires a value",
        ),
        options::with_missing(
            options::positive_size_option("--tokens", "--tokens requires a positive integer"),
            "--tokens requires a value",
        ),
        options::with_missing(
            options::positive_size_option("--context", "--context requires a positive integer"),
            "--context requires a value",
        ),
        options::switch_option("--verify-manifest"),
        OptionRule { name: "-h", rule: Rule::Refuse(USAGE), missing: "" },
        OptionRule { name: "--help", rule: Rule::Refuse(USAGE), missing: "" },
    ]
}

/// What the arguments mean, or the message that refuses them.
pub open spec fn parsed(arguments: Seq<Seq<char>>) -> Result<ArgsView, Seq<char>> {
    match options::values_result(rules(), options::named_style("unknown option: "), arguments) {
        Err(message) => Err(message),
        Ok(values) => {
            let prompt = options::text_given(values[1]);
            let prompt_file = options::text_given(values[2]);
            let trace = options::text_given(values[3]);
            let layers = options::number_or(values[4], 8);
            let tokens = options::number_or(values[5], 32);
            let context = options::number_or(values[6], 2048);
            let verify_manifest = values[7] is On;
            match options::text_given(values[0]) {
                None => Err("--model is required"@),
                Some(model) => {
                    Ok(ArgsView { model, prompt, prompt_file, trace, layers, tokens, context, verify_manifest })
                },
            }
        },
    }
}

impl Args {
    pub fn usage() -> (usage: &'static str)
        ensures
            usage@ == USAGE@,
    {
        USAGE
    }

    pub fn parse(arguments: Vec<String>) -> (result: Result<Args, String>)
        ensures
            text::outcome_view(result) == parsed(text::texts(arguments@)),
    {
        let rules: Vec<OptionRule> = vec![
            options::with_missing(options::text_option("--model"), "--model requires a value"),
            options::with_missing(options::text_option("--prompt"), "--prompt requires a value"),
            options::with_missing(options::text_option("--prompt-file"), "--prompt-file requires a value"),
            options::with_missing(options::text_option("--trace"), "--trace requires a value"),
            options::with_missing(
            options::positive_size_option("--layers", "--layers requires a positive integer"),
            "--layers requires a value",
        ),
            options::with_missing(
            options::positive_size_option("--tokens", "--tokens requires a positive integer"),
            "--tokens requires a value",
        ),
            options::with_missing(
            options::positive_size_option("--context", "--context requires a positive integer"),
            "--context requires a value",
        ),
            options::switch_option("--verify-manifest"),
            OptionRule { name: "-h", rule: Rule::Refuse(USAGE), missing: "" },
            OptionRule { name: "--help", rule: Rule::Refuse(USAGE), missing: "" },
        ];
        proof {
            assert(rules@ =~= self::rules());
        }
        let values = match options::scan_values(&rules, &options::named_style("unknown option: "), &arguments) {
            Ok(values) => values,
            Err(message) => {
                return Err(message);
            },
        };
        let prompt = options::text_of(&values, 1);
        let prompt_file = options::text_of(&values, 2);
        let trace = options::text_of(&values, 3);
        let layers: usize = options::size_or(&rules, &values, 4, 8);
        let tokens: usize = options::size_or(&rules, &values, 5, 32);
        let context: usize = options::size_or(&rules, &values, 6, 2048);
        let verify_manifest = options::is_on(&values, 7);
        let model = match options::text_of(&values, 0) {
            Some(model) => model,
            None => {
                return Err("--model is required".to_owned());
            },
        };
        Ok(Args { model, prompt, prompt_file, trace, layers, tokens, context, verify_manifest })
    }
}

pub const DEFAULT_PROMPT: &'static str = "Explain why memory paging is useful for local model inference.";

/// The lines that hold more than white space.
pub open spec fn filled_lines(lines: Seq<Seq<char>>) -> Seq<Seq<char>>
    decreases lines.len(),
{
    if lines.len() == 0 {
        Seq::empty()
    } else {
        let before = filled_lines(lines.drop_last());
        if text::is_blank(lines.last()) {
            before
        } else {
            before.push(lines.last())
        }
    }
}

/// The prompts to run: the filled lines of the prompt file where one is
/// named, else the prompt or the default one. `contents` is what came of
/// reading the file.
pub open spec fn prompts_of(args: ArgsView, contents: Result<Seq<char>, Seq<char>>) -> Result<
    Seq<Seq<char>>,
    Seq<char>,
> {
    if args.prompt is Some && args.prompt_file is Some {
        Err("--prompt and --prompt-file are mutually exclusive"@)
    } else {
        match args.prompt_file {
            Some(path) => match contents {
                Err(error) => Err("read prompt file "@ + path + ": "@ + error),
                Ok(contents) => {
                    let prompts = filled_lines(text::lines(contents));
                    if prompts.len() == 0 {
                        Err("prompt file "@ + path + " contains no non-empty lines"@)
                    } else {
                        Ok(prompts)
                    }
                },
            },
            None => match args.prompt {
                Some(prompt) => Ok(seq![prompt]),
                None => Ok(seq![DEFAULT_PROMPT@]),
            },
        }
    }
}

/// Texts, or the message for having none, as character sequences.
pub open spec fn texts_outcome(result: Result<Vec<String>, String>) -> Result<
    Seq<Seq<char>>,
    Seq<char>,
> {
    match result {
        Ok(texts) => Ok(text::texts(texts@)),
        Err(message) => Err(message@),
    }
}

fn keep_filled_lines(lines: &Vec<String>) -> (filled: Vec<String>)
    ensures
        text::texts(filled@) == filled_lines(text::texts(lines@)),
{
    let ghost all = text::texts(lines@);
    let mut filled: Vec<String> = Vec::new();
    let mut index: usize = 0;
    proof {
        assert(all.take(0) =~= Seq::empty());
        assert(text::texts(filled@) =~= Seq::empty());
    }
    while index < lines.len()
        invariant
            index <= lines@.len(),
            all == text::texts(lines@),
            text::texts(filled@) == filled_lines(all.take(index as int)),
        decreases lines@.len() - index,
    {
        proof {
            assert(all.take(index + 1).drop_last() =~= all.take(index as int));
            assert(all.take(index + 1).last() == lines@[index as int]@);
        }
        if !text::blank_line(lines[index].as_str()) {
            let ghost before = filled@;
            filled.push(lines[index].clone());
            proof {
                assert(text::texts(filled@) =~= text::texts(before).push(lines@[index as int]@));
            }
        }
        index += 1;
    }
    proof {
        assert(all.take(index as int) =~= all);
    }
    filled
}

fn single(prompt: String) -> (prompts: Vec<String>)
    ensures
        text::texts(prompts@) == seq![prompt@],
{
    let prompts: Vec<String> = vec![prompt];
    proof {
        assert(text::texts(prompts@) =~= seq![prompt@]);
    }
    prompts
}

/// The prompts to run, given what came of reading the prompt file.
pub fn load_prompts(args: &Args, contents: &Result<String, String>) -> (result: Result<
    Vec<String>,
    String,
>)
    ensures
        texts_outcome(result) == prompts_of(
            args@,
            match *contents {
                Ok(contents) => Ok(contents@),
                Err(error) => Err(error@),
            },
        ),
{
    if args.prompt.is_some() && args.prompt_file.is_some() {
        return Err("--prompt and --prompt-file are mutually exclusive".to_owned());
    }
    match &args.prompt_file {
        Some(path) => match contents {
            Err(error) => Err(
                text::concat4("read prompt file ", path.as_str(), ": ", error.as_str()),
            ),
            Ok(contents) => {
                let lines = text::text_lines(contents.as_str());
                let prompts = keep_filled_lines(&lines);
                proof {
                    assert(text::texts(prompts@).len() == prompts@.len());
                }
                if prompts.len() == 0 {
                    Err(
                        text::concat3(
                            "prompt file ",
                            path.as_str(),
                            " contains no non-empty lines",
                        ),
                    )
                } else {
                    Ok(prompts)
                }
            },
        },
        None => match &args.prompt {
            Some(prompt) => Ok(single(prompt.clone())),
            None => Ok(single(DEFAULT_PROMPT.to_owned())),
        },
    }
}

/// The model must be as deep as the retained prefix.
pub fn check_depth(layers: usize, depth: usize) -> (result: Result<(), String>)
    ensures
        text::outcome(result) == if layers <= depth {
            Ok(())
        } else {
            Err(
                "--layers "@ + text::decimal(layers as nat) + " exceeds model depth "@
                    + text::decimal(depth as nat),
            )
        },
{
    if layers <= depth {
        return Ok(());
    }
    Err(
        text::concat4(
            "--layers ",
            text::decimal_text(layers as u64).as_str(),
            " exceeds model depth ",
            text::decimal_text(depth as u64).as_str(),
        ),
    )
}

/// A prompt must have tokens, and leave room for the traced ones.
pub fn check_prompt(index: usize, prompt_tokens: usize, tokens: usize, context: usize) -> (result: Result<
    (),
    String,
>)
    ensures
        text::outcome(result) == if prompt_tokens == 0 {
            Err("prompt "@ + text::decimal(index as nat) + " tokenized to zero tokens"@)
        } else if prompt_tokens + tokens > context && context < usize::MAX {
            Err("prompt "@ + text::decimal(index as nat) + " plus trace tokens exceeds context"@)
        } else {
            Ok(())
        },
{
    if prompt_tokens == 0 {
        return Err(
            text::concat3(
                "prompt ",
                text::decimal_text(index as u64).as_str(),
                " tokenized to zero tokens",
            ),
        );
    }
    let needed: usize = match prompt_tokens.checked_add(tokens) {
        Some(needed) => needed,
        None => usize::MAX,
    };
    if needed > context {
        return Err(
            text::concat3(
                "prompt ",
                text::decimal_text(index as u64).as_str(),
                " plus trace tokens exceeds context",
            ),
        );
    }
    Ok(())
}

/// How many target tokens a record lists.
pub const TARGET_TOP_K: usize = 4;

/// The first record of a prompt's trace.
#[derive(Debug)]
pub struct TraceHeader {
    pub record_type: &'static str,
    pub model: String,
    pub model_revision: String,
    pub prompt: String,
    pub prompt_tokens: Vec<u32>,
    pub layers: usize,
    pub hidden_size: usize,
    pub target_hidden_size: usize,
    pub target_top_k: usize,
}

/// A traced token with its labels; the hidden states stand as bits.
#[derive(Debug)]
pub struct TraceRecord {
    pub record_type: &'static str,
    pub position: usize,
    pub input_token: u32,
    pub target_top1: usize,
    pub target_top4: Vec<usize>,
    pub hidden: Vec<u32>,
    pub target_hidden: Vec<u32>,
}

/// The first record of a prompt's trace.
pub fn trace_header(
    args: &Args,
    model_revision: String,
    prompt: String,
    prompt_tokens: Vec<u32>,
    hidden_size: usize,
) -> (header: TraceHeader)
    ensures
        header.record_type@ == "header"@,
        header.model@ == args.model@,
        header.model_revision == model_revision,
        header.prompt == prompt,
        header.prompt_tokens == prompt_tokens,
        header.layers == args.layers,
        header.hidden_size == hidden_size,
        header.target_hidden_size == hidden_size,
        header.target_top_k == 4,
{
    TraceHeader {
        record_type: "header",
        model: args.model.clone(),
        model_revision,
        prompt,
        prompt_tokens,
        layers: args.layers,
        hidden_size,
        target_hidden_size: hidden_size,
        target_top_k: TARGET_TOP_K,
    }
}

/// Whether an index is that of a greatest finite logit.
pub open spec fn is_top(values: Seq<u32>, index: usize) -> bool {
    logits::is_ranking(logits::finite_keys(values), 1, seq![index])
}

/// The token that the target chooses, by the low 32 bits of its index; there
/// is none without a finite logit.
pub fn input_token(values: &[u32]) -> (result: Result<u32, String>)
    ensures
        match result {
            Ok(token) => exists|index: usize| #[trigger]
                is_top(values@, index) && token == (index as int % 0x1_0000_0000) as u32,
            Err(message) => logits::ranked_count(logits::finite_keys(values@)) == 0 && message@
                == "target logits contain no finite values"@,
        },
{
    let top = logits::top_k_ids(values, 1);
    if top.len() == 0 {
        return Err("target logits contain no finite values".to_owned());
    }
    let index: usize = top[0];
    proof {
        assert(top@ =~= seq![index]);
        assert(is_top(values@, index));
    }
    Ok((index as u64 % 0x1_0000_0000) as u32)
}

/// The tokens of one prompt's trace that have been chosen so far.
#[derive(Debug, Clone, Copy, PartialEq, Eq, Structural)]
pub struct Tracing {
    pub prompt_tokens: usize,
    pub tokens: usize,
    pub chosen: usize,
}

impl Tracing {
    /// All positions of the trace fit a machine-sized number.
    pub open spec fn wf(&self) -> bool {
        self.prompt_tokens + self.tokens <= usize::MAX && self.chosen <= self.tokens
    }

    /// A trace of so many tokens behind a prompt.
    pub fn new(prompt_tokens: usize, tokens: usize) -> (tracing: Tracing)
        requires
            prompt_tokens + tokens <= usize::MAX,
        ensures
            tracing.wf(),
            tracing == (Tracing { prompt_tokens, tokens, chosen: 0 }),
    {
        Tracing { prompt_tokens, tokens, chosen: 0 }
    }

    /// Whether all tokens are chosen.
    pub fn is_done(&self) -> (done: bool)
        ensures
            done == (self.chosen >= self.tokens),
    {
        self.chosen >= self.tokens
    }

    /// Chooses the next token of the trace, and says which it is and where it
    /// stands. Nothing is chosen without a finite logit.
    pub fn next(&mut self, values: &[u32]) -> (result: Result<(u32, usize), String>)
        requires
            old(self).wf(),
            old(self).chosen < old(self).tokens,
        ensures
            final(self).wf(),
            match result {
                Ok((token, position)) => {
                    &&& exists|index: usize| #[trigger]
                        is_top(values@, index) && token == (index as int % 0x1_0000_0000) as u32
                    &&& position == old(self).prompt_tokens + old(self).chosen
                    &&& *final(self) == (Tracing {
                        chosen: (old(self).chosen + 1) as usize,
                        ..*old(self)
                    })
                },
                Err(message) => {
                    &&& logits::ranked_count(logits::finite_keys(values@)) == 0
                    &&& message@ == "target logits contain no finite values"@
                    &&& *final(self) == *old(self)
                },
            },
    {
        match input_token(values) {
            Err(message) => Err(message),
            Ok(token) => {
                let position: usize = self.prompt_tokens + self.chosen;
                self.chosen = self.chosen + 1;
                Ok((token, position))
            },
        }
    }
}

/// The record of a traced token, with the greatest target logits as its labels.
pub fn trace_record(
    position: usize,
    input_token: u32,
    next_logits: &[u32],
    hidden: Vec<u32>,
    target_hidden: Vec<u32>,
) -> (result: Result<TraceRecord, String>)
    ensures
        match result {
            Ok(record) => {
                &&& record.record_type@ == "record"@
                &&& record.position == position
                &&& record.input_token == input_token
                &&& logits::is_ranking(
                    logits::finite_keys(next_logits@),
                    4,
                    record.target_top4@,
                )
                &&& record.target_top4@.len() > 0
                &&& record.target_top1 == record.target_top4@[0]
                &&& record.hidden == hidden
                &&& record.target_hidden == target_hidden
            },
            Err(message) => logits::ranked_count(logits::finite_keys(next_logits@)) == 0
                && message@ == "target logits contain no finite values"@,
        },
{
    let target_top4 = logits::top_k_ids(next_logits, TARGET_TOP_K);
    if target_top4.len() == 0 {
        return Err("target logits contain no finite values".to_owned());
    }
    let target_top1: usize = target_top4[0];
    Ok(
        TraceRecord {
            record_type: "record",
            position,
            input_token,
            target_top1,
            target_top4,
            hidden,
            target_hidden,
        },
    )
}

/// Every option is found in its place.
proof fn lemma_places()
    ensures
        options::found(rules(), "--model"@, 0) == 0,
        options::found(rules(), "--prompt"@, 0) == 1,
        options::found(rules(), "--prompt-file"@, 0) == 2,
        options::found(rules(), "--trace"@, 0) == 3,
        options::found(rules(), "--layers"@, 0) == 4,
        options::found(rules(), "--tokens"@, 0) == 5,
        options::found(rules(), "--context"@, 0) == 6,
        options::found(rules(), "--verify-manifest"@, 0) == 7,
        options::found(rules(), "-h"@, 0) == 8,
        options::found(rules(), "--help"@, 0) == 9,
{
    reveal_strlit("--model");
    reveal_strlit("--prompt");
    reveal_strlit("--prompt-file");
    reveal_strlit("--trace");
    reveal_strlit("--layers");
    reveal_strlit("--tokens");
    reveal_strlit("--context");
    reveal_strlit("--verify-manifest");
    reveal_strlit("-h");
    reveal_strlit("--help");
    assert("--model"@.len() == 7);
    assert("--prompt"@.len() == 8);
    assert("--prompt-file"@.len() == 13);
    assert("--trace"@.len() == 7);
    assert("--layers"@.len() == 8);
    assert("--tokens"@.len() == 8);
    assert("--context"@.len() == 9);
    assert("--verify-manifest"@.len() == 17);
    assert("-h"@.len() == 2);
    assert("--help"@.len() == 6);
    assert("--trace"@[2] != "--model"@[2]);
    assert("--layers"@[2] != "--prompt"@[2]);
    assert("--tokens"@[2] != "--prompt"@[2]);
    assert("--tokens"@[2] != "--layers"@[2]);
    let all = rules();
    assert("--prompt"@ != "--model"@);
    assert("--prompt-file"@ != "--model"@);
    assert("--prompt-file"@ != "--prompt"@);
    assert("--trace"@ != "--model"@);
    assert("--trace"@ != "--prompt"@);
    assert("--trace"@ != "--prompt-file"@);
    assert("--layers"@ != "--model"@);
    assert("--layers"@ != "--prompt"@);
    assert("--layers"@ != "--prompt-file"@);
    assert("--layers"@ != "--trace"@);
    assert("--tokens"@ != "--model"@);
    assert("--tokens"@ != "--prompt"@);
    assert("--tokens"@ != "--prompt-file"@);
    assert("--tokens"@ != "--trace"@);
    assert("--tokens"@ != "--layers"@);
    assert("--context"@ != "--model"@);
    assert("--context"@ != "--prompt"@);
    assert("--context"@ != "--prompt-file"@);
    assert("--context"@ != "--trace"@);
    assert("--context"@ != "--layers"@);
    assert("--context"@ != "--tokens"@);
    assert("--verify-manifest"@ != "--model"@);
    assert("--verify-manifest"@ != "--prompt"@);
    assert("--verify-manifest"@ != "--prompt-file"@);
    assert("--verify-manifest"@ != "--trace"@);
    assert("--verify-manifest"@ != "--layers"@);
    assert("--verify-manifest"@ != "--tokens"@);
    assert("--verify-manifest"@ != "--context"@);
    assert("-h"@ != "--model"@);
    assert("-h"@ != "--prompt"@);
    assert("-h"@ != "--prompt-file"@);
    assert("-h"@ != "--trace"@);
    assert("-h"@ != "--layers"@);
    assert("-h"@ != "--tokens"@);
    assert("-h"@ != "--context"@);
    assert("-h"@ != "--verify-manifest"@);
    assert("--help"@ != "--model"@);
    assert("--help"@ != "--prompt"@);
    assert("--help"@ != "--prompt-file"@);
    assert("--help"@ != "--trace"@);
    assert("--help"@ != "--layers"@);
    assert("--help"@ != "--tokens"@);
    assert("--help"@ != "--context"@);
    assert("--help"@ != "--verify-manifest"@);
    assert("--help"@ != "-h"@);
    assert(all[0].name@ == "--model"@);
    assert(all[1].name@ == "--prompt"@);
    assert(all[2].name@ == "--prompt-file"@);
    assert(all[3].name@ == "--trace"@);
    assert(all[4].name@ == "--layers"@);
    assert(all[5].name@ == "--tokens"@);
    assert(all[6].name@ == "--context"@);
    assert(all[7].name@ == "--verify-manifest"@);
    assert(all[8].name@ == "-h"@);
    assert(all[9].name@ == "--help"@);
    options::lemma_found_at(all, "--model"@, 0, 0);
    options::lemma_found_at(all, "--prompt"@, 0, 1);
    options::lemma_found_at(all, "--prompt-file"@, 0, 2);
    options::lemma_found_at(all, "--trace"@, 0, 3);
    options::lemma_found_at(all, "--layers"@, 0, 4);
    options::lemma_found_at(all, "--tokens"@, 0, 5);
    options::lemma_found_at(all, "--context"@, 0, 6);
    options::lemma_found_at(all, "--verify-manifest"@, 0, 7);
    options::lemma_found_at(all, "-h"@, 0, 8);
    options::lemma_found_at(all, "--help"@, 0, 9);
}

/// The last value that is given for an option counts, and changes nothing else.
/// What is not given has its default, and what is required was given.
pub proof fn law_options_are_read(arguments: Seq<Seq<char>>, value: Seq<char>)
    requires
        parsed(arguments) matches Ok(_),
    ensures
        ({
            let args = parsed(arguments)->Ok_0;
            let size = text::unsigned(value, usize::MAX as nat);
            &&& parsed(arguments + seq!["--model"@, value]) == Ok::<ArgsView, Seq<char>>(
                ArgsView { model: value, ..args },
            )
            &&& arguments.contains("--model"@)
            &&& parsed(arguments + seq!["--prompt"@, value]) == Ok::<ArgsView, Seq<char>>(
                ArgsView { prompt: Some(value), ..args },
            )
            &&& !arguments.contains("--prompt"@) ==> args.prompt is None
            &&& parsed(arguments + seq!["--prompt-file"@, value]) == Ok::<ArgsView, Seq<char>>(
                ArgsView { prompt_file: Some(value), ..args },
            )
            &&& !arguments.contains("--prompt-file"@) ==> args.prompt_file is None
            &&& parsed(arguments + seq!["--trace"@, value]) == Ok::<ArgsView, Seq<char>>(
                ArgsView { trace: Some(value), ..args },
            )
            &&& !arguments.contains("--trace"@) ==> args.trace is None
            &&& size matches Some(n) ==> if n > 0 {
                parsed(arguments + seq!["--layers"@, value]) == Ok::<ArgsView, Seq<char>>(
                    ArgsView { layers: n, ..args },
                )
            } else {
                parsed(arguments + seq!["--layers"@, value]) is Err
            }
            &&& size is None ==> parsed(arguments + seq!["--layers"@, value]) is Err
            &&& !arguments.contains("--layers"@) ==> args.layers == 8
            &&& size matches Some(n) ==> if n > 0 {
                parsed(arguments + seq!["--tokens"@, value]) == Ok::<ArgsView, Seq<char>>(
                    ArgsView { tokens: n, ..args },
                )
            } else {
                parsed(arguments + seq!["--tokens"@, value]) is Err
            }
            &&& size is None ==> parsed(arguments + seq!["--tokens"@, value]) is Err
            &&& !arguments.contains("--tokens"@) ==> args.tokens == 32
            &&& size matches Some(n) ==> if n > 0 {
                parsed(arguments + seq!["--context"@, value]) == Ok::<ArgsView, Seq<char>>(
                    ArgsView { context: n, ..args },
                )
            } else {
                parsed(arguments + seq!["--context"@, value]) is Err
            }
            &&& size is None ==> parsed(arguments + seq!["--context"@, value]) is Err
            &&& !arguments.contains("--context"@) ==> args.context == 2048
            &&& parsed(arguments + seq!["--verify-manifest"@]) == Ok::<ArgsView, Seq<char>>(
                ArgsView { verify_manifest: true, ..args },
            )
            &&& !arguments.contains("--verify-manifest"@) ==> !args.verify_manifest
            &&& parsed(arguments + (seq!["-h"@] + seq![value])) == Err::<ArgsView, Seq<char>>(USAGE@)
            &&& parsed(arguments + (seq!["--help"@] + seq![value])) == Err::<ArgsView, Seq<char>>(USAGE@)
        }),
{
    lemma_places();
    let all = rules();
    let style = options::named_style("unknown option: ");
    options::law_option_is_recorded(all, style, arguments, 0, "--model"@, value);
    options::law_unnamed_option_is_absent(all, style, arguments, 0);
    options::law_option_is_recorded(all, style, arguments, 1, "--prompt"@, value);
    options::law_unnamed_option_is_absent(all, style, arguments, 1);
    options::law_option_is_recorded(all, style, arguments, 2, "--prompt-file"@, value);
    options::law_unnamed_option_is_absent(all, style, arguments, 2);
    options::law_option_is_recorded(all, style, arguments, 3, "--trace"@, value);
    options::law_unnamed_option_is_absent(all, style, arguments, 3);
    options::law_option_is_recorded(all, style, arguments, 4, "--layers"@, value);
    options::lemma_number_under(all[4].rule->Number_0, value);
    options::law_unnamed_option_is_absent(all, style, arguments, 4);
    options::law_option_is_recorded(all, style, arguments, 5, "--tokens"@, value);
    options::lemma_number_under(all[5].rule->Number_0, value);
    options::law_unnamed_option_is_absent(all, style, arguments, 5);
    options::law_option_is_recorded(all, style, arguments, 6, "--context"@, value);
    options::lemma_number_under(all[6].rule->Number_0, value);
    options::law_unnamed_option_is_absent(all, style, arguments, 6);
    options::law_switch_is_recorded(all, style, arguments, 7, "--verify-manifest"@);
    options::law_unnamed_option_is_absent(all, style, arguments, 7);
    options::law_lone_option_ends_scan(all, style, arguments, 8, "-h"@, seq![value]);
    options::law_lone_option_ends_scan(all, style, arguments, 9, "--help"@, seq![value]);
}

/// The filled lines of two parts are those of the one and those of the other;
/// of a single line it is the line, unless it is blank.
pub proof fn law_filled_lines_keep_order(first: Seq<Seq<char>>, second: Seq<Seq<char>>)
    ensures
        filled_lines(first + second) == filled_lines(first) + filled_lines(second),
        first.len() == 1 ==> filled_lines(first) == (if text::is_blank(first[0]) {
            Seq::<Seq<char>>::empty()
        } else {
            first
        }),
    decreases second.len(),
{
    if second.len() == 0 {
        assert(first + second =~= first);
        assert(filled_lines(first) + filled_lines(second) =~= filled_lines(first));
    } else {
        let shorter = second.drop_last();
        law_filled_lines_keep_order(first, shorter);
        assert((first + second).drop_last() =~= first + shorter);
        assert((first + second).last() == second.last());
        assert(filled_lines(first + second) =~= filled_lines(first) + filled_lines(second));
    }
    if first.len() == 1 {
        assert(first.drop_last() =~= Seq::empty());
        assert(filled_lines(first.drop_last()) == Seq::<Seq<char>>::empty());
        assert(filled_lines(first) =~= if text::is_blank(first[0]) {
            Seq::<Seq<char>>::empty()
        } else {
            first
        });
    }
}

/// A prompt that is given is the only one, without one there is the default,
/// and with a file every prompt is one of its lines and none is blank.
pub proof fn law_prompts_are_given(args: ArgsView, contents: Result<Seq<char>, Seq<char>>, index: int)
    requires
        prompts_of(args, contents) is Ok,
        0 <= index < prompts_of(args, contents)->Ok_0.len(),
    ensures
        ({
            let prompts = prompts_of(args, contents)->Ok_0;
            &&& args.prompt matches Some(prompt) ==> prompts == seq![prompt] && args.prompt_file is None
            &&& args.prompt_file is Some ==> contents is Ok && text::lines(
                contents->Ok_0,
            ).contains(prompts[index]) && !text::is_blank(prompts[index])
            &&& args.prompt is None && args.prompt_file is None ==> prompts.len() == 1
        }),
{
    if args.prompt_file is Some {
        lemma_filled_line(text::lines(contents->Ok_0), index);
    }
}

proof fn lemma_filled_line(lines: Seq<Seq<char>>, index: int)
    requires
        0 <= index < filled_lines(lines).len(),
    ensures
        lines.contains(filled_lines(lines)[index]),
        !text::is_blank(filled_lines(lines)[index]),
    decreases lines.len(),
{
    if lines.len() > 0 {
        let shorter = lines.drop_last();
        let before = filled_lines(shorter);
        if index < before.len() {
            lemma_filled_line(shorter, index);
            let at = choose|i: int| 0 <= i < shorter.len() && shorter[i] == before[index];
            assert(lines[at] == before[index]);
        } else {
            assert(lines[lines.len() - 1] == lines.last());
        }
    }
}

} // verus!
