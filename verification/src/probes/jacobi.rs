//! Drafting by fixed-point iteration over a window of tokens.
use vstd::prelude::*;

use crate::options;
use crate::options::OptionRule;
use crate::logits;
use crate::text;

verus! {

#[derive(Debug, Clone)]
pub struct Args {
    pub model: String,
    pub prompt: String,
    pub batch: usize,
    pub iterations: usize,
}

/// The arguments with their texts as character sequences.
pub struct ArgsView {
    pub model: Seq<char>,
    pub prompt: Seq<char>,
    pub batch: nat,
    pub iterations: nat,
}

impl View for Args {
    type V = ArgsView;

    open spec fn view(&self) -> ArgsView {
        ArgsView {
            model: self.model@,
            prompt: self.prompt@,
            batch: self.batch as nat,
            iterations: self.iterations as nat,
        }
    }
}

pub open spec fn rules() -> Seq<OptionRule> {
    seq![
        options::text_option("--model"),
        options::text_option("--prompt"),
        options::size_option("--batch", "--batch is invalid"),
        options::size_option("--iterations", "--iterations is invalid"),
    ]
}

/// What the arguments mean, or the message that refuses them.
pub open spec fn parsed(arguments: Seq<Seq<char>>) -> Result<ArgsView, Seq<char>> {
    match options::values_result(rules(), options::paired_style(), arguments) {
        Err(message) => Err(message),
        Ok(values) => {
            let prompt = options::text_or(values[1], "Hello"@);
            let batch = options::number_or(values[2], 4);
            let iterations = options::number_or(values[3], 2);
            if !(2 <= batch <= 8) || iterations == 0 {
                Err("batch must be 2..8 and iterations must be positive"@)
            } else {
                match options::text_given(values[0]) {
                    None => Err("--model is required"@),
                    Some(model) => {
                        Ok(ArgsView { model, prompt, batch, iterations })
                    },
                }
            }
        },
    }
}

impl Args {
    pub fn parse(arguments: Vec<String>) -> (result: Result<Args, String>)
        ensures
            text::outcome_view(result) == parsed(text::texts(arguments@)),
    {
        let rules: Vec<OptionRule> = vec![
            options::text_option("--model"),
            options::text_option("--prompt"),
            options::size_option("--batch", "--batch is invalid"),
            options::size_option("--iterations", "--iterations is invalid"),
        ];
        proof {
            assert(rules@ =~= self::rules());
        }
        let values = match options::scan_values(&rules, &options::paired_style(), &arguments) {
            Ok(values) => values,
            Err(message) => {
                return Err(message);
            },
        };
        let prompt = options::text_of_or(&values, 1, "Hello");
        let batch: usize = options::size_or(&rules, &values, 2, 4);
        let iterations: usize = options::size_or(&rules, &values, 3, 2);
        if batch < 2 || batch > 8 || iterations == 0 {
            return Err("batch must be 2..8 and iterations must be positive".to_owned());
        }
        let model = match options::text_of(&values, 0) {
            Some(model) => model,
            None => {
                return Err("--model is required".to_owned());
            },
        };
        Ok(Args { model, prompt, batch, iterations })
    }
}

/// A search for candidates by repeated verification: each round verifies the
/// candidates and takes the tokens that they predict as the next ones.
#[derive(Debug)]
pub struct Search {
    pub first: u32,
    pub batch: usize,
    pub candidates: Vec<u32>,
    pub best_accepted: usize,
    pub best_candidates: Vec<u32>,
}

/// A search with its candidates as sequences.
#[verifier::ext_equal]
pub struct SearchView {
    pub first: u32,
    pub batch: usize,
    pub candidates: Seq<u32>,
    pub best_accepted: usize,
    pub best_candidates: Seq<u32>,
}

impl View for Search {
    type V = SearchView;

    open spec fn view(&self) -> SearchView {
        SearchView {
            first: self.first,
            batch: self.batch,
            candidates: self.candidates@,
            best_accepted: self.best_accepted,
            best_candidates: self.best_candidates@,
        }
    }
}

/// The candidates of the next round: the first token, then what the logits of
/// all rows but the last predict.
pub open spec fn next_candidates(first: u32, batch: usize, logits: Seq<Vec<u32>>) -> Seq<u32> {
    let rows = if batch == 0 {
        0nat
    } else {
        (batch - 1) as nat
    };
    let taken = if logits.len() < rows {
        logits.len()
    } else {
        rows
    };
    seq![first] + Seq::new(taken, |i: int| logits::greedy_token(logits[i]@))
}

/// The search after a round in which so many candidates were accepted.
pub open spec fn searched(search: SearchView, logits: Seq<Vec<u32>>, accepted: usize) -> SearchView {
    SearchView {
        candidates: next_candidates(search.first, search.batch, logits),
        best_accepted: if accepted > search.best_accepted {
            accepted
        } else {
            search.best_accepted
        },
        best_candidates: if accepted > search.best_accepted {
            search.candidates
        } else {
            search.best_candidates
        },
        ..search
    }
}

impl Search {
    /// A search that has the first token for every candidate.
    pub fn new(first: u32, batch: usize) -> (search: Search)
        ensures
            search@ == (SearchView {
                first,
                batch,
                candidates: Seq::new(batch as nat, |i: int| first),
                best_accepted: 0,
                best_candidates: Seq::new(batch as nat, |i: int| first),
            }),
    {
        let mut candidates: Vec<u32> = Vec::new();
        let mut best_candidates: Vec<u32> = Vec::new();
        let mut count: usize = 0;
        while count < batch
            invariant
                count <= batch,
                candidates@ =~= Seq::new(count as nat, |i: int| first),
                best_candidates@ =~= Seq::new(count as nat, |i: int| first),
            decreases batch - count,
        {
            candidates.push(first);
            best_candidates.push(first);
            count += 1;
        }
        Search { first, batch, candidates, best_accepted: 0, best_candidates }
    }

    /// Ends a round with the logits of its candidates, and says how many of
    /// them were accepted.
    pub fn finish_round(&mut self, logits: &[Vec<u32>]) -> (accepted: usize)
        ensures
            logits::is_accepted_prefix(
                old(self)@.first,
                old(self)@.candidates,
                logits@,
                accepted as int,
            ),
            final(self)@ == searched(old(self)@, logits@, accepted),
    {
        let accepted: usize = logits::accepted_prefix(
            self.first,
            self.candidates.as_slice(),
            logits,
        );
        let rows: usize = if self.batch == 0 { 0 } else { self.batch - 1 };
        let mut next: Vec<u32> = Vec::new();
        next.push(self.first);
        let ghost all = next_candidates(self.first, self.batch, logits@);
        let mut index: usize = 0;
        proof {
            assert(next@ =~= all.take(1));
        }
        while index < logits.len() && index < rows
            invariant
                index <= logits@.len(),
                index <= rows,
                rows == if self.batch == 0 {
                    0int
                } else {
                    self.batch - 1
                },
                self@ == old(self)@,
                all == next_candidates(self.first, self.batch, logits@),
                next@ =~= all.take(index + 1),
            decreases rows - index,
        {
            next.push(logits::argmax_token(logits[index].as_slice()));
            index += 1;
        }
        proof {
            assert(all.take(index + 1) =~= all);
        }
        if accepted > self.best_accepted {
            self.best_accepted = accepted;
            let mut copy: Vec<u32> = Vec::new();
            let mut copied: usize = 0;
            while copied < self.candidates.len()
                invariant
                    copied <= self.candidates@.len(),
                    copy@ =~= self.candidates@.take(copied as int),
                decreases self.candidates@.len() - copied,
            {
                copy.push(self.candidates[copied]);
                copied += 1;
            }
            proof {
                assert(copy@ =~= self.candidates@);
            }
            self.best_candidates = copy;
        }
        self.candidates = next;
        accepted
    }
}

/// The best number of accepted candidates never falls, and the candidates of
/// every round after the first begin with the first token.
pub proof fn law_search_never_loses(search: SearchView, logits: Seq<Vec<u32>>, accepted: usize)
    ensures
        searched(search, logits, accepted).best_accepted >= search.best_accepted,
        searched(search, logits, accepted).best_accepted >= accepted,
        searched(search, logits, accepted).candidates.len() > 0,
        searched(search, logits, accepted).candidates[0] == search.first,
{
}

/// Every option is found in its place.
proof fn lemma_places()
    ensures
        options::found(rules(), "--model"@, 0) == 0,
        options::found(rules(), "--prompt"@, 0) == 1,
        options::found(rules(), "--batch"@, 0) == 2,
        options::found(rules(), "--iterations"@, 0) == 3,
{
    reveal_strlit("--model");
    reveal_strlit("--prompt");
    reveal_strlit("--batch");
    reveal_strlit("--iterations");
    assert("--model"@.len() == 7);
    assert("--prompt"@.len() == 8);
    assert("--batch"@.len() == 7);
    assert("--iterations"@.len() == 12);
    assert("--batch"@[2] != "--model"@[2]);
    let all = rules();
    assert("--prompt"@ != "--model"@);
    assert("--batch"@ != "--model"@);
    assert("--batch"@ != "--prompt"@);
    assert("--iterations"@ != "--model"@);
    assert("--iterations"@ != "--prompt"@);
    assert("--iterations"@ != "--batch"@);
    assert(all[0].name@ == "--model"@);
    assert(all[1].name@ == "--prompt"@);
    assert(all[2].name@ == "--batch"@);
    assert(all[3].name@ == "--iterations"@);
    options::lemma_found_at(all, "--model"@, 0, 0);
    options::lemma_found_at(all, "--prompt"@, 0, 1);
    options::lemma_found_at(all, "--batch"@, 0, 2);
    options::lemma_found_at(all, "--iterations"@, 0, 3);
}

/// The last value that is given for an option counts, and changes nothing else.
/// What is not given has its default, and what is required was given.
pub proof fn law_options_are_read(arguments: Seq<Seq<char>>, value: Seq<char>)
    requires
        parsed(arguments) matches Ok(_),
    ensures
        ({
            let args = parsed(arguments)->Ok_0;
            let size = text::unsigned(value, usize::MAX as nat);
            &&& parsed(arguments + seq!["--model"@, value]) == Ok::<ArgsView, Seq<char>>(
                ArgsView { model: value, ..args },
            )
            &&& arguments.contains("--model"@)
            &&& parsed(arguments + seq!["--prompt"@, value]) == Ok::<ArgsView, Seq<char>>(
                ArgsView { prompt: value, ..args },
            )
            &&& !arguments.contains("--prompt"@) ==> args.prompt == "Hello"@
            &&& size matches Some(n) ==> if 2 <= n <= 8 {
                parsed(arguments + seq!["--batch"@, value]) == Ok::<ArgsView, Seq<char>>(
                    ArgsView { batch: n, ..args },
                )
            } else {
                parsed(arguments + seq!["--batch"@, value]) is Err
            }
            &&& size is None ==> parsed(arguments + seq!["--batch"@, value]) is Err
            &&& !arguments.contains("--batch"@) ==> args.batch == 4
            &&& size matches Some(n) ==> if n > 0 {
                parsed(arguments + seq!["--iterations"@, value]) == Ok::<ArgsView, Seq<char>>(
                    ArgsView { iterations: n, ..args },
                )
            } else {
                parsed(arguments + seq!["--iterations"@, value]) is Err
            }
            &&& size is None ==> parsed(arguments + seq!["--iterations"@, value]) is Err
            &&& !arguments.contains("--iterations"@) ==> args.iterations == 2
        }),
{
    lemma_places();
    let all = rules();
    let style = options::paired_style();
    options::law_option_is_recorded(all, style, arguments, 0, "--model"@, value);
    options::law_unnamed_option_is_absent(all, style, arguments, 0);
    options::law_option_is_recorded(all, style, arguments, 1, "--prompt"@, value);
    options::law_unnamed_option_is_absent(all, style, arguments, 1);
    options::law_option_is_recorded(all, style, arguments, 2, "--batch"@, value);
    options::lemma_number_under(all[2].rule->Number_0, value);
    options::law_unnamed_option_is_absent(all, style, arguments, 2);
    options::law_option_is_recorded(all, style, arguments, 3, "--iterations"@, value);
    options::lemma_number_under(all[3].rule->Number_0, value);
    options::law_unnamed_option_is_absent(all, style, arguments, 3);
}

/// The next candidates keep what was accepted, and put the token that was
/// expected in the place of the first candidate that was not. Candidates that
/// were all accepted are candidates again.
pub proof fn law_round_keeps_accepted(
    search: SearchView,
    logits: Seq<Vec<u32>>,
    accepted: usize,
    place: int,
)
    requires
        logits::is_accepted_prefix(search.first, search.candidates, logits, accepted as int),
        search.candidates.len() == search.batch,
        logits.len() == search.batch,
        search.batch > 0,
    ensures
        ({
            let next = searched(search, logits, accepted).candidates;
            &&& next.len() == search.batch
            &&& next[0] == search.first
            &&& 0 <= place < accepted ==> next[place] == search.candidates[place]
            &&& accepted < search.batch ==> next[accepted as int] == logits::expected_token(
                search.first,
                logits,
                accepted as int,
            ) && next[accepted as int] != search.candidates[accepted as int]
            &&& accepted == search.batch ==> next == search.candidates
        }),
{
    let next = next_candidates(search.first, search.batch, logits);
    assert forall|i: int| 0 <= i < accepted implies (#[trigger] next[i]) == search.candidates[i] by {
        assert(search.candidates[i] == logits::expected_token(search.first, logits, i));
    }
    if accepted == search.batch {
        assert(next =~= search.candidates);
    }
}

} // verus!
