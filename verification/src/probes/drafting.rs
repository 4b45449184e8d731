//! Drafting of candidates behind a prompt, one token after the other.
use vstd::prelude::*;

use crate::logits;

verus! {

/// The candidates that have been drafted so far.
#[derive(Debug)]
pub struct Draft {
    pub prompt_tokens: usize,
    pub batch: usize,
    pub candidates: Vec<u32>,
}

/// A draft with its candidates as a sequence.
#[verifier::ext_equal]
pub struct DraftView {
    pub prompt_tokens: usize,
    pub batch: usize,
    pub candidates: Seq<u32>,
}

impl View for Draft {
    type V = DraftView;

    open spec fn view(&self) -> DraftView {
        DraftView {
            prompt_tokens: self.prompt_tokens,
            batch: self.batch,
            candidates: self.candidates@,
        }
    }
}

impl Draft {
    /// All positions of the draft fit a machine-sized number, and no more
    /// candidates are drafted than are asked for.
    pub open spec fn wf(&self) -> bool {
        &&& self.prompt_tokens + self.batch <= usize::MAX
        &&& self.candidates@.len() <= self.batch
    }

    /// A draft without candidates behind a prompt.
    pub fn new(prompt_tokens: usize, batch: usize) -> (draft: Draft)
        requires
            prompt_tokens + batch <= usize::MAX,
        ensures
            draft.wf(),
            draft@ == (DraftView { prompt_tokens, batch, candidates: Seq::empty() }),
    {
        Draft { prompt_tokens, batch, candidates: Vec::new() }
    }

    /// Whether all candidates are drafted.
    pub fn is_full(&self) -> (full: bool)
        ensures
            full == (self.candidates@.len() >= self.batch),
    {
        self.candidates.len() >= self.batch
    }

    /// Drafts the token that the logits choose, and says which it is and where
    /// it stands.
    pub fn next(&mut self, logits: &[u32]) -> (drafted: (u32, usize))
        requires
            old(self).wf(),
            old(self).candidates@.len() < old(self).batch,
        ensures
            final(self).wf(),
            drafted.0 == logits::greedy_token(logits@),
            drafted.1 == old(self).prompt_tokens + old(self).candidates@.len(),
            final(self)@ == (DraftView {
                candidates: old(self)@.candidates.push(drafted.0),
                ..old(self)@
            }),
    {
        let token: u32 = logits::argmax_token(logits);
        let position: usize = self.prompt_tokens + self.candidates.len();
        self.candidates.push(token);
        (token, position)
    }
}

/// The positions of so many tokens from the first on.
pub fn positions(first: usize, count: usize) -> (positions: Vec<usize>)
    requires
        first + count <= usize::MAX,
    ensures
        positions@ == Seq::new(count as nat, |i: int| (first + i) as usize),
{
    let mut positions: Vec<usize> = Vec::new();
    let mut index: usize = 0;
    while index < count
        invariant
            index <= count,
            first + count <= usize::MAX,
            positions@ =~= Seq::new(index as nat, |i: int| (first + i) as usize),
        decreases count - index,
    {
        positions.push(first + index);
        index += 1;
    }
    positions
}

} // verus!
