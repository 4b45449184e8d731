//! Sequences of device steps that end with the first check that fails.
use vstd::prelude::*;

use crate::metal::plan::{Plan, PlanView, SlicePlan, SliceView};
use crate::text;

verus! {

/// A step of a layer: over some rows of a tensor, or over whole inputs.
#[derive(Debug)]
pub enum Step {
    Rows(SlicePlan),
    Whole(Plan),
}

pub enum StepView {
    Rows(SliceView),
    Whole(PlanView),
}

impl View for Step {
    type V = StepView;

    open spec fn view(&self) -> StepView {
        match self {
            Step::Rows(slice) => StepView::Rows(slice@),
            Step::Whole(plan) => StepView::Whole(plan@),
        }
    }
}

/// The steps to take in order, and what is found wrong after the last of them.
#[derive(Debug)]
pub struct Steps {
    pub steps: Vec<Step>,
    pub failure: Option<String>,
}

#[verifier::ext_equal]
pub struct StepsView {
    pub steps: Seq<StepView>,
    pub failure: Option<Seq<char>>,
}

impl View for Steps {
    type V = StepsView;

    open spec fn view(&self) -> StepsView {
        StepsView {
            steps: self.steps@.map_values(|step: Step| step@),
            failure: text::optional_text(self.failure),
        }
    }
}

/// No steps yet.
pub open spec fn no_steps() -> StepsView {
    StepsView { steps: Seq::empty(), failure: None }
}

/// One more step, unless a check before it has failed.
pub open spec fn and_then(steps: StepsView, outcome: Result<StepView, Seq<char>>) -> StepsView {
    if steps.failure is Some {
        steps
    } else {
        match outcome {
            Ok(step) => StepsView { steps: steps.steps.push(step), failure: None },
            Err(message) => StepsView { steps: steps.steps, failure: Some(message) },
        }
    }
}

/// A plan over some rows as a step.
pub open spec fn rows_step(plan: Result<SliceView, Seq<char>>) -> Result<StepView, Seq<char>> {
    match plan {
        Ok(slice) => Ok(StepView::Rows(slice)),
        Err(message) => Err(message),
    }
}

/// A plan over whole inputs as a step.
pub open spec fn whole_step(plan: Result<PlanView, Seq<char>>) -> Result<StepView, Seq<char>> {
    match plan {
        Ok(plan) => Ok(StepView::Whole(plan)),
        Err(message) => Err(message),
    }
}

/// The steps that outcomes give in order, up to the first that fails.
pub open spec fn taken(outcomes: Seq<Result<StepView, Seq<char>>>) -> StepsView
    decreases outcomes.len(),
{
    if outcomes.len() == 0 {
        no_steps()
    } else {
        and_then(taken(outcomes.drop_last()), outcomes.last())
    }
}

/// Whether all outcomes before one are steps.
pub open spec fn reaches(outcomes: Seq<Result<StepView, Seq<char>>>, index: int) -> bool {
    forall|i: int| 0 <= i < index ==> (#[trigger] outcomes[i]) is Ok
}

/// One more outcome is one more step, unless one before it has failed.
pub proof fn lemma_taken_step(outcomes: Seq<Result<StepView, Seq<char>>>, count: int)
    requires
        0 <= count < outcomes.len(),
    ensures
        taken(outcomes.take(count + 1)) == and_then(taken(outcomes.take(count)), outcomes[count]),
{
    assert(outcomes.take(count + 1).drop_last() =~= outcomes.take(count));
}

/// What fails among the first outcomes ends the steps.
pub proof fn lemma_taken_failure(outcomes: Seq<Result<StepView, Seq<char>>>, count: int)
    requires
        0 <= count <= outcomes.len(),
        taken(outcomes.take(count)).failure is Some,
    ensures
        taken(outcomes) == taken(outcomes.take(count)),
    decreases outcomes.len() - count,
{
    if count < outcomes.len() {
        lemma_taken_step(outcomes, count);
        lemma_taken_failure(outcomes, count + 1);
    } else {
        assert(outcomes.take(count) =~= outcomes);
    }
}

impl Steps {
    pub fn new() -> (steps: Steps)
        ensures
            steps@ == no_steps(),
    {
        let steps = Steps { steps: Vec::new(), failure: None };
        proof {
            assert(steps@.steps =~= no_steps().steps);
        }
        steps
    }

    /// Adds a step, or what is found wrong in its place, unless a check before
    /// it has failed.
    pub fn add(&mut self, outcome: Result<Step, String>)
        ensures
            final(self)@ == and_then(old(self)@, text::outcome_view(outcome)),
    {
        if self.failure.is_none() {
            let ghost before = self.steps@;
            match outcome {
                Ok(step) => {
                    self.steps.push(step);
                    proof {
                        assert(self.steps@.map_values(|step: Step| step@)
                            =~= before.map_values(|step: Step| step@).push(step@));
                    }
                },
                Err(message) => {
                    self.failure = Some(message);
                },
            }
        }
    }
}

/// A plan over some rows as a step.
pub fn of_rows(plan: Result<SlicePlan, String>) -> (outcome: Result<Step, String>)
    ensures
        text::outcome_view(outcome) == rows_step(text::outcome_view(plan)),
{
    match plan {
        Ok(slice) => Ok(Step::Rows(slice)),
        Err(message) => Err(message),
    }
}

/// A plan over whole inputs as a step.
pub fn of_whole(plan: Result<Plan, String>) -> (outcome: Result<Step, String>)
    ensures
        text::outcome_view(outcome) == whole_step(text::outcome_view(plan)),
{
    match plan {
        Ok(whole) => Ok(Step::Whole(whole)),
        Err(message) => Err(message),
    }
}

} // verus!
