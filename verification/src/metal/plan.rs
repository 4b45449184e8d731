//! Launch plans: the memory a step takes, its launches and what to read back.
use vstd::prelude::*;

use super::kernel::{Constants, Dispatch, Grid, Kernel, Threads};
use super::stats::Submission;
use super::wiring;
use super::wiring::Wiring;
use crate::text;

verus! {

/// The memory that a step is known to take.
#[derive(Debug, Clone, Copy, PartialEq, Eq, Structural)]
pub struct Profile {
    /// Bytes of weights that the step reads.
    pub weights: u64,
    /// Bytes of cached state.
    pub state: u64,
    /// Bytes of inputs, outputs and intermediate values.
    pub scratch: u64,
    /// Whether the weights are read from a file mapping rather than from memory of their own.
    pub mapped: bool,
}

/// A step for the device.
#[derive(Debug)]
pub struct Plan {
    pub profile: Profile,
    /// The message for weights that the device could not bind.
    pub unbound: String,
    /// The launches in order, or the message for a size that the kernels cannot take.
    pub command: Result<Vec<Dispatch>, String>,
    /// How the launches are connected, and where the outputs are.
    pub wiring: Wiring,
    /// How the command reaches the device.
    pub submission: Submission,
    /// The lengths in bytes of the buffers to allocate for intermediate values and outputs.
    pub buffers: Vec<u64>,
    /// The number of values to read back from each output.
    pub outputs: Vec<usize>,
    /// What the step is called when it fails.
    pub operation: String,
}

/// A plan with its texts and vectors as sequences.
#[verifier::ext_equal]
pub struct PlanView {
    pub profile: Profile,
    pub unbound: Seq<char>,
    pub command: Result<Seq<Dispatch>, Seq<char>>,
    pub wiring: Wiring,
    pub submission: Submission,
    pub buffers: Seq<u64>,
    pub outputs: Seq<usize>,
    pub operation: Seq<char>,
}

pub open spec fn command_view(command: Result<Vec<Dispatch>, String>) -> Result<
    Seq<Dispatch>,
    Seq<char>,
> {
    match command {
        Ok(dispatches) => Ok(dispatches@),
        Err(message) => Err(message@),
    }
}

impl View for Plan {
    type V = PlanView;

    open spec fn view(&self) -> PlanView {
        PlanView {
            profile: self.profile,
            unbound: self.unbound@,
            command: command_view(self.command),
            wiring: self.wiring,
            submission: self.submission,
            buffers: self.buffers@,
            outputs: self.outputs@,
            operation: self.operation@,
        }
    }
}

pub open spec fn kernels_of(command: Seq<Dispatch>) -> Seq<Kernel> {
    command.map_values(|dispatch: Dispatch| dispatch.kernel)
}

/// Whether the launches of a plan, if it has any, can be connected as it says.
pub open spec fn is_wired(plan: PlanView) -> bool {
    plan.command is Ok ==> wiring::wiring_fits(plan.wiring, kernels_of(plan.command->Ok_0))
}

/// A number of bytes, or the greatest that a counter holds.
pub open spec fn capped(bytes: int) -> u64 {
    if bytes > u64::MAX {
        u64::MAX
    } else {
        bytes as u64
    }
}

/// The bytes of so many 32-bit values.
pub open spec fn value_bytes(values: int) -> u64 {
    capped(4 * values)
}

/// The sum of two numbers of bytes.
pub open spec fn plus(left: u64, right: u64) -> u64 {
    capped(left + right)
}

/// The sum of numbers of bytes.
pub open spec fn total(parts: Seq<u64>) -> u64
    decreases parts.len(),
{
    if parts.len() == 0 {
        0
    } else {
        plus(total(parts.drop_last()), parts.last())
    }
}

/// A sum is above zero exactly where one of its parts is.
pub proof fn lemma_total_above_zero(parts: Seq<u64>)
    ensures
        total(parts) > 0 <==> exists|i: int| 0 <= i < parts.len() && (#[trigger] parts[i]) > 0,
    decreases parts.len(),
{
    if parts.len() > 0 {
        let shorter = parts.drop_last();
        lemma_total_above_zero(shorter);
        if total(parts) > 0 {
            if parts.last() > 0 {
                assert(parts[parts.len() - 1] > 0);
            } else {
                let i = choose|i: int| 0 <= i < shorter.len() && (#[trigger] shorter[i]) > 0;
                assert(parts[i] > 0);
            }
        } else {
            assert forall|i: int| 0 <= i < parts.len() implies (#[trigger] parts[i]) == 0 by {
                if i < parts.len() - 1 {
                    assert(shorter[i] == parts[i]);
                }
            }
        }
    }
}

pub fn bytes_of_values(values: usize) -> (bytes: u64)
    ensures
        bytes == value_bytes(values as int),
{
    match (values as u64).checked_mul(4) {
        Some(bytes) => bytes,
        None => u64::MAX,
    }
}

pub fn sum(left: u64, right: u64) -> (bytes: u64)
    ensures
        bytes == plus(left, right),
{
    match left.checked_add(right) {
        Some(bytes) => bytes,
        None => u64::MAX,
    }
}

/// A multiple of a number of bytes.
pub fn times(bytes: u64, factor: u64) -> (product: u64)
    ensures
        product == capped(bytes * factor),
{
    assert(bytes * factor >= 0) by (nonlinear_arith);
    match bytes.checked_mul(factor) {
        Some(product) => product,
        None => u64::MAX,
    }
}

/// The launches of a step with a single launch.
pub fn one_launch(dispatch: Dispatch) -> (command: Result<Vec<Dispatch>, String>)
    ensures
        command_view(command) == Ok::<Seq<Dispatch>, Seq<char>>(seq![dispatch]),
{
    let dispatches: Vec<Dispatch> = vec![dispatch];
    proof {
        assert(dispatches@ =~= seq![dispatch]);
    }
    Ok(dispatches)
}

/// The launches of a step that exceeds a limit.
pub fn no_launch(message: &str) -> (command: Result<Vec<Dispatch>, String>)
    ensures
        command_view(command) == Err::<Seq<Dispatch>, Seq<char>>(message@),
{
    Err(message.to_owned())
}

/// A plan with one output.
pub fn plan_of(
    profile: Profile,
    unbound: &str,
    command: Result<Vec<Dispatch>, String>,
    values: usize,
    operation: &str,
) -> (plan: Plan)
    ensures
        plan@ == single_output(
            profile,
            unbound@,
            command_view(command),
            values,
            operation@,
        ),
{
    let buffers: Vec<u64> = vec![bytes_of_values(values)];
    let outputs: Vec<usize> = vec![values];
    let plan = Plan {
        profile,
        unbound: unbound.to_owned(),
        command,
        wiring: Wiring::Alone,
        submission: Submission::AtOnce,
        buffers,
        outputs,
        operation: operation.to_owned(),
    };
    proof {
        assert(plan.buffers@ =~= seq![value_bytes(values as int)]);
        assert(plan.outputs@ =~= seq![values]);
    }
    plan
}

/// A plan that allocates one output and reads it back.
pub open spec fn single_output(
    profile: Profile,
    unbound: Seq<char>,
    command: Result<Seq<Dispatch>, Seq<char>>,
    values: usize,
    operation: Seq<char>,
) -> PlanView {
    PlanView {
        profile,
        unbound,
        command,
        wiring: Wiring::Alone,
        submission: Submission::AtOnce,
        buffers: seq![value_bytes(values as int)],
        outputs: seq![values],
        operation,
    }
}

/// The sum of numbers of bytes.
pub fn sum_all(parts: &Vec<u64>) -> (bytes: u64)
    ensures
        bytes == total(parts@),
{
    let mut bytes: u64 = 0;
    let mut index: usize = 0;
    proof {
        assert(parts@.take(0) =~= Seq::empty());
    }
    while index < parts.len()
        invariant
            index <= parts@.len(),
            bytes == total(parts@.take(index as int)),
        decreases parts@.len() - index,
    {
        proof {
            assert(parts@.take(index + 1).drop_last() =~= parts@.take(index as int));
        }
        bytes = sum(bytes, parts[index]);
        index += 1;
    }
    proof {
        assert(parts@.take(index as int) =~= parts@);
    }
    bytes
}

/// Launches with the messages of those that exceed a limit as character sequences.
pub open spec fn launch_views(launches: Seq<Result<Dispatch, String>>) -> Seq<
    Result<Dispatch, Seq<char>>,
> {
    launches.map_values(|launch: Result<Dispatch, String>| text::outcome(launch))
}

/// All launches in order, or the message of the first that exceeds a limit.
pub fn collect_launches(launches: &Vec<Result<Dispatch, String>>) -> (command: Result<
    Vec<Dispatch>,
    String,
>)
    ensures
        command_view(command) == text::collected(launch_views(launches@)),
{
    let ghost views = launch_views(launches@);
    let mut dispatches: Vec<Dispatch> = Vec::new();
    let mut index: usize = 0;
    proof {
        assert(views.take(0) =~= Seq::empty());
    }
    while index < launches.len()
        invariant
            index <= launches@.len(),
            views == launch_views(launches@),
            text::collected(views.take(index as int)) == Ok::<Seq<Dispatch>, Seq<char>>(
                dispatches@,
            ),
        decreases launches@.len() - index,
    {
        proof {
            text::lemma_collected_step(views, index as int);
        }
        match &launches[index] {
            Ok(dispatch) => dispatches.push(*dispatch),
            Err(message) => {
                return Err(message.clone());
            },
        }
        index += 1;
    }
    proof {
        assert(views.take(index as int) =~= views);
    }
    Ok(dispatches)
}

/// The launch of a kernel that takes the columns and rows of a matrix.
pub open spec fn matrix_launch(
    kernel: Kernel,
    columns: int,
    rows: int,
    columns_message: Seq<char>,
    rows_message: Seq<char>,
    groups: u64,
    most: u64,
) -> Result<Dispatch, Seq<char>> {
    if columns > u32::MAX {
        Err(columns_message)
    } else if rows > u32::MAX {
        Err(rows_message)
    } else {
        Ok(
            Dispatch {
                kernel,
                constants: Constants::Two(columns as u32, rows as u32),
                grid: Grid::Groups(groups),
                threads: Threads::AtMost(most),
            },
        )
    }
}

/// The launch of a kernel that takes the columns and rows of a matrix.
pub fn plan_matrix(
    kernel: Kernel,
    columns: usize,
    rows: usize,
    columns_message: &str,
    rows_message: &str,
    groups: u64,
    most: u64,
) -> (launch: Result<Dispatch, String>)
    ensures
        text::outcome(launch) == matrix_launch(
            kernel,
            columns as int,
            rows as int,
            columns_message@,
            rows_message@,
            groups,
            most,
        ),
{
    if columns as u64 > 0xffff_ffff {
        return Err(columns_message.to_owned());
    }
    if rows as u64 > 0xffff_ffff {
        return Err(rows_message.to_owned());
    }
    Ok(
        Dispatch {
            kernel,
            constants: Constants::Two(columns as u32, rows as u32),
            grid: Grid::Groups(groups),
            threads: Threads::AtMost(most),
        },
    )
}

/// A plan that reads some of the bytes of a tensor.
#[derive(Debug)]
pub struct SlicePlan {
    /// Where the bytes start in the tensor.
    pub start: usize,
    /// Where they end.
    pub end: usize,
    pub plan: Plan,
}

/// A plan that reads some of the bytes of a tensor, as sequences.
pub struct SliceView {
    pub start: int,
    pub end: int,
    pub plan: PlanView,
}

impl View for SlicePlan {
    type V = SliceView;

    open spec fn view(&self) -> SliceView {
        SliceView { start: self.start as int, end: self.end as int, plan: self.plan@ }
    }
}

/// A plan for the bytes of a tensor from `start` up to `end`.
pub open spec fn slice_plan(start: int, end: int, plan: Result<PlanView, Seq<char>>) -> Result<
    SliceView,
    Seq<char>,
> {
    match plan {
        Ok(plan) => Ok(SliceView { start, end, plan }),
        Err(message) => Err(message),
    }
}

/// A plan for the bytes of a tensor from `start` up to `end`.
pub fn plan_slice(start: usize, end: usize, plan: Result<Plan, String>) -> (result: Result<
    SlicePlan,
    String,
>)
    ensures
        text::outcome_view(result) == slice_plan(
            start as int,
            end as int,
            text::outcome_view(plan),
        ),
{
    match plan {
        Ok(plan) => Ok(SlicePlan { start, end, plan }),
        Err(message) => Err(message),
    }
}

} // verus!
