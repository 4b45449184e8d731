//! Plans for several matrices that multiply one input in a single command.
use vstd::prelude::*;

use super::kernel::{Dispatch, Kernel};
use super::plan;
use super::plan::{Plan, PlanView, Profile};
use super::stats::Submission;
use super::wiring;
use super::wiring::Wiring;
use crate::text;

verus! {

/// One matrix of a group: its rows, the bytes that it is read from, and how
/// its kernel is launched.
#[derive(Debug, Clone, Copy, PartialEq, Eq, Structural)]
pub struct Member {
    pub rows: usize,
    pub bytes: u64,
    pub kernel: Kernel,
    pub groups: u64,
    pub most: u64,
}

/// What is the same for all matrices of a group.
pub struct Group<'a> {
    /// The columns of every matrix, which is the number of values in the input.
    pub columns: usize,
    pub columns_message: &'a str,
    pub rows_message: &'a str,
    pub operation: &'a str,
    /// Whether the weights are read from a file mapping.
    pub mapped: bool,
}

/// The bytes of outputs with so many rows.
pub open spec fn row_bytes(rows: Seq<usize>) -> Seq<u64> {
    rows.map_values(|count: usize| plan::value_bytes(count as int))
}

/// The memory for the input and the outputs of a group.
pub open spec fn group_scratch(input: usize, rows: Seq<usize>) -> u64 {
    plan::total(seq![plan::value_bytes(input as int)] + row_bytes(rows))
}

/// A plan with an output for each matrix.
pub open spec fn outputs_plan(
    profile: Profile,
    command: Result<Seq<Dispatch>, Seq<char>>,
    wiring: Wiring,
    submission: Submission,
    rows: Seq<usize>,
    operation: Seq<char>,
) -> PlanView {
    PlanView {
        profile,
        unbound: ""@,
        command,
        wiring,
        submission,
        buffers: row_bytes(rows),
        outputs: rows,
        operation,
    }
}

pub open spec fn member_rows(members: Seq<Member>) -> Seq<usize> {
    members.map_values(|member: Member| member.rows)
}

pub open spec fn member_bytes(members: Seq<Member>) -> Seq<u64> {
    members.map_values(|member: Member| member.bytes)
}

pub open spec fn member_launch(member: Member, group: Group) -> Result<Dispatch, Seq<char>> {
    plan::matrix_launch(
        member.kernel,
        group.columns as int,
        member.rows as int,
        group.columns_message@,
        group.rows_message@,
        member.groups,
        member.most,
    )
}

pub open spec fn member_launches(members: Seq<Member>, group: Group) -> Seq<
    Result<Dispatch, Seq<char>>,
> {
    members.map_values(|member: Member| member_launch(member, group))
}

/// The plan of a group: one launch and one output for each matrix.
pub open spec fn group_plan(members: Seq<Member>, group: Group) -> PlanView {
    outputs_plan(
        Profile {
            weights: if group.mapped {
                plan::total(member_bytes(members))
            } else {
                0
            },
            state: 0,
            scratch: group_scratch(group.columns, member_rows(members)),
            mapped: group.mapped,
        },
        text::collected(member_launches(members, group)),
        Wiring::Group,
        Submission::AtOnce,
        member_rows(members),
        group.operation@,
    )
}

/// The bytes of outputs with so many rows.
pub fn bytes_of_rows(rows: &Vec<usize>) -> (bytes: Vec<u64>)
    ensures
        bytes@ == row_bytes(rows@),
{
    let mut bytes: Vec<u64> = Vec::new();
    let mut index: usize = 0;
    while index < rows.len()
        invariant
            index <= rows@.len(),
            bytes@ =~= row_bytes(rows@).take(index as int),
        decreases rows@.len() - index,
    {
        bytes.push(plan::bytes_of_values(rows[index]));
        index += 1;
    }
    proof {
        assert(row_bytes(rows@).take(index as int) =~= row_bytes(rows@));
    }
    bytes
}

/// The memory for the input and the outputs of a group.
pub fn scratch_of_group(input: usize, rows: &Vec<usize>) -> (bytes: u64)
    ensures
        bytes == group_scratch(input, rows@),
{
    let mut parts: Vec<u64> = vec![plan::bytes_of_values(input)];
    let mut rest = bytes_of_rows(rows);
    parts.append(&mut rest);
    proof {
        assert(parts@ =~= seq![plan::value_bytes(input as int)] + row_bytes(rows@));
    }
    plan::sum_all(&parts)
}

/// A group of kernels that multiply can be connected.
pub proof fn lemma_group_is_wired(members: Seq<Member>, group: Group)
    requires
        members.len() <= usize::MAX,
        forall|i: int|
            0 <= i < members.len() ==> wiring::multiplies((#[trigger] members[i]).kernel),
    ensures
        plan::is_wired(group_plan(members, group)),
{
    let planned = group_plan(members, group);
    if planned.command is Ok {
        let launches = member_launches(members, group);
        text::lemma_collected_values(launches);
        let kernels = plan::kernels_of(planned.command->Ok_0);
        assert forall|i: int| 0 <= i < kernels.len() implies wiring::multiplies(
            #[trigger] kernels[i],
        ) by {
            assert(launches[i] == member_launch(members[i], group));
        }
    }
}

/// A plan with an output for each matrix.
pub fn plan_outputs(
    profile: Profile,
    command: Result<Vec<Dispatch>, String>,
    wiring: Wiring,
    submission: Submission,
    rows: Vec<usize>,
    operation: &str,
) -> (plan: Plan)
    ensures
        plan@ == outputs_plan(
            profile,
            plan::command_view(command),
            wiring,
            submission,
            rows@,
            operation@,
        ),
{
    Plan {
        profile,
        unbound: "".to_owned(),
        command,
        wiring,
        submission,
        buffers: bytes_of_rows(&rows),
        outputs: rows,
        operation: operation.to_owned(),
    }
}

/// The plan of a group: one launch and one output for each matrix.
pub fn plan_group(members: &Vec<Member>, group: &Group) -> (plan: Plan)
    ensures
        plan@ == group_plan(members@, *group),
{
    let mut rows: Vec<usize> = Vec::new();
    let mut bytes: Vec<u64> = Vec::new();
    let mut launches: Vec<Result<Dispatch, String>> = Vec::new();
    let mut index: usize = 0;
    while index < members.len()
        invariant
            index <= members@.len(),
            rows@ =~= member_rows(members@).take(index as int),
            bytes@ =~= member_bytes(members@).take(index as int),
            plan::launch_views(launches@) =~= member_launches(members@, *group).take(index as int),
        decreases members@.len() - index,
    {
        let member = members[index];
        let ghost before = launches@;
        rows.push(member.rows);
        bytes.push(member.bytes);
        launches.push(
            plan::plan_matrix(
                member.kernel,
                group.columns,
                member.rows,
                group.columns_message,
                group.rows_message,
                member.groups,
                member.most,
            ),
        );
        proof {
            assert(plan::launch_views(launches@) =~= plan::launch_views(before).push(
                member_launch(member, *group),
            ));
        }
        index += 1;
    }
    proof {
        assert(member_rows(members@).take(index as int) =~= member_rows(members@));
        assert(member_bytes(members@).take(index as int) =~= member_bytes(members@));
        assert(member_launches(members@, *group).take(index as int) =~= member_launches(
            members@,
            *group,
        ));
    }
    let weights: u64 = if group.mapped { plan::sum_all(&bytes) } else { 0 };
    let scratch: u64 = scratch_of_group(group.columns, &rows);
    plan_outputs(
        Profile { weights, state: 0, scratch, mapped: group.mapped },
        plan::collect_launches(&launches),
        Wiring::Group,
        Submission::AtOnce,
        rows,
        group.operation,
    )
}

} // verus!
