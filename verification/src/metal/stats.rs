//! Counters of the commands given to the device.
use vstd::prelude::*;

use crate::text;

verus! {

#[derive(Debug)]
pub struct CommandStats {
    submitted: u64,
    async_submitted: u64,
    waited: u64,
    wait_nanos: u64,
}

#[derive(Debug, Clone, Copy, PartialEq, Eq, Structural)]
pub struct CommandStatsSnapshot {
    pub submitted: u64,
    pub async_submitted: u64,
    pub waited: u64,
    pub wait_nanos: u64,
}

/// What the device reports of a command buffer.
#[derive(Debug, Clone, Copy, PartialEq, Eq, Structural)]
pub enum CommandStatus {
    NotEnqueued,
    Enqueued,
    Committed,
    Scheduled,
    Completed,
    Error,
}

/// `left + right` as a 64-bit counter counts it.
pub open spec fn counted(left: u64, right: int) -> u64 {
    ((left + right) % 0x1_0000_0000_0000_0000) as u64
}

pub open spec fn saturating_difference(left: u64, right: u64) -> u64 {
    if left > right {
        (left - right) as u64
    } else {
        0
    }
}

pub open spec fn status_text(status: CommandStatus) -> Seq<char> {
    match status {
        CommandStatus::NotEnqueued => "NotEnqueued"@,
        CommandStatus::Enqueued => "Enqueued"@,
        CommandStatus::Committed => "Committed"@,
        CommandStatus::Scheduled => "Scheduled"@,
        CommandStatus::Completed => "Completed"@,
        CommandStatus::Error => "Error"@,
    }
}

pub fn status_name(status: CommandStatus) -> (name: &'static str)
    ensures
        name@ == status_text(status),
{
    match status {
        CommandStatus::NotEnqueued => "NotEnqueued",
        CommandStatus::Enqueued => "Enqueued",
        CommandStatus::Committed => "Committed",
        CommandStatus::Scheduled => "Scheduled",
        CommandStatus::Completed => "Completed",
        CommandStatus::Error => "Error",
    }
}

impl Default for CommandStatsSnapshot {
    fn default() -> (snapshot: CommandStatsSnapshot)
        ensures
            snapshot == (CommandStatsSnapshot {
                submitted: 0,
                async_submitted: 0,
                waited: 0,
                wait_nanos: 0,
            }),
    {
        CommandStatsSnapshot { submitted: 0, async_submitted: 0, waited: 0, wait_nanos: 0 }
    }
}

impl CommandStatsSnapshot {
    /// What has been counted since an earlier snapshot; a counter that has
    /// gone back counts as unchanged.
    pub fn delta_since(self, before: CommandStatsSnapshot) -> (delta: CommandStatsSnapshot)
        ensures
            delta == (CommandStatsSnapshot {
                submitted: saturating_difference(self.submitted, before.submitted),
                async_submitted: saturating_difference(
                    self.async_submitted,
                    before.async_submitted,
                ),
                waited: saturating_difference(self.waited, before.waited),
                wait_nanos: saturating_difference(self.wait_nanos, before.wait_nanos),
            }),
    {
        CommandStatsSnapshot {
            submitted: self.submitted.saturating_sub(before.submitted),
            async_submitted: self.async_submitted.saturating_sub(before.async_submitted),
            waited: self.waited.saturating_sub(before.waited),
            wait_nanos: self.wait_nanos.saturating_sub(before.wait_nanos),
        }
    }
}

impl View for CommandStats {
    type V = CommandStatsSnapshot;

    closed spec fn view(&self) -> CommandStatsSnapshot {
        CommandStatsSnapshot {
            submitted: self.submitted,
            async_submitted: self.async_submitted,
            waited: self.waited,
            wait_nanos: self.wait_nanos,
        }
    }
}

impl Default for CommandStats {
    fn default() -> (stats: CommandStats)
        ensures
            stats@ == (CommandStatsSnapshot {
                submitted: 0,
                async_submitted: 0,
                waited: 0,
                wait_nanos: 0,
            }),
    {
        CommandStats { submitted: 0, async_submitted: 0, waited: 0, wait_nanos: 0 }
    }
}

/// The counters after one more submission.
pub open spec fn after_submission(stats: CommandStatsSnapshot) -> CommandStatsSnapshot {
    CommandStatsSnapshot { submitted: counted(stats.submitted, 1), ..stats }
}

/// The counters after one more submission that nobody waits for at once.
pub open spec fn after_async_submission(stats: CommandStatsSnapshot) -> CommandStatsSnapshot {
    CommandStatsSnapshot {
        submitted: counted(stats.submitted, 1),
        async_submitted: counted(stats.async_submitted, 1),
        ..stats
    }
}

/// The counters after one more wait.
pub open spec fn after_wait(stats: CommandStatsSnapshot, nanos: int) -> CommandStatsSnapshot {
    CommandStatsSnapshot {
        waited: counted(stats.waited, 1),
        wait_nanos: counted(stats.wait_nanos, if nanos < u64::MAX { nanos } else { u64::MAX as int }),
        ..stats
    }
}

/// A command that is waited for later is counted like one that is waited for
/// at once, and as asynchronous besides.
pub proof fn law_later_wait_counts_the_same(stats: CommandStatsSnapshot, nanos: int)
    ensures
        ({
            let at_once = after_wait(after_submission(stats), nanos);
            let later = after_wait(after_async_submission(stats), nanos);
            &&& later.submitted == at_once.submitted
            &&& later.waited == at_once.waited
            &&& later.wait_nanos == at_once.wait_nanos
            &&& later.async_submitted == counted(at_once.async_submitted, 1)
        }),
{
}

/// What two snapshots differ by is what was recorded between them, as long as
/// no counter runs over.
pub proof fn law_delta_is_what_was_recorded(stats: CommandStatsSnapshot, nanos: u64)
    requires
        stats.submitted < u64::MAX,
        stats.waited < u64::MAX,
        stats.wait_nanos + nanos <= u64::MAX,
    ensures
        ({
            let after = after_wait(after_submission(stats), nanos as int);
            &&& saturating_difference(after.submitted, stats.submitted) == 1
            &&& saturating_difference(after.async_submitted, stats.async_submitted) == 0
            &&& saturating_difference(after.waited, stats.waited) == 1
            &&& saturating_difference(after.wait_nanos, stats.wait_nanos) == nanos
        }),
{
}

impl CommandStats {
    pub fn record_submission(&mut self)
        ensures
            final(self)@ == after_submission(old(self)@),
    {
        self.submitted = self.submitted.wrapping_add(1);
    }

    pub fn record_async_submission(&mut self)
        ensures
            final(self)@ == after_async_submission(old(self)@),
    {
        self.record_submission();
        self.async_submitted = self.async_submitted.wrapping_add(1);
    }

    /// Counts a wait of so many nanoseconds.
    pub fn record_wait(&mut self, nanos: u128)
        ensures
            final(self)@ == after_wait(old(self)@, nanos as int),
    {
        self.waited = self.waited.wrapping_add(1);
        let nanos: u64 = if nanos < 0xffff_ffff_ffff_ffff { nanos as u64 } else {
            0xffff_ffff_ffff_ffff
        };
        self.wait_nanos = self.wait_nanos.wrapping_add(nanos);
    }

    pub fn snapshot(&self) -> (snapshot: CommandStatsSnapshot)
        ensures
            snapshot == self@,
    {
        CommandStatsSnapshot {
            submitted: self.submitted,
            async_submitted: self.async_submitted,
            waited: self.waited,
            wait_nanos: self.wait_nanos,
        }
    }
}

/// What a finished wait on a command comes to.
pub open spec fn command_outcome(operation: Seq<char>, status: CommandStatus) -> Result<
    (),
    Seq<char>,
> {
    if status == CommandStatus::Completed {
        Ok(())
    } else {
        Err("Metal "@ + operation + " failed: "@ + status_text(status))
    }
}

/// What a finished wait on a command comes to.
pub fn command_result(operation: &str, status: CommandStatus) -> (result: Result<(), String>)
    ensures
        text::outcome(result) == command_outcome(operation@, status),
{
    if status == CommandStatus::Completed {
        Ok(())
    } else {
        Err(text::concat4("Metal ", operation, " failed: ", status_name(status)))
    }
}

/// How a command reaches the device.
#[derive(Debug, Clone, Copy, PartialEq, Eq, Structural)]
pub enum Submission {
    /// It is submitted and waited for in one go.
    AtOnce,
    /// It is submitted as a pending command, whoever waits for it, and counts
    /// as asynchronous.
    Pending,
}

/// The counters after a command has been submitted and waited for.
pub open spec fn after_finished(
    stats: CommandStatsSnapshot,
    submission: Submission,
    nanos: int,
) -> CommandStatsSnapshot {
    match submission {
        Submission::AtOnce => after_wait(after_submission(stats), nanos),
        Submission::Pending => after_wait(after_async_submission(stats), nanos),
    }
}

/// A submitted command that has not been waited for: its last known status,
/// the number of values in each of its outputs, and bytes that the device still
/// reads.
#[derive(Debug)]
pub struct PendingMatvec {
    status: CommandStatus,
    outputs: Vec<usize>,
    keepalive: Vec<Vec<u8>>,
}

pub open spec fn kept_bytes(keepalive: Seq<Vec<u8>>) -> Seq<Seq<u8>> {
    keepalive.map_values(|bytes: Vec<u8>| bytes@)
}

/// A submitted command by its status, outputs and kept bytes.
#[verifier::ext_equal]
pub struct PendingView {
    pub status: CommandStatus,
    pub outputs: Seq<usize>,
    pub kept: Seq<Seq<u8>>,
}

impl View for PendingMatvec {
    type V = PendingView;

    closed spec fn view(&self) -> PendingView {
        PendingView {
            status: self.status,
            outputs: self.outputs@,
            kept: kept_bytes(self.keepalive@),
        }
    }
}

impl PendingMatvec {
    /// A command that has just been committed.
    pub fn submitted(outputs: Vec<usize>) -> (pending: PendingMatvec)
        ensures
            pending@ == (PendingView {
                status: CommandStatus::Committed,
                outputs: outputs@,
                kept: Seq::empty(),
            }),
    {
        let pending = PendingMatvec {
            status: CommandStatus::Committed,
            outputs,
            keepalive: Vec::new(),
        };
        proof {
            assert(pending@.kept =~= Seq::empty());
        }
        pending
    }

    /// Lets the command own bytes until it has been waited for.
    pub fn with_keepalive(self, keepalive: Vec<Vec<u8>>) -> (pending: PendingMatvec)
        ensures
            pending@ == (PendingView { kept: kept_bytes(keepalive@), ..self@ }),
    {
        PendingMatvec { status: self.status, outputs: self.outputs, keepalive }
    }

    pub fn status(&self) -> (status: CommandStatus)
        ensures
            status == self@.status,
    {
        self.status
    }

    /// Takes note of what the device reports.
    pub fn note_status(&mut self, status: CommandStatus)
        ensures
            final(self)@ == (PendingView { status, ..old(self)@ }),
    {
        self.status = status;
    }

    /// Ends the command after a wait of so many nanoseconds: how many values
    /// to read of each output, or that the command failed.
    pub fn wait(self, nanos: u128, stats: &mut CommandStats) -> (result: Result<Vec<usize>, String>)
        ensures
            final(stats)@ == after_wait(old(stats)@, nanos as int),
            match command_outcome("command"@, self@.status) {
                Ok(()) => result is Ok && result->Ok_0@ == self@.outputs,
                Err(message) => result is Err && result->Err_0@ == message,
            },
    {
        stats.record_wait(nanos);
        match command_result("command", self.status) {
            Ok(()) => Ok(self.outputs),
            Err(message) => Err(message),
        }
    }
}

} // verus!
