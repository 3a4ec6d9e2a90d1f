//! What happens when an agent's process ends: the status recorded, whether
//! changes are committed, and what runs next.
use vstd::prelude::*;
use vstd::string::*;
use crate::status::TaskStatus;

verus! {

/// The state of an execution process.
#[derive(Debug, Clone, Copy, PartialEq, Eq, Structural)]
pub enum ExecutionProcessStatus {
    Running,
    Completed,
    Failed,
    Killed,
}

/// Why an execution process was started.
#[derive(Debug, Clone, Copy, PartialEq, Eq, Structural)]
pub enum ExecutionProcessRunReason {
    SetupScript,
    CleanupScript,
    CodingAgent,
    DevServer,
    AutoPlan,
}

/// The result an executor signals when it has finished its work.
#[derive(Debug, Clone, Copy, PartialEq, Eq, Structural)]
pub enum ExecutorExitResult {
    Success,
    Failure,
}

/// How a watched process ended.
#[derive(Debug, Clone, Copy, PartialEq, Eq, Structural)]
pub enum ProcessEnd {
    /// The executor signalled completion and the process group was killed;
    /// `None` when the signal channel closed without a result.
    Signalled(Option<ExecutorExitResult>),
    /// The process exited by itself: its exit code (none when a signal ended
    /// it) and whether the exit counts as success.
    Exited { code: Option<i32>, success: bool },
    /// Waiting for the process failed.
    WaitFailed,
}

/// The exit code and status recorded for a process end: an executor's success
/// (or a closed signal channel) is code 0 and completed, its failure code 1 and
/// failed; an exit keeps its code (-1 when there is none); a failed wait records
/// no code and failed.
pub open spec fn completion_of(end: ProcessEnd) -> (Option<i64>, ExecutionProcessStatus) {
    match end {
        ProcessEnd::Signalled(Some(ExecutorExitResult::Failure)) => (Some(1), ExecutionProcessStatus::Failed),
        ProcessEnd::Signalled(_) => (Some(0), ExecutionProcessStatus::Completed),
        ProcessEnd::Exited { code, success } => (
            Some(
                match code {
                    Some(c) => c as i64,
                    None => -1i64,
                },
            ),
            if success {
                ExecutionProcessStatus::Completed
            } else {
                ExecutionProcessStatus::Failed
            },
        ),
        ProcessEnd::WaitFailed => (None, ExecutionProcessStatus::Failed),
    }
}

/// The exit code and status to record for how a process ended.
pub fn completion_status(end: ProcessEnd) -> (r: (Option<i64>, ExecutionProcessStatus))
    ensures
        r == completion_of(end),
{
    match end {
        ProcessEnd::Signalled(Some(ExecutorExitResult::Failure)) => (Some(1), ExecutionProcessStatus::Failed),
        ProcessEnd::Signalled(_) => (Some(0), ExecutionProcessStatus::Completed),
        ProcessEnd::Exited { code, success } => {
            let c: i64 = match code {
                Some(c) => c as i64,
                None => -1,
            };
            (
                Some(c),
                if success {
                    ExecutionProcessStatus::Completed
                } else {
                    ExecutionProcessStatus::Failed
                },
            )
        },
        ProcessEnd::WaitFailed => (None, ExecutionProcessStatus::Failed),
    }
}

/// Failed or killed: an error summary is extracted, and queued messages are discarded.
pub open spec fn failed_or_killed(status: ExecutionProcessStatus) -> bool {
    status == ExecutionProcessStatus::Failed || status == ExecutionProcessStatus::Killed
}

/// Whether an error summary is extracted for a process that ended with this status.
pub fn needs_error_summary(status: ExecutionProcessStatus) -> (r: bool)
    ensures
        r == failed_or_killed(status),
{
    status == ExecutionProcessStatus::Failed || status == ExecutionProcessStatus::Killed
}

/// What the exit monitor has just learned about an ended execution.
#[derive(Debug, Clone, Copy, PartialEq, Eq, Structural)]
pub enum ExitEvent {
    /// The execution's context loaded: why it ran, its recorded status and exit code.
    ContextLoaded { run_reason: ExecutionProcessRunReason, status: ExecutionProcessStatus, exit_code: Option<i64> },
    /// Committing finished: whether changes were committed (a failed commit counts as committed).
    ChangesCommitted { run_reason: ExecutionProcessRunReason, committed: bool },
    /// Whether the coding agent made commits of its own.
    AgentCommitsFound(bool),
    /// Whether the execution is to be finalized, its status, and whether a
    /// follow-up message is queued for its session.
    FinalizeChecked { should_finalize: bool, status: ExecutionProcessStatus, queued_message: bool },
    /// Whether the queued follow-up started.
    FollowUpStarted(bool),
}

/// What the exit monitor does next.
#[derive(Debug, Clone, Copy, PartialEq, Eq, Structural)]
pub enum ExitAction {
    /// Extract the plan and run the planning steps, clean up the plan
    /// workspace, and skip the commit and finalize steps.
    HandleAutoPlanCompletion,
    /// Commit the workspace's changes.
    CommitChanges,
    /// Ask whether the coding agent made commits of its own.
    CheckAgentCommits,
    /// Start the workspace's next action, then check whether to finalize.
    StartNextAction,
    /// Skip the next action (the agent changed nothing), finalize the task, then
    /// check whether to finalize.
    SkipNextActionAndFinalize,
    /// Check whether to finalize.
    CheckFinalize,
    /// Consume the queued follow-up message and start it.
    StartQueuedFollowUp,
    /// Finalize the task (a queued message, if any, is discarded).
    FinalizeTask,
    /// Nothing more to decide.
    Done,
}

/// The step that follows each thing the exit monitor learns.
pub open spec fn exit_step(event: ExitEvent) -> ExitAction {
    match event {
        ExitEvent::ContextLoaded { run_reason, status, exit_code } => if run_reason
            == ExecutionProcessRunReason::AutoPlan {
            ExitAction::HandleAutoPlanCompletion
        } else if (status == ExecutionProcessStatus::Completed && exit_code == Some(0i64)) || (run_reason
            == ExecutionProcessRunReason::CleanupScript && status != ExecutionProcessStatus::Running) {
            ExitAction::CommitChanges
        } else {
            ExitAction::CheckFinalize
        },
        ExitEvent::ChangesCommitted { run_reason, committed } => if run_reason
            == ExecutionProcessRunReason::CodingAgent && !committed {
            ExitAction::CheckAgentCommits
        } else {
            ExitAction::StartNextAction
        },
        ExitEvent::AgentCommitsFound(found) => if found {
            ExitAction::StartNextAction
        } else {
            ExitAction::SkipNextActionAndFinalize
        },
        ExitEvent::FinalizeChecked { should_finalize, status, queued_message } => if !should_finalize {
            ExitAction::Done
        } else if queued_message && !failed_or_killed(status) {
            ExitAction::StartQueuedFollowUp
        } else {
            ExitAction::FinalizeTask
        },
        ExitEvent::FollowUpStarted(started) => if started {
            ExitAction::Done
        } else {
            ExitAction::FinalizeTask
        },
    }
}

/// Decides the exit monitor's next step: a planning run takes its own path; a
/// successful run (or a finished cleanup script) commits its changes and starts
/// the next action, unless a coding agent changed nothing; then a finalized
/// execution starts its queued follow-up when it did not fail, else is finalized.
pub fn next_exit_action(event: ExitEvent) -> (r: ExitAction)
    ensures
        r == exit_step(event),
{
    match event {
        ExitEvent::ContextLoaded { run_reason, status, exit_code } => {
            if run_reason == ExecutionProcessRunReason::AutoPlan {
                return ExitAction::HandleAutoPlanCompletion;
            }
            let success = status == ExecutionProcessStatus::Completed && match exit_code {
                Some(c) => c == 0,
                None => false,
            };
            let cleanup_done = run_reason == ExecutionProcessRunReason::CleanupScript && status
                != ExecutionProcessStatus::Running;
            if success || cleanup_done {
                ExitAction::CommitChanges
            } else {
                ExitAction::CheckFinalize
            }
        },
        ExitEvent::ChangesCommitted { run_reason, committed } => {
            if run_reason == ExecutionProcessRunReason::CodingAgent && !committed {
                ExitAction::CheckAgentCommits
            } else {
                ExitAction::StartNextAction
            }
        },
        ExitEvent::AgentCommitsFound(found) => {
            if found {
                ExitAction::StartNextAction
            } else {
                ExitAction::SkipNextActionAndFinalize
            }
        },
        ExitEvent::FinalizeChecked { should_finalize, status, queued_message } => {
            if !should_finalize {
                ExitAction::Done
            } else if queued_message && !needs_error_summary(status) {
                ExitAction::StartQueuedFollowUp
            } else {
                ExitAction::FinalizeTask
            }
        },
        ExitEvent::FollowUpStarted(started) => {
            if started {
                ExitAction::Done
            } else {
                ExitAction::FinalizeTask
            }
        },
    }
}

/// A queued follow-up never starts after a failed or killed execution.
pub proof fn lemma_no_follow_up_after_failure(should_finalize: bool, status: ExecutionProcessStatus, queued: bool)
    requires
        failed_or_killed(status),
    ensures
        exit_step(ExitEvent::FinalizeChecked { should_finalize, status, queued_message: queued })
            != ExitAction::StartQueuedFollowUp,
{
}

/// Only coding agent runs and cleanup scripts have their changes committed.
pub fn commits_changes(run_reason: ExecutionProcessRunReason) -> (r: bool)
    ensures
        r == (run_reason == ExecutionProcessRunReason::CodingAgent || run_reason
            == ExecutionProcessRunReason::CleanupScript),
{
    run_reason == ExecutionProcessRunReason::CodingAgent || run_reason == ExecutionProcessRunReason::CleanupScript
}

/// The commit message for an execution's changes: a coding agent's own summary
/// when it left one, else a message naming the workspace (or, for other runs,
/// the execution process).
pub open spec fn commit_message_text(
    run_reason: ExecutionProcessRunReason,
    agent_summary: Option<Seq<char>>,
    workspace_id: Seq<char>,
    process_id: Seq<char>,
) -> Seq<char> {
    match run_reason {
        ExecutionProcessRunReason::CodingAgent => match agent_summary {
            Some(s) => s,
            None => "Commit changes from coding agent for workspace "@ + workspace_id,
        },
        ExecutionProcessRunReason::CleanupScript => "Cleanup script changes for workspace "@ + workspace_id,
        _ => "Changes from execution process "@ + process_id,
    }
}

/// Chooses the commit message for an execution's changes.
pub fn commit_message(
    run_reason: ExecutionProcessRunReason,
    agent_summary: Option<String>,
    workspace_id: &str,
    process_id: &str,
) -> (r: String)
    ensures
        r@ == commit_message_text(
            run_reason,
            match agent_summary {
                Some(s) => Some(s@),
                None => None,
            },
            workspace_id@,
            process_id@,
        ),
{
    match run_reason {
        ExecutionProcessRunReason::CodingAgent => match agent_summary {
            Some(s) => s,
            None => {
                let mut m = String::from_str("Commit changes from coding agent for workspace ");
                m.append(workspace_id);
                m
            },
        },
        ExecutionProcessRunReason::CleanupScript => {
            let mut m = String::from_str("Cleanup script changes for workspace ");
            m.append(workspace_id);
            m
        },
        _ => {
            let mut m = String::from_str("Changes from execution process ");
            m.append(process_id);
            m
        },
    }
}

/// The status a task moves to when its execution is stopped: `qa`, except for
/// dev servers and planning runs, which leave it alone.
pub fn status_after_stop(run_reason: ExecutionProcessRunReason) -> (r: Option<TaskStatus>)
    ensures
        r == if run_reason == ExecutionProcessRunReason::DevServer || run_reason
            == ExecutionProcessRunReason::AutoPlan {
            None::<TaskStatus>
        } else {
            Some(TaskStatus::QA)
        },
{
    if run_reason == ExecutionProcessRunReason::DevServer || run_reason == ExecutionProcessRunReason::AutoPlan {
        None
    } else {
        Some(TaskStatus::QA)
    }
}

} // verus!
