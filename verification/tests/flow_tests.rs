use wickeban_core::execution::{
    commit_message, commits_changes, completion_status, needs_error_summary, next_exit_action, status_after_stop,
    ExecutionProcessRunReason, ExecutionProcessStatus, ExecutorExitResult, ExitAction, ExitEvent, ProcessEnd,
};
use wickeban_core::ralph::{
    complete_transition, next_advance_action, next_session_action, shares_parent_workspace, start_transition,
    AdvanceAction, AdvanceEvent, AdvanceResult, SessionAction, SessionAdvanceResult, SessionEvent,
};
use wickeban_core::status::TaskStatus;

#[test]
fn loop_start_and_completion_moves() {
    assert_eq!(start_transition(TaskStatus::Ready), Some(TaskStatus::Ralph));
    assert_eq!(start_transition(TaskStatus::Ralph), Some(TaskStatus::Ralph));
    assert_eq!(start_transition(TaskStatus::Backlog), None);
    assert_eq!(complete_transition(TaskStatus::Ralph), Some(TaskStatus::QA));
    assert_eq!(complete_transition(TaskStatus::Done), None);
    assert!(shares_parent_workspace(TaskStatus::Ralph));
    assert!(!shares_parent_workspace(TaskStatus::QA));
}

#[test]
fn advancing_the_loop_step_by_step() {
    assert_eq!(
        next_advance_action(AdvanceEvent::ParentStatus(TaskStatus::QA)),
        AdvanceAction::Finish(AdvanceResult::NextChildStarted)
    );
    assert_eq!(next_advance_action(AdvanceEvent::ParentStatus(TaskStatus::Ralph)), AdvanceAction::MarkChildDoneAndFindNext);
    assert_eq!(next_advance_action(AdvanceEvent::NextChildFound(true)), AdvanceAction::StartNextChild);
    assert_eq!(next_advance_action(AdvanceEvent::NextChildFound(false)), AdvanceAction::CheckSprintChildrenDone);
    assert_eq!(next_advance_action(AdvanceEvent::SprintChildrenDone(false)), AdvanceAction::FlagParentForReview);
    assert_eq!(next_advance_action(AdvanceEvent::SprintChildrenDone(true)), AdvanceAction::CheckAllParentChildrenDone);
    assert_eq!(
        next_advance_action(AdvanceEvent::AllParentChildrenDone(false)),
        AdvanceAction::Finish(AdvanceResult::NextChildStarted)
    );
    assert_eq!(next_advance_action(AdvanceEvent::AllParentChildrenDone(true)), AdvanceAction::AdvanceSession);
    assert_eq!(
        next_advance_action(AdvanceEvent::SessionAdvanced(SessionAdvanceResult::NextTaskStarted)),
        AdvanceAction::Finish(AdvanceResult::NextSessionTaskStarted)
    );
    assert_eq!(
        next_advance_action(AdvanceEvent::SessionAdvanced(SessionAdvanceResult::NoSession)),
        AdvanceAction::CompleteParent
    );
}

#[test]
fn moving_a_session_on() {
    assert_eq!(
        next_session_action(SessionEvent::SessionFound(false)),
        SessionAction::Finish(SessionAdvanceResult::NoSession)
    );
    assert_eq!(next_session_action(SessionEvent::SessionFound(true)), SessionAction::FindNextTask);
    assert_eq!(next_session_action(SessionEvent::NextTaskFound(false)), SessionAction::CompleteSession);
    assert_eq!(next_session_action(SessionEvent::NextTaskFound(true)), SessionAction::HandOverWorkspace);
    assert_eq!(next_session_action(SessionEvent::FirstChildFound(true)), SessionAction::StartFirstChild);
    assert_eq!(
        next_session_action(SessionEvent::FirstChildFound(false)),
        SessionAction::Finish(SessionAdvanceResult::NextTaskStarted)
    );
}

#[test]
fn process_ends_map_to_recorded_status() {
    assert_eq!(
        completion_status(ProcessEnd::Signalled(Some(ExecutorExitResult::Success))),
        (Some(0), ExecutionProcessStatus::Completed)
    );
    assert_eq!(
        completion_status(ProcessEnd::Signalled(Some(ExecutorExitResult::Failure))),
        (Some(1), ExecutionProcessStatus::Failed)
    );
    assert_eq!(completion_status(ProcessEnd::Signalled(None)), (Some(0), ExecutionProcessStatus::Completed));
    assert_eq!(
        completion_status(ProcessEnd::Exited { code: Some(3), success: false }),
        (Some(3), ExecutionProcessStatus::Failed)
    );
    assert_eq!(
        completion_status(ProcessEnd::Exited { code: None, success: false }),
        (Some(-1), ExecutionProcessStatus::Failed)
    );
    assert_eq!(completion_status(ProcessEnd::WaitFailed), (None, ExecutionProcessStatus::Failed));
    assert!(needs_error_summary(ExecutionProcessStatus::Killed));
    assert!(!needs_error_summary(ExecutionProcessStatus::Completed));
}

#[test]
fn exit_monitor_steps() {
    assert_eq!(
        next_exit_action(ExitEvent::ContextLoaded { run_reason: ExecutionProcessRunReason::AutoPlan, status: ExecutionProcessStatus::Failed, exit_code: None }),
        ExitAction::HandleAutoPlanCompletion
    );
    assert_eq!(
        next_exit_action(ExitEvent::ContextLoaded { run_reason: ExecutionProcessRunReason::CodingAgent, status: ExecutionProcessStatus::Completed, exit_code: Some(0) }),
        ExitAction::CommitChanges
    );
    assert_eq!(
        next_exit_action(ExitEvent::ContextLoaded { run_reason: ExecutionProcessRunReason::CodingAgent, status: ExecutionProcessStatus::Completed, exit_code: Some(1) }),
        ExitAction::CheckFinalize
    );
    assert_eq!(
        next_exit_action(ExitEvent::ContextLoaded { run_reason: ExecutionProcessRunReason::CleanupScript, status: ExecutionProcessStatus::Failed, exit_code: Some(2) }),
        ExitAction::CommitChanges
    );
    assert_eq!(
        next_exit_action(ExitEvent::ChangesCommitted { run_reason: ExecutionProcessRunReason::CodingAgent, committed: false }),
        ExitAction::CheckAgentCommits
    );
    assert_eq!(
        next_exit_action(ExitEvent::ChangesCommitted { run_reason: ExecutionProcessRunReason::SetupScript, committed: false }),
        ExitAction::StartNextAction
    );
    assert_eq!(next_exit_action(ExitEvent::AgentCommitsFound(false)), ExitAction::SkipNextActionAndFinalize);
    assert_eq!(
        next_exit_action(ExitEvent::FinalizeChecked { should_finalize: true, status: ExecutionProcessStatus::Completed, queued_message: true }),
        ExitAction::StartQueuedFollowUp
    );
    assert_eq!(
        next_exit_action(ExitEvent::FinalizeChecked { should_finalize: true, status: ExecutionProcessStatus::Killed, queued_message: true }),
        ExitAction::FinalizeTask
    );
    assert_eq!(
        next_exit_action(ExitEvent::FinalizeChecked { should_finalize: false, status: ExecutionProcessStatus::Completed, queued_message: true }),
        ExitAction::Done
    );
    assert_eq!(next_exit_action(ExitEvent::FollowUpStarted(false)), ExitAction::FinalizeTask);
}

#[test]
fn commit_messages_by_run_reason() {
    assert_eq!(
        commit_message(ExecutionProcessRunReason::CodingAgent, Some("Added login".to_string()), "w1", "p1"),
        "Added login"
    );
    assert_eq!(
        commit_message(ExecutionProcessRunReason::CodingAgent, None, "w1", "p1"),
        "Commit changes from coding agent for workspace w1"
    );
    assert_eq!(
        commit_message(ExecutionProcessRunReason::CleanupScript, None, "w1", "p1"),
        "Cleanup script changes for workspace w1"
    );
    assert_eq!(
        commit_message(ExecutionProcessRunReason::SetupScript, None, "w1", "p1"),
        "Changes from execution process p1"
    );
    assert!(commits_changes(ExecutionProcessRunReason::CleanupScript));
    assert!(!commits_changes(ExecutionProcessRunReason::DevServer));
    assert_eq!(status_after_stop(ExecutionProcessRunReason::CodingAgent), Some(TaskStatus::QA));
    assert_eq!(status_after_stop(ExecutionProcessRunReason::AutoPlan), None);
}
