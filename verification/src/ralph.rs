//! The execution loop over a task's children: which status moves it makes and
//! how it advances after a child finishes.
use vstd::prelude::*;
use crate::status::TaskStatus;

verus! {

/// Result of advancing the loop after a child task completes.
#[derive(Debug, Clone, Copy, PartialEq, Eq, Structural)]
pub enum AdvanceResult {
    /// A new child task was started.
    NextChildStarted,
    /// All tasks of the loop are complete.
    AllComplete,
    /// The loop moved on to the next parent task of its session.
    NextSessionTaskStarted,
    /// No eligible child is left but not all are done: a possible dependency deadlock.
    Deadlocked,
}

/// Result of moving a loop session on to its next parent task.
#[derive(Debug, Clone, Copy, PartialEq, Eq, Structural)]
pub enum SessionAdvanceResult {
    /// The next parent task's first eligible child was started.
    NextTaskStarted,
    /// That was the session's last task.
    SessionComplete,
    /// The parent task belongs to no active session.
    NoSession,
}

/// The status a task takes when its loop starts: it moves to (or stays in)
/// `ralph` from `ready` or `ralph`, and is left alone otherwise.
pub open spec fn start_status(status: TaskStatus) -> Option<TaskStatus> {
    if status == TaskStatus::Ready || status == TaskStatus::Ralph {
        Some(TaskStatus::Ralph)
    } else {
        None
    }
}

/// The status change made when a task's loop starts, if any.
pub fn start_transition(status: TaskStatus) -> (r: Option<TaskStatus>)
    ensures
        r == start_status(status),
{
    if status == TaskStatus::Ready || status == TaskStatus::Ralph {
        Some(TaskStatus::Ralph)
    } else {
        None
    }
}

/// The status a task takes when its loop completes: `qa` from `ralph`, else unchanged.
pub open spec fn complete_status(status: TaskStatus) -> Option<TaskStatus> {
    if status == TaskStatus::Ralph {
        Some(TaskStatus::QA)
    } else {
        None
    }
}

/// The status change made when a task's loop completes, if any.
pub fn complete_transition(status: TaskStatus) -> (r: Option<TaskStatus>)
    ensures
        r == complete_status(status),
{
    if status == TaskStatus::Ralph {
        Some(TaskStatus::QA)
    } else {
        None
    }
}

/// Whether a child shares its parent's workspace: only while the parent task is in `ralph`.
pub fn shares_parent_workspace(parent_status: TaskStatus) -> (r: bool)
    ensures
        r == (parent_status == TaskStatus::Ralph),
{
    parent_status == TaskStatus::Ralph
}

/// What advancing the loop has just learned.
#[derive(Debug, Clone, Copy, PartialEq, Eq, Structural)]
pub enum AdvanceEvent {
    /// The status of the finished child's parent task.
    ParentStatus(TaskStatus),
    /// Whether an eligible child is left in the parent's workspace.
    NextChildFound(bool),
    /// Whether every child of this workspace is done.
    SprintChildrenDone(bool),
    /// Whether every child of the parent task, in all its workspaces, is done.
    AllParentChildrenDone(bool),
    /// How moving the session on went.
    SessionAdvanced(SessionAdvanceResult),
}

/// What advancing the loop does next.
#[derive(Debug, Clone, Copy, PartialEq, Eq, Structural)]
pub enum AdvanceAction {
    /// Mark the finished child done, then look for the next eligible child.
    MarkChildDoneAndFindNext,
    /// Start the eligible child found; the loop then reports `NextChildStarted`.
    StartNextChild,
    /// Ask whether every child of this workspace is done.
    CheckSprintChildrenDone,
    /// Ask whether every child of the parent task is done.
    CheckAllParentChildrenDone,
    /// Move the session on to its next parent task.
    AdvanceSession,
    /// Complete the parent's loop (`ralph` to `qa`); the loop then reports `AllComplete`.
    CompleteParent,
    /// Move the parent to `qa` for the user to look into; the loop then reports `Deadlocked`.
    FlagParentForReview,
    /// Stop with this result.
    Finish(AdvanceResult),
}

/// The step that follows each thing learned while advancing the loop.
pub open spec fn advance_step(event: AdvanceEvent) -> AdvanceAction {
    match event {
        AdvanceEvent::ParentStatus(s) => if s == TaskStatus::Ralph {
            AdvanceAction::MarkChildDoneAndFindNext
        } else {
            AdvanceAction::Finish(AdvanceResult::NextChildStarted)
        },
        AdvanceEvent::NextChildFound(found) => if found {
            AdvanceAction::StartNextChild
        } else {
            AdvanceAction::CheckSprintChildrenDone
        },
        AdvanceEvent::SprintChildrenDone(done) => if done {
            AdvanceAction::CheckAllParentChildrenDone
        } else {
            AdvanceAction::FlagParentForReview
        },
        AdvanceEvent::AllParentChildrenDone(done) => if done {
            AdvanceAction::AdvanceSession
        } else {
            AdvanceAction::Finish(AdvanceResult::NextChildStarted)
        },
        AdvanceEvent::SessionAdvanced(res) => match res {
            SessionAdvanceResult::NextTaskStarted => AdvanceAction::Finish(AdvanceResult::NextSessionTaskStarted),
            _ => AdvanceAction::CompleteParent,
        },
    }
}

/// Decides the next step of advancing the loop after a child finishes: a parent
/// no longer in `ralph` is left alone; otherwise the next eligible child starts,
/// or, once all the parent's children are done, the session moves on or the
/// parent completes; a workspace with children left but none eligible is flagged.
pub fn next_advance_action(event: AdvanceEvent) -> (r: AdvanceAction)
    ensures
        r == advance_step(event),
{
    match event {
        AdvanceEvent::ParentStatus(s) => if s == TaskStatus::Ralph {
            AdvanceAction::MarkChildDoneAndFindNext
        } else {
            AdvanceAction::Finish(AdvanceResult::NextChildStarted)
        },
        AdvanceEvent::NextChildFound(found) => if found {
            AdvanceAction::StartNextChild
        } else {
            AdvanceAction::CheckSprintChildrenDone
        },
        AdvanceEvent::SprintChildrenDone(done) => if done {
            AdvanceAction::CheckAllParentChildrenDone
        } else {
            AdvanceAction::FlagParentForReview
        },
        AdvanceEvent::AllParentChildrenDone(done) => if done {
            AdvanceAction::AdvanceSession
        } else {
            AdvanceAction::Finish(AdvanceResult::NextChildStarted)
        },
        AdvanceEvent::SessionAdvanced(res) => match res {
            SessionAdvanceResult::NextTaskStarted => AdvanceAction::Finish(AdvanceResult::NextSessionTaskStarted),
            _ => AdvanceAction::CompleteParent,
        },
    }
}

/// The result a whole advance reports, from the answers it gets in turn (later
/// answers are not asked for once the result is settled).
pub open spec fn advance_outcome(
    parent_status: TaskStatus,
    next_child_found: bool,
    sprint_done: bool,
    parent_done: bool,
    session: SessionAdvanceResult,
) -> AdvanceResult {
    if parent_status != TaskStatus::Ralph {
        AdvanceResult::NextChildStarted
    } else if next_child_found {
        AdvanceResult::NextChildStarted
    } else if !sprint_done {
        AdvanceResult::Deadlocked
    } else if !parent_done {
        AdvanceResult::NextChildStarted
    } else if session == SessionAdvanceResult::NextTaskStarted {
        AdvanceResult::NextSessionTaskStarted
    } else {
        AdvanceResult::AllComplete
    }
}

/// The result an action leads to, when the action settles it.
pub open spec fn settled_result(a: AdvanceAction) -> Option<AdvanceResult> {
    match a {
        AdvanceAction::StartNextChild => Some(AdvanceResult::NextChildStarted),
        AdvanceAction::CompleteParent => Some(AdvanceResult::AllComplete),
        AdvanceAction::FlagParentForReview => Some(AdvanceResult::Deadlocked),
        AdvanceAction::Finish(r) => Some(r),
        _ => None,
    }
}

/// Following the steps with a run's answers settles on `advance_outcome`; and
/// `AllComplete` is reported only after every child of the parent is done and
/// the session has no next task.
pub proof fn lemma_advance_outcome(
    parent_status: TaskStatus,
    next_child_found: bool,
    sprint_done: bool,
    parent_done: bool,
    session: SessionAdvanceResult,
)
    ensures
        ({
            let a1 = advance_step(AdvanceEvent::ParentStatus(parent_status));
            let a2 = advance_step(AdvanceEvent::NextChildFound(next_child_found));
            let a3 = advance_step(AdvanceEvent::SprintChildrenDone(sprint_done));
            let a4 = advance_step(AdvanceEvent::AllParentChildrenDone(parent_done));
            let a5 = advance_step(AdvanceEvent::SessionAdvanced(session));
            let settled = if settled_result(a1) is Some {
                settled_result(a1)
            } else if settled_result(a2) is Some {
                settled_result(a2)
            } else if settled_result(a3) is Some {
                settled_result(a3)
            } else if settled_result(a4) is Some {
                settled_result(a4)
            } else {
                settled_result(a5)
            };
            settled == Some(advance_outcome(parent_status, next_child_found, sprint_done, parent_done, session))
        }),
        advance_outcome(parent_status, next_child_found, sprint_done, parent_done, session)
            == AdvanceResult::AllComplete ==> parent_status == TaskStatus::Ralph && !next_child_found && sprint_done
            && parent_done && session != SessionAdvanceResult::NextTaskStarted,
{
}

/// What moving a session on has just learned.
#[derive(Debug, Clone, Copy, PartialEq, Eq, Structural)]
pub enum SessionEvent {
    /// Whether the completed parent belongs to an active session.
    SessionFound(bool),
    /// Whether the session has a task after the completed parent.
    NextTaskFound(bool),
    /// Whether the next task has an eligible child in the shared workspace.
    FirstChildFound(bool),
}

/// What moving a session on does next.
#[derive(Debug, Clone, Copy, PartialEq, Eq, Structural)]
pub enum SessionAction {
    /// Look for the session's task after the completed parent.
    FindNextTask,
    /// Mark the session completed and report `SessionComplete`.
    CompleteSession,
    /// Mark the completed parent done, point the shared workspace at the next
    /// task, move its children there, and look for its first eligible child.
    HandOverWorkspace,
    /// Start that child; then report `NextTaskStarted`.
    StartFirstChild,
    /// Stop with this result.
    Finish(SessionAdvanceResult),
}

/// The step that follows each thing learned while moving a session on.
pub open spec fn session_step(event: SessionEvent) -> SessionAction {
    match event {
        SessionEvent::SessionFound(found) => if found {
            SessionAction::FindNextTask
        } else {
            SessionAction::Finish(SessionAdvanceResult::NoSession)
        },
        SessionEvent::NextTaskFound(found) => if found {
            SessionAction::HandOverWorkspace
        } else {
            SessionAction::CompleteSession
        },
        SessionEvent::FirstChildFound(found) => if found {
            SessionAction::StartFirstChild
        } else {
            SessionAction::Finish(SessionAdvanceResult::NextTaskStarted)
        },
    }
}

/// Decides the next step of moving a session on to its next parent task.
pub fn next_session_action(event: SessionEvent) -> (r: SessionAction)
    ensures
        r == session_step(event),
{
    match event {
        SessionEvent::SessionFound(found) => if found {
            SessionAction::FindNextTask
        } else {
            SessionAction::Finish(SessionAdvanceResult::NoSession)
        },
        SessionEvent::NextTaskFound(found) => if found {
            SessionAction::HandOverWorkspace
        } else {
            SessionAction::CompleteSession
        },
        SessionEvent::FirstChildFound(found) => if found {
            SessionAction::StartFirstChild
        } else {
            SessionAction::Finish(SessionAdvanceResult::NextTaskStarted)
        },
    }
}

} // verus!
