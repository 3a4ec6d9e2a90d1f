//! Decisions of the local container service: cleaning up workspace
//! directories, recording planning runs, and summarizing an agent's turn.
use vstd::prelude::*;
use vstd::string::*;
use vstd::utf8::*;
use crate::paths::{path_protected, under_known_bases, is_path_protected, is_path_under_known_bases};
use crate::execution::ExecutionProcessStatus;
use crate::text::{trim, to_chars, trim_bounds, string_from_chars, truncate_to_char_boundary, boundary_floor, byte_len};
use crate::compose::string_views;

verus! {

broadcast use encode_utf8_valid_utf8, is_char_boundary_start_end_of_seq;

/// What cleaning up a workspace does with its directory.
#[derive(Debug, Clone, Copy, PartialEq, Eq, Structural)]
pub enum CleanupAction {
    /// The workspace has no directory: nothing to do.
    Nothing,
    /// The directory is protected or outside every known worktree base: only
    /// the workspace's reference to it is cleared.
    ClearReferenceOnly,
    /// Remove the directory (the workspace has no repositories), then clear the reference.
    RemoveDirectory,
    /// Remove the workspace's worktrees and directory, then clear the reference.
    RemoveWorktrees,
}

/// The cleanup of a workspace directory: a protected directory (the home
/// directory and its well-known folders, a repository or an ancestor of one)
/// or one outside every known worktree base is never deleted.
pub open spec fn cleanup_for(
    dir: Option<Seq<char>>,
    repo_paths: Seq<String>,
    home: Option<Seq<char>>,
    known_bases: Seq<String>,
    repository_count: nat,
) -> CleanupAction {
    match dir {
        None => CleanupAction::Nothing,
        Some(d) => if path_protected(d, repo_paths, home) || !under_known_bases(d, known_bases) {
            CleanupAction::ClearReferenceOnly
        } else if repository_count == 0 {
            CleanupAction::RemoveDirectory
        } else {
            CleanupAction::RemoveWorktrees
        },
    }
}

/// Decides how to clean up a workspace's directory, given the repository paths
/// of all projects, the home directory, the known worktree bases and the number
/// of the workspace's repositories.
pub fn cleanup_action(
    workspace_dir: Option<&str>,
    repo_paths: &Vec<String>,
    home: Option<&str>,
    known_bases: &Vec<String>,
    repository_count: usize,
) -> (r: CleanupAction)
    ensures
        r == cleanup_for(
            match workspace_dir {
                Some(d) => Some(d@),
                None => None,
            },
            repo_paths@,
            match home {
                Some(h) => Some(h@),
                None => None,
            },
            known_bases@,
            repository_count as nat,
        ),
{
    match workspace_dir {
        None => CleanupAction::Nothing,
        Some(d) => {
            if is_path_protected(d, repo_paths, home) || !is_path_under_known_bases(d, known_bases) {
                CleanupAction::ClearReferenceOnly
            } else if repository_count == 0 {
                CleanupAction::RemoveDirectory
            } else {
                CleanupAction::RemoveWorktrees
            }
        },
    }
}

/// Cleanup never deletes a protected directory, nor one outside every known
/// worktree base: it deletes only directories inside a known base that are off
/// the deny-list.
pub proof fn lemma_cleanup_spares_protected(
    dir: Seq<char>,
    repo_paths: Seq<String>,
    home: Option<Seq<char>>,
    known_bases: Seq<String>,
    repository_count: nat,
)
    ensures
        (cleanup_for(Some(dir), repo_paths, home, known_bases, repository_count) == CleanupAction::RemoveDirectory
            || cleanup_for(Some(dir), repo_paths, home, known_bases, repository_count)
            == CleanupAction::RemoveWorktrees) ==> !path_protected(dir, repo_paths, home) && under_known_bases(
            dir,
            known_bases,
        ),
{
}

/// Whether an existing workspace directory needs its worktrees ensured: not when
/// it has no repositories, points straight at its single repository, or links
/// to its repositories.
pub fn needs_worktrees(repository_count: usize, is_direct_repo: bool, has_symlinked_repos: bool) -> (r: bool)
    ensures
        r == (repository_count > 0 && !is_direct_repo && !has_symlinked_repos),
{
    repository_count > 0 && !is_direct_repo && !has_symlinked_repos
}

/// What a finished planning run records on its task.
#[derive(Debug)]
pub enum AutoPlanOutcome {
    /// The plan was found: store it as completed and prepare the task.
    StorePlan(String),
    /// Record this failure text on the task's plan.
    RecordFailure(String),
}

/// The text recorded when a planning run failed.
pub open spec fn plan_failure_text(error_summary: Option<Seq<char>>) -> Seq<char> {
    match error_summary {
        Some(s) => "Plan generation failed: "@ + s,
        None => "Plan generation failed"@,
    }
}

/// What a finished planning run records: its plan when one was extracted (even
/// from a run killed after planning); otherwise a failure, naming the error
/// summary when the run failed, or noting that no plan was found when it succeeded.
pub open spec fn auto_plan_outcome_for(
    plan: Option<Seq<char>>,
    status: ExecutionProcessStatus,
    exit_code: Option<i64>,
    error_summary: Option<Seq<char>>,
) -> (bool, Seq<char>) {
    match plan {
        Some(p) => (true, p),
        None => if status == ExecutionProcessStatus::Completed && exit_code == Some(0i64) {
            (false, "Plan generation completed but no plan was extracted"@)
        } else {
            (false, plan_failure_text(error_summary))
        },
    }
}

/// Decides what a finished planning run records on its task.
pub fn auto_plan_outcome(
    plan: Option<String>,
    status: ExecutionProcessStatus,
    exit_code: Option<i64>,
    error_summary: Option<&str>,
) -> (r: AutoPlanOutcome)
    ensures
        ({
            let (stored, text) = auto_plan_outcome_for(
                match plan {
                    Some(p) => Some(p@),
                    None => None,
                },
                status,
                exit_code,
                match error_summary {
                    Some(s) => Some(s@),
                    None => None,
                },
            );
            match r {
                AutoPlanOutcome::StorePlan(p) => stored && p@ == text,
                AutoPlanOutcome::RecordFailure(m) => !stored && m@ == text,
            }
        }),
{
    match plan {
        Some(p) => AutoPlanOutcome::StorePlan(p),
        None => {
            let success = status == ExecutionProcessStatus::Completed && match exit_code {
                Some(c) => c == 0,
                None => false,
            };
            if success {
                AutoPlanOutcome::RecordFailure(
                    String::from_str("Plan generation completed but no plan was extracted"),
                )
            } else {
                match error_summary {
                    Some(s) => {
                        let mut m = String::from_str("Plan generation failed: ");
                        m.append(s);
                        AutoPlanOutcome::RecordFailure(m)
                    },
                    None => AutoPlanOutcome::RecordFailure(String::from_str("Plan generation failed")),
                }
            }
        },
    }
}

/// Most bytes of an agent's last message kept as its turn's summary.
pub const MAX_SUMMARY_LENGTH: usize = 4096;

/// `r` is the summary of a message's trimmed text `t`: the text itself, or when
/// longer than the cap, its longest prefix of at most 4096 bytes that ends on a
/// character boundary, followed by `...`.
pub open spec fn is_turn_summary(t: Seq<char>, r: Seq<char>) -> bool {
    if byte_len(t) > MAX_SUMMARY_LENGTH {
        encode_utf8(r) == encode_utf8(t).take(boundary_floor(encode_utf8(t), MAX_SUMMARY_LENGTH as int))
            + encode_utf8("..."@)
    } else {
        r == t
    }
}

/// The position of the last message whose trimmed text is not empty, searching below `n`.
pub open spec fn last_spoken(msgs: Seq<Seq<char>>, n: int) -> Option<int>
    decreases n,
{
    if n <= 0 {
        None
    } else if trim(msgs[n - 1]).len() > 0 {
        Some(n - 1)
    } else {
        last_spoken(msgs, n - 1)
    }
}

/// The summary of an agent's turn from its assistant messages (oldest first):
/// the last one with text, trimmed and capped; `None` when none has text.
pub fn turn_summary(messages: &Vec<String>) -> (r: Option<String>)
    requires
        forall|i: int| 0 <= i < messages@.len() ==> byte_len(#[trigger] messages@[i]@) <= usize::MAX,
    ensures
        match last_spoken(string_views(messages@), messages@.len() as int) {
            Some(i) => r matches Some(s) && is_turn_summary(trim(messages@[i]@), s@),
            None => r is None,
        },
{
    let ghost v = string_views(messages@);
    let mut n: usize = messages.len();
    while n > 0
        invariant
            n <= messages@.len(),
            v == string_views(messages@),
            forall|i: int| 0 <= i < messages@.len() ==> byte_len(#[trigger] messages@[i]@) <= usize::MAX,
            last_spoken(v, messages@.len() as int) == last_spoken(v, n as int),
        decreases n,
    {
        let m = messages[n - 1].as_str();
        let cv = to_chars(m);
        let (a, b) = trim_bounds(&cv, 0, cv.len());
        assert(cv@.subrange(0, cv@.len() as int) == cv@);
        assert(v[n - 1] == m@);
        if a < b {
            let trimmed = string_from_chars(&cv, a, b);
            proof {
                crate::text::lemma_byte_len_subrange(m@, a as int, b as int);
            }
            let t = trimmed.as_str();
            if t.len() > MAX_SUMMARY_LENGTH {
                let head = truncate_to_char_boundary(t, MAX_SUMMARY_LENGTH);
                let mut s = String::from_str(head);
                s.append("...");
                proof {
                    crate::text::lemma_encode_concat(head@, "..."@);
                }
                return Some(s);
            }
            return Some(String::from_str(t));
        }
        n = n - 1;
    }
    None
}

} // verus!
