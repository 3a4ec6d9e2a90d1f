//! Checks and derived values of the specification, sprint and session requests.
use vstd::prelude::*;
use vstd::string::*;
use crate::status::{RalphSessionStatus, TaskStatus, task_status_name};
use crate::paths::{path_joined, join_path};
use crate::text::str_eq;
use crate::compose::string_views;

verus! {

/// The answer to a task that must be `ready` to be decomposed.
pub open spec fn decompose_status_message(status: TaskStatus) -> Seq<char> {
    "Task must be in 'ready' status to decompose, current status: "@ + task_status_name(status)
}

/// Checks that a task can be decomposed: only from `ready`.
pub fn check_decomposable(status: TaskStatus) -> (r: Result<(), String>)
    ensures
        status == TaskStatus::Ready <==> r is Ok,
        r matches Err(m) ==> m@ == decompose_status_message(status),
{
    if status == TaskStatus::Ready {
        Ok(())
    } else {
        let mut m = String::from_str("Task must be in 'ready' status to decompose, current status: ");
        m.append(status.as_str());
        Err(m)
    }
}

/// Whether a child task is ready to run: every dependency that still exists is done.
pub open spec fn deps_done(dep_statuses: Seq<Option<TaskStatus>>) -> bool {
    forall|i: int| 0 <= i < dep_statuses.len() ==> (#[trigger] dep_statuses[i] matches Some(s) ==> s == TaskStatus::Done)
}

/// Whether a child task is ready, from the statuses of its dependencies (`None`
/// for one that no longer exists).
pub fn child_is_ready(dep_statuses: &Vec<Option<TaskStatus>>) -> (r: bool)
    ensures
        r == deps_done(dep_statuses@),
{
    let mut i: usize = 0;
    while i < dep_statuses.len()
        invariant
            i <= dep_statuses@.len(),
            forall|j: int| 0 <= j < i ==> (#[trigger] dep_statuses@[j] matches Some(s) ==> s == TaskStatus::Done),
        decreases dep_statuses@.len() - i,
    {
        match dep_statuses[i] {
            Some(s) => {
                if s != TaskStatus::Done {
                    return false;
                }
            },
            None => {},
        }
        i = i + 1;
    }
    true
}

/// The answer to a session request that selects no task.
pub open spec fn empty_session_message() -> Seq<char> {
    "At least one task must be selected"@
}

/// Checks that a session request selects at least one task.
pub fn check_session_selection(task_count: usize) -> (r: Result<(), String>)
    ensures
        task_count > 0 <==> r is Ok,
        r matches Err(m) ==> m@ == empty_session_message(),
{
    if task_count > 0 {
        Ok(())
    } else {
        Err(String::from_str("At least one task must be selected"))
    }
}

/// What checking a task for a loop session answers: a task must be `ready`,
/// have a specification sheet and have children, checked in that order.
pub open spec fn session_task_problem(
    title: Seq<char>,
    status: TaskStatus,
    has_spec: bool,
    has_children: bool,
) -> Option<Seq<char>> {
    if status != TaskStatus::Ready {
        Some("Task '"@ + title + "' must be in 'ready' status, current: "@ + task_status_name(status))
    } else if !has_spec {
        Some("Task '"@ + title + "' has no spec sheet"@)
    } else if !has_children {
        Some("Task '"@ + title + "' has no children (needs decomposition first)"@)
    } else {
        None
    }
}

/// Checks one task selected for a loop session.
pub fn check_session_task(title: &str, status: TaskStatus, has_spec: bool, has_children: bool) -> (r: Result<
    (),
    String,
>)
    ensures
        session_task_problem(title@, status, has_spec, has_children) is None <==> r is Ok,
        r matches Err(m) ==> session_task_problem(title@, status, has_spec, has_children) == Some(m@),
{
    if status != TaskStatus::Ready {
        let mut m = String::from_str("Task '");
        m.append(title);
        m.append("' must be in 'ready' status, current: ");
        m.append(status.as_str());
        Err(m)
    } else if !has_spec {
        let mut m = String::from_str("Task '");
        m.append(title);
        m.append("' has no spec sheet");
        Err(m)
    } else if !has_children {
        let mut m = String::from_str("Task '");
        m.append(title);
        m.append("' has no children (needs decomposition first)");
        Err(m)
    } else {
        Ok(())
    }
}

/// A run of several tasks in one shared workspace, as stored; its times are
/// RFC 3339 text.
pub struct RalphSession {
    pub id: uuid::Uuid,
    pub project_id: uuid::Uuid,
    pub workspace_id: Option<uuid::Uuid>,
    pub status: RalphSessionStatus,
    pub created_at: String,
    pub updated_at: String,
}

/// A task of a session, with its place in the execution order.
pub struct RalphSessionTask {
    pub ralph_session_id: uuid::Uuid,
    pub task_id: uuid::Uuid,
    pub execution_order: i32,
}

/// A session and its tasks, as returned when a session is created or read.
pub struct RalphSessionResponse {
    pub session: RalphSession,
    pub tasks: Vec<RalphSessionTask>,
}

/// The execution order of a session's tasks: each with its position.
pub fn session_task_orders(task_ids: &Vec<uuid::Uuid>) -> (r: Vec<(uuid::Uuid, i32)>)
    requires
        task_ids@.len() <= i32::MAX,
    ensures
        r@.len() == task_ids@.len(),
        forall|i: int| 0 <= i < task_ids@.len() ==> #[trigger] r@[i] == (task_ids@[i], i as i32),
{
    let mut out: Vec<(uuid::Uuid, i32)> = Vec::new();
    let mut i: usize = 0;
    while i < task_ids.len()
        invariant
            i <= task_ids@.len() <= i32::MAX,
            out@.len() == i,
            forall|j: int| 0 <= j < i ==> #[trigger] out@[j] == (task_ids@[j], j as i32),
        decreases task_ids@.len() - i,
    {
        out.push((task_ids[i], i as i32));
        i = i + 1;
    }
    out
}

/// The working directory of a workspace over a single repository: the
/// repository's name joined with its default working directory, when it has one.
pub open spec fn working_dir_text(repo_name: Seq<char>, default_working_dir: Option<Seq<char>>) -> Seq<char> {
    match default_working_dir {
        Some(sub) => path_joined(repo_name, sub),
        None => repo_name,
    }
}

/// The agents' working directory in a workspace over a single repository.
pub fn single_repo_working_dir(repo_name: &str, default_working_dir: Option<&str>) -> (r: String)
    ensures
        r@ == working_dir_text(
            repo_name@,
            match default_working_dir {
                Some(d) => Some(d@),
                None => None,
            },
        ),
{
    match default_working_dir {
        Some(sub) => join_path(repo_name, sub),
        None => String::from_str(repo_name),
    }
}

/// The answer to a sprint on a parent that is neither `ready` nor `ralph`.
pub open spec fn sprint_status_message(status: TaskStatus) -> Seq<char> {
    "Task must be in 'ready' or 'ralph' status to start a sprint, current status: "@ + task_status_name(status)
}

/// What the sprint checks read of one child of the parent task.
pub struct SprintChild {
    pub id: String,
    pub title: String,
    pub status: TaskStatus,
}

/// The position of the first child at or after `j` with identifier `id`, if any.
pub open spec fn child_from(children: Seq<SprintChild>, id: Seq<char>, j: int) -> Option<int>
    decreases children.len() - j,
{
    if j < 0 || j >= children.len() {
        None
    } else if children[j].id@ == id {
        Some(j)
    } else {
        child_from(children, id, j + 1)
    }
}

/// The position of the first child with identifier `id`, if any.
pub open spec fn child_index(children: Seq<SprintChild>, id: Seq<char>) -> Option<int> {
    child_from(children, id, 0)
}

/// The first selected task at or after `i` that is not a child, if any.
pub open spec fn first_stranger(children: Seq<SprintChild>, selected: Seq<Seq<char>>, i: int) -> Option<int>
    decreases selected.len() - i,
{
    if i < 0 || i >= selected.len() {
        None
    } else if child_index(children, selected[i]) is None {
        Some(i)
    } else {
        first_stranger(children, selected, i + 1)
    }
}

/// The first selected child at or after `i` that is not `ready`, if any.
pub open spec fn first_unready(children: Seq<SprintChild>, selected: Seq<Seq<char>>, i: int) -> Option<int>
    decreases selected.len() - i,
{
    if i < 0 || i >= selected.len() {
        None
    } else if child_index(children, selected[i]) matches Some(j) && children[j].status != TaskStatus::Ready {
        Some(i)
    } else {
        first_unready(children, selected, i + 1)
    }
}

/// The answer to a sprint request: the parent must be `ready` or `ralph`; every
/// selected task must be one of its children (the first that is not is named);
/// then every selected child must be `ready` (the first that is not is named).
pub open spec fn sprint_problem(
    parent_status: TaskStatus,
    parent_id: Seq<char>,
    children: Seq<SprintChild>,
    selected: Seq<Seq<char>>,
) -> Option<Seq<char>> {
    if parent_status != TaskStatus::Ready && parent_status != TaskStatus::Ralph {
        Some(sprint_status_message(parent_status))
    } else {
        match first_stranger(children, selected, 0) {
            Some(i) => Some("Task "@ + selected[i] + " is not a child of parent task "@ + parent_id),
            None => match first_unready(children, selected, 0) {
                Some(i) => {
                    let c = children[child_index(children, selected[i])->0];
                    Some(
                        "Child task "@ + selected[i] + " ("@ + c.title@ + ") must be in 'ready' status, current: "@
                            + task_status_name(c.status),
                    )
                },
                None => None,
            },
        }
    }
}

fn find_child(children: &Vec<SprintChild>, id: &str) -> (r: Option<usize>)
    ensures
        match r {
            Some(j) => child_index(children@, id@) == Some(j as int) && j < children@.len(),
            None => child_index(children@, id@) is None,
        },
{
    let mut j: usize = 0;
    while j < children.len()
        invariant
            j <= children@.len(),
            child_index(children@, id@) == child_from(children@, id@, j as int),
        decreases children@.len() - j,
    {
        if str_eq(children[j].id.as_str(), id) {
            return Some(j);
        }
        j = j + 1;
    }
    None
}

/// Checks a sprint request against the parent's status and children.
pub fn check_sprint(
    parent_status: TaskStatus,
    parent_id: &str,
    children: &Vec<SprintChild>,
    selected: &Vec<String>,
) -> (r: Result<(), String>)
    ensures
        sprint_problem(parent_status, parent_id@, children@, string_views(selected@)) is None <==> r is Ok,
        r matches Err(m) ==> sprint_problem(parent_status, parent_id@, children@, string_views(selected@)) == Some(
            m@,
        ),
{
    let ghost sel = string_views(selected@);
    if parent_status != TaskStatus::Ready && parent_status != TaskStatus::Ralph {
        let mut m = String::from_str("Task must be in 'ready' or 'ralph' status to start a sprint, current status: ");
        m.append(parent_status.as_str());
        return Err(m);
    }
    let mut found: Vec<usize> = Vec::new();
    let mut i: usize = 0;
    while i < selected.len()
        invariant
            i <= selected@.len(),
            sel == string_views(selected@),
            parent_status == TaskStatus::Ready || parent_status == TaskStatus::Ralph,
            found@.len() == i,
            first_stranger(children@, sel, 0) == first_stranger(children@, sel, i as int),
            forall|k: int|
                0 <= k < i ==> child_index(children@, #[trigger] sel[k]) == Some(found@[k] as int) && found@[k]
                    < children@.len(),
        decreases selected@.len() - i,
    {
        match find_child(children, selected[i].as_str()) {
            Some(j) => found.push(j),
            None => {
                assert(sel[i as int] == selected@[i as int]@);
                assert(first_stranger(children@, sel, i as int) == Some(i as int));
                let mut m = String::from_str("Task ");
                m.append(selected[i].as_str());
                m.append(" is not a child of parent task ");
                m.append(parent_id);
                return Err(m);
            },
        }
        i = i + 1;
    }
    assert(first_stranger(children@, sel, 0) is None);
    let mut i: usize = 0;
    while i < selected.len()
        invariant
            i <= selected@.len(),
            sel == string_views(selected@),
            parent_status == TaskStatus::Ready || parent_status == TaskStatus::Ralph,
            found@.len() == selected@.len(),
            first_stranger(children@, sel, 0) is None,
            first_unready(children@, sel, 0) == first_unready(children@, sel, i as int),
            forall|k: int|
                0 <= k < selected@.len() ==> child_index(children@, #[trigger] sel[k]) == Some(found@[k] as int)
                    && found@[k] < children@.len(),
        decreases selected@.len() - i,
    {
        let c = &children[found[i]];
        assert(child_index(children@, sel[i as int]) == Some(found@[i as int] as int));
        if c.status != TaskStatus::Ready {
            assert(sel[i as int] == selected@[i as int]@);
            assert(first_unready(children@, sel, i as int) == Some(i as int));
            let mut m = String::from_str("Child task ");
            m.append(selected[i].as_str());
            m.append(" (");
            m.append(c.title.as_str());
            m.append(") must be in 'ready' status, current: ");
            m.append(c.status.as_str());
            return Err(m);
        }
        i = i + 1;
    }
    Ok(())
}

} // verus!
