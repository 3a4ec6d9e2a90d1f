//! Decisions of the task tool server: request addresses, status and type names,
//! task descriptions built from structured context, and task listings.
use vstd::prelude::*;
use vstd::string::*;
use crate::status::{TaskStatus, TaskType, task_status_name, lemma_task_status_names_distinct};
use crate::text::{
    to_chars, push_char, push_chars, string_from_chars, lowercase_of, to_lowercase, has_infix, contains, join_lines,
    decimal, push_decimal,
};
use crate::prompts::opt_str;
use crate::ids::uuid_eq;

verus! {

/// `s` without its trailing `c` characters (`str::trim_end_matches`).
pub open spec fn drop_trailing(s: Seq<char>, c: char) -> Seq<char>
    decreases s.len(),
{
    if s.len() > 0 && s.last() == c {
        drop_trailing(s.drop_last(), c)
    } else {
        s
    }
}

/// `s` without its leading `c` characters (`str::trim_start_matches`).
pub open spec fn drop_leading(s: Seq<char>, c: char) -> Seq<char>
    decreases s.len(),
{
    if s.len() > 0 && s[0] == c {
        drop_leading(s.drop_first(), c)
    } else {
        s
    }
}

fn trailing_cut(v: &[char], c: char) -> (k: usize)
    ensures
        k <= v@.len(),
        drop_trailing(v@, c) == v@.take(k as int),
{
    let mut k = v.len();
    assert(v@.take(k as int) == v@);
    while k > 0 && v[k - 1] == c
        invariant
            k <= v@.len(),
            drop_trailing(v@, c) == drop_trailing(v@.take(k as int), c),
        decreases k,
    {
        assert(v@.take(k as int).drop_last() == v@.take(k - 1));
        k = k - 1;
    }
    k
}

fn leading_cut(v: &[char], c: char) -> (k: usize)
    ensures
        k <= v@.len(),
        drop_leading(v@, c) == v@.skip(k as int),
{
    let mut k: usize = 0;
    assert(v@.skip(0) == v@);
    while k < v.len() && v[k] == c
        invariant
            k <= v@.len(),
            drop_leading(v@, c) == drop_leading(v@.skip(k as int), c),
        decreases v@.len() - k,
    {
        assert(v@.skip(k as int).drop_first() == v@.skip(k + 1));
        k = k + 1;
    }
    k
}

/// The address of `path` under the server's base address: the two joined by
/// exactly one `/`.
pub open spec fn api_url_text(base_url: Seq<char>, path: Seq<char>) -> Seq<char> {
    drop_trailing(base_url, '/') + seq!['/'] + drop_leading(path, '/')
}

/// Joins the server's base address and an API path with exactly one `/`.
pub fn api_url(base_url: &str, path: &str) -> (r: String)
    ensures
        r@ == api_url_text(base_url@, path@),
{
    let b = to_chars(base_url);
    let p = to_chars(path);
    let kb = trailing_cut(&b, '/');
    let kp = leading_cut(&p, '/');
    let mut out = string_from_chars(&b, 0, kb);
    push_char(&mut out, '/');
    push_chars(&mut out, &p, kp, p.len());
    assert(b@.subrange(0, kb as int) == b@.take(kb as int));
    assert(p@.subrange(kp as int, p@.len() as int) == p@.skip(kp as int));
    out
}

/// The status whose stored name is `s`, if any.
pub open spec fn task_status_named(s: Seq<char>) -> Option<TaskStatus> {
    if exists|x: TaskStatus| task_status_name(x) == s {
        Some(choose|x: TaskStatus| task_status_name(x) == s)
    } else {
        None
    }
}

/// The answer to an unknown status name.
pub open spec fn unknown_status_message(s: Seq<char>) -> Seq<char> {
    "Unknown status '"@ + s
        + "'. Valid statuses: backlog, idea, planning, plangenerating, specreview, ready, ralph, inprogress, qa, done, cancelled"@
}

/// Resolves a status name, exactly as stored; an unknown name is answered with
/// the list of valid ones.
pub fn resolve_task_status(s: &str) -> (r: Result<TaskStatus, String>)
    ensures
        task_status_named(s@) matches Some(x) ==> r matches Ok(y) && y == x,
        task_status_named(s@) is None ==> (r matches Err(m) && m@ == unknown_status_message(s@)),
{
    let parsed = TaskStatus::parse(s);
    proof {
        lemma_task_status_names_distinct();
    }
    match parsed {
        Some(x) => {
            assert(task_status_name(x) == s@);
            Ok(x)
        },
        None => {
            let mut m = String::from_str("Unknown status '");
            m.append(s);
            m.append(
                "'. Valid statuses: backlog, idea, planning, plangenerating, specreview, ready, ralph, inprogress, qa, done, cancelled",
            );
            Err(m)
        },
    }
}

/// The task type named by a lower-cased name.
pub open spec fn task_type_named(lower: Seq<char>) -> Option<TaskType> {
    if lower == "task"@ {
        Some(TaskType::Task)
    } else if lower == "epic"@ {
        Some(TaskType::Epic)
    } else {
        None
    }
}

/// The answer to an invalid task type name.
pub open spec fn invalid_type_message(s: Seq<char>) -> Seq<char> {
    "Invalid task_type '"@ + s + "'. Valid values: task, epic"@
}

/// Resolves a task type name, case-insensitively.
pub fn resolve_task_type(s: &str) -> (r: Result<TaskType, String>)
    ensures
        task_type_named(lowercase_of(s@)) matches Some(t) ==> r matches Ok(u) && u == t,
        task_type_named(lowercase_of(s@)) is None ==> (r matches Err(m) && m@ == invalid_type_message(s@)),
{
    let lower = to_lowercase(s);
    proof {
        reveal_strlit("task");
        reveal_strlit("epic");
    }
    if crate::text::str_eq(lower.as_str(), "task") {
        Ok(TaskType::Task)
    } else if crate::text::str_eq(lower.as_str(), "epic") {
        Ok(TaskType::Epic)
    } else {
        let mut m = String::from_str("Invalid task_type '");
        m.append(s);
        m.append("'. Valid values: task, epic");
        Err(m)
    }
}

/// The status a new task gets when none is named: `idea` for an epic, else `backlog`.
pub open spec fn default_status(task_type: Option<TaskType>) -> TaskStatus {
    if task_type == Some(TaskType::Epic) {
        TaskStatus::Idea
    } else {
        TaskStatus::Backlog
    }
}

/// The type and status of a new task from its optional names: an invalid type
/// name is reported first, then an invalid status name; without a status name
/// the status defaults by type.
pub open spec fn create_fields(status: Option<Seq<char>>, task_type: Option<Seq<char>>) -> Result<
    (Option<TaskType>, TaskStatus),
    Seq<char>,
> {
    let ty: Result<Option<TaskType>, Seq<char>> = match task_type {
        Some(t) => match task_type_named(lowercase_of(t)) {
            Some(x) => Ok(Some(x)),
            None => Err(invalid_type_message(t)),
        },
        None => Ok(None),
    };
    match ty {
        Err(m) => Err(m),
        Ok(tt) => match status {
            Some(s) => match task_status_named(s) {
                Some(x) => Ok((tt, x)),
                None => Err(unknown_status_message(s)),
            },
            None => Ok((tt, default_status(tt))),
        },
    }
}

/// Resolves the type and status of a task about to be created.
pub fn resolve_create_fields(status: Option<&str>, task_type: Option<&str>) -> (r: Result<
    (Option<TaskType>, TaskStatus),
    String,
>)
    ensures
        create_fields(opt_str(status), opt_str(task_type)) matches Ok(v) ==> r matches Ok(u) && u == v,
        create_fields(opt_str(status), opt_str(task_type)) matches Err(m) ==> r matches Err(e) && e@ == m,
{
    let tt = match task_type {
        Some(t) => match resolve_task_type(t) {
            Ok(x) => Some(x),
            Err(e) => {
                return Err(e);
            },
        },
        None => None,
    };
    match status {
        Some(s) => match resolve_task_status(s) {
            Ok(x) => Ok((tt, x)),
            Err(e) => Err(e),
        },
        None => {
            let is_epic = match tt {
                Some(TaskType::Epic) => true,
                _ => false,
            };
            if is_epic {
                Ok((tt, TaskStatus::Idea))
            } else {
                Ok((tt, TaskStatus::Backlog))
            }
        },
    }
}

/// The answer when no project is named and the workspace gives none.
pub open spec fn missing_project_message() -> Seq<char> {
    "project_id is required (not available from workspace context)"@
}

/// The project a request is about: the one named, else the workspace's.
pub fn resolve_project_id(explicit: Option<uuid::Uuid>, from_context: Option<uuid::Uuid>) -> (r: Result<
    uuid::Uuid,
    String,
>)
    ensures
        explicit matches Some(id) ==> r matches Ok(x) && x == id,
        explicit is None ==> (from_context matches Some(id) ==> (r matches Ok(x) && x == id)),
        explicit is None && from_context is None ==> (r matches Err(m) && m@ == missing_project_message()),
{
    if let Some(id) = explicit {
        return Ok(id);
    }
    if let Some(id) = from_context {
        return Ok(id);
    }
    Err(String::from_str("project_id is required (not available from workspace context)"))
}

/// The context lines of a task description, in order: repository, file (with
/// its line when given), git ref, command.
pub open spec fn context_lines(
    repo_name: Option<Seq<char>>,
    file_path: Option<Seq<char>>,
    line_number: Option<u32>,
    git_ref: Option<Seq<char>>,
    command: Option<Seq<char>>,
) -> Seq<Seq<char>> {
    (match repo_name {
        Some(r) => seq!["- **Repository**: "@ + r],
        None => seq![],
    }) + (match file_path {
        Some(f) => seq![
            match line_number {
                Some(n) => "- **File**: "@ + f + ":"@ + decimal(n as nat),
                None => "- **File**: "@ + f,
            },
        ],
        None => seq![],
    }) + (match git_ref {
        Some(g) => seq!["- **Git ref**: "@ + g],
        None => seq![],
    }) + (match command {
        Some(c) => seq!["- **Command**: `"@ + c + "`"@],
        None => seq![],
    })
}

/// A task description in markdown from structured context: the summary, a
/// context section when there are context lines, and the error output in a code block.
pub open spec fn context_description_text(
    summary: Option<Seq<char>>,
    lines: Seq<Seq<char>>,
    error_output: Option<Seq<char>>,
) -> Seq<char> {
    (match summary {
        Some(s) => s + "\n\n"@,
        None => seq![],
    }) + (if lines.len() > 0 {
        "## Context\n"@ + join_lines(lines) + "\n\n"@
    } else {
        seq![]
    }) + (match error_output {
        Some(e) => "## Error Output\n```\n"@ + e + "\n```\n"@,
        None => seq![],
    })
}

/// The texts of strings.
pub open spec fn texts(v: Seq<String>) -> Seq<Seq<char>> {
    v.map_values(|s: String| s@)
}

fn push_joined_lines(p: &mut String, lines: &Vec<String>)
    ensures
        final(p)@ == old(p)@ + join_lines(texts(lines@)),
{
    let ghost start = p@;
    let mut i: usize = 0;
    while i < lines.len()
        invariant
            i <= lines@.len(),
            p@ == start + join_lines(texts(lines@).take(i as int)),
        decreases lines@.len() - i,
    {
        if i > 0 {
            push_char(p, '\n');
        }
        p.append(lines[i].as_str());
        assert(texts(lines@).take(i + 1).drop_last() == texts(lines@).take(i as int));
        assert(texts(lines@).take(1) =~= seq![lines@[0]@]);
        i = i + 1;
    }
    assert(texts(lines@).take(lines@.len() as int) == texts(lines@));
}

/// Builds the markdown description of a task created with structured context.
#[verifier::spinoff_prover]
pub fn context_description(
    summary: Option<&str>,
    repo_name: Option<&str>,
    file_path: Option<&str>,
    line_number: Option<u32>,
    git_ref: Option<&str>,
    error_output: Option<&str>,
    command: Option<&str>,
) -> (r: String)
    ensures
        r@ == context_description_text(
            opt_str(summary),
            context_lines(opt_str(repo_name), opt_str(file_path), line_number, opt_str(git_ref), opt_str(command)),
            opt_str(error_output),
        ),
{
    let mut desc = String::new();
    if let Some(s) = summary {
        desc.append(s);
        desc.append("\n\n");
    }
    let mut lines: Vec<String> = Vec::new();
    if let Some(r) = repo_name {
        let mut l = String::from_str("- **Repository**: ");
        l.append(r);
        lines.push(l);
    }
    if let Some(f) = file_path {
        let mut l = String::from_str("- **File**: ");
        l.append(f);
        if let Some(n) = line_number {
            l.append(":");
            push_decimal(&mut l, n as u64);
        }
        lines.push(l);
    }
    if let Some(g) = git_ref {
        let mut l = String::from_str("- **Git ref**: ");
        l.append(g);
        lines.push(l);
    }
    if let Some(c) = command {
        let mut l = String::from_str("- **Command**: `");
        l.append(c);
        l.append("`");
        lines.push(l);
    }
    assert(texts(lines@) == context_lines(
        opt_str(repo_name),
        opt_str(file_path),
        line_number,
        opt_str(git_ref),
        opt_str(command),
    ));
    if lines.len() > 0 {
        desc.append("## Context\n");
        push_joined_lines(&mut desc, &lines);
        desc.append("\n\n");
    }
    if let Some(e) = error_output {
        desc.append("## Error Output\n```\n");
        desc.append(e);
        desc.append("\n```\n");
    }
    desc
}

/// A task as the tool server reads it, its identifier and times already
/// rendered as text.
pub struct TaskRecord {
    pub id: String,
    pub title: String,
    pub description: Option<String>,
    pub status: TaskStatus,
    pub parent_task_id: Option<uuid::Uuid>,
    pub created_at: String,
    pub updated_at: String,
}

/// The prompt text of a task: its title, then its description after a blank
/// line when the description is not blank.
pub open spec fn task_prompt_text(title: Seq<char>, description: Option<Seq<char>>) -> Seq<char> {
    match description {
        Some(d) => if crate::text::trim(d).len() > 0 {
            title + "\n\n"@ + d
        } else {
            title
        },
        None => title,
    }
}

impl TaskRecord {
    /// The task as a prompt: title, and the description when it is not blank.
    pub fn to_prompt(&self) -> (r: String)
        ensures
            r@ == task_prompt_text(self.title@, opt_text(self.description)),
    {
        let mut s = self.title.clone();
        if let Some(d) = &self.description {
            let v = to_chars(d.as_str());
            let (a, b) = crate::text::trim_bounds(&v, 0, v.len());
            assert(v@.subrange(0, v@.len() as int) == v@);
            if a < b {
                s.append("\n\n");
                s.append(d.as_str());
            }
        }
        s
    }
}

/// A task's details as the tool server returns them.
pub struct TaskSummary {
    pub id: String,
    pub title: String,
    pub status: String,
    pub description: Option<String>,
    pub created_at: String,
    pub updated_at: String,
}

/// A slim task entry for listings, without the description.
pub struct TaskListItem {
    pub id: String,
    pub title: String,
    pub status: String,
    pub created_at: String,
    pub updated_at: String,
}

impl View for TaskListItem {
    type V = (Seq<char>, Seq<char>, Seq<char>, Seq<char>, Seq<char>);

    open spec fn view(&self) -> Self::V {
        (self.id@, self.title@, self.status@, self.created_at@, self.updated_at@)
    }
}

/// The listing entry of a task: identifier, title, stored status name and times.
pub open spec fn list_item_of(t: TaskRecord) -> (Seq<char>, Seq<char>, Seq<char>, Seq<char>, Seq<char>) {
    (t.id@, t.title@, task_status_name(t.status), t.created_at@, t.updated_at@)
}

/// The text of an optional owned string.
pub open spec fn opt_text(o: Option<String>) -> Option<Seq<char>> {
    match o {
        Some(s) => Some(s@),
        None => None,
    }
}

fn copy_opt(o: &Option<String>) -> (r: Option<String>)
    ensures
        opt_text(r) == opt_text(*o),
{
    match o {
        Some(s) => Some(s.clone()),
        None => None,
    }
}

/// The details of a task, its status by stored name.
pub fn task_to_summary(task: &TaskRecord) -> (r: TaskSummary)
    ensures
        r.id@ == task.id@,
        r.title@ == task.title@,
        r.status@ == task_status_name(task.status),
        opt_text(r.description) == opt_text(task.description),
        r.created_at@ == task.created_at@,
        r.updated_at@ == task.updated_at@,
{
    TaskSummary {
        id: task.id.clone(),
        title: task.title.clone(),
        status: String::from_str(task.status.as_str()),
        description: copy_opt(&task.description),
        created_at: task.created_at.clone(),
        updated_at: task.updated_at.clone(),
    }
}

/// The listing entry of a task.
pub fn task_to_list_item(task: &TaskRecord) -> (r: TaskListItem)
    ensures
        r@ == list_item_of(*task),
{
    TaskListItem {
        id: task.id.clone(),
        title: task.title.clone(),
        status: String::from_str(task.status.as_str()),
        created_at: task.created_at.clone(),
        updated_at: task.updated_at.clone(),
    }
}

/// The first `n` elements of `s`, or all of them when there are fewer.
pub open spec fn first_n<A>(s: Seq<A>, n: nat) -> Seq<A> {
    if n < s.len() {
        s.take(n as int)
    } else {
        s
    }
}

/// A requested limit, or `default` when none is given; a negative one counts as zero.
pub open spec fn effective_limit(limit: Option<i32>, default: i32) -> nat {
    let l = match limit {
        Some(x) => x,
        None => default,
    };
    if l < 0 {
        0
    } else {
        l as nat
    }
}

fn limit_of(limit: Option<i32>, default: i32) -> (r: usize)
    ensures
        r == effective_limit(limit, default),
{
    let l = match limit {
        Some(x) => x,
        None => default,
    };
    if l < 0 {
        0
    } else {
        l as usize
    }
}

/// The views of listing entries.
pub open spec fn item_views(v: Seq<TaskListItem>) -> Seq<(Seq<char>, Seq<char>, Seq<char>, Seq<char>, Seq<char>)> {
    v.map_values(|x: TaskListItem| x@)
}

/// The listing entries of tasks.
pub open spec fn list_items_of(v: Seq<TaskRecord>) -> Seq<(Seq<char>, Seq<char>, Seq<char>, Seq<char>, Seq<char>)> {
    v.map_values(|t: TaskRecord| list_item_of(t))
}

proof fn lemma_select_step(
    tasks: Seq<TaskRecord>,
    pred: spec_fn(TaskRecord) -> bool,
    i: int,
    lim: nat,
)
    requires
        0 <= i < tasks.len(),
    ensures
        tasks.take(i + 1).filter(pred) == if pred(tasks[i]) {
            tasks.take(i).filter(pred).push(tasks[i])
        } else {
            tasks.take(i).filter(pred)
        },
        pred(tasks[i]) && tasks.take(i).filter(pred).len() < lim ==> first_n(tasks.take(i + 1).filter(pred), lim)
            == tasks.take(i).filter(pred).push(tasks[i]),
        pred(tasks[i]) && tasks.take(i).filter(pred).len() >= lim ==> first_n(tasks.take(i + 1).filter(pred), lim)
            == first_n(tasks.take(i).filter(pred), lim),
{
    reveal(Seq::filter);
    assert(tasks.take(i + 1).drop_last() == tasks.take(i));
    let f = tasks.take(i).filter(pred);
    if pred(tasks[i]) && f.len() >= lim {
        assert(f.push(tasks[i]).take(lim as int) == first_n(f, lim));
    }
}

/// Whether a task is among the children of `parent`, when one is asked for.
pub open spec fn in_parent(t: TaskRecord, parent: Option<uuid::Uuid>) -> bool {
    match parent {
        Some(p) => t.parent_task_id == Some(p),
        None => true,
    }
}

/// Lists tasks: those under the given parent (all when none is given), at most
/// `limit` of them (50 by default), in order.
pub fn list_task_items(tasks: &Vec<TaskRecord>, parent_task_id: Option<uuid::Uuid>, limit: Option<i32>) -> (r: Vec<
    TaskListItem,
>)
    ensures
        item_views(r@) == list_items_of(
            first_n(tasks@.filter(|t: TaskRecord| in_parent(t, parent_task_id)), effective_limit(limit, 50)),
        ),
{
    let ghost pred = |t: TaskRecord| in_parent(t, parent_task_id);
    let lim = limit_of(limit, 50);
    let mut out: Vec<TaskListItem> = Vec::new();
    let mut i: usize = 0;
    while i < tasks.len()
        invariant
            i <= tasks@.len(),
            pred == (|t: TaskRecord| in_parent(t, parent_task_id)),
            lim == effective_limit(limit, 50),
            out@.len() == if tasks@.take(i as int).filter(pred).len() < lim {
                tasks@.take(i as int).filter(pred).len()
            } else {
                lim as nat
            },
            item_views(out@) == list_items_of(first_n(tasks@.take(i as int).filter(pred), lim as nat)),
        decreases tasks@.len() - i,
    {
        let t = &tasks[i];
        let keep = match (parent_task_id, t.parent_task_id) {
            (Some(p), Some(q)) => uuid_eq(&q, &p),
            (Some(_), None) => false,
            (None, _) => true,
        };
        proof {
            lemma_select_step(tasks@, pred, i as int, lim as nat);
        }
        let ghost before = out@;
        if keep && out.len() < lim {
            out.push(task_to_list_item(t));
            assert(item_views(out@) == item_views(before).push(list_item_of(*t)));
        }
        i = i + 1;
    }
    assert(tasks@.take(tasks@.len() as int) == tasks@);
    out
}

/// Whether a task's lower-cased title contains the lower-cased query.
pub open spec fn title_matches(t: TaskRecord, query_lower: Seq<char>) -> bool {
    has_infix(lowercase_of(t.title@), query_lower)
}

/// Searches tasks by title, case-insensitively: those whose title contains the
/// query, at most `limit` of them (10 by default), in order.
pub fn search_task_items(tasks: &Vec<TaskRecord>, query: &str, limit: Option<i32>) -> (r: Vec<TaskListItem>)
    ensures
        item_views(r@) == list_items_of(
            first_n(
                tasks@.filter(|t: TaskRecord| title_matches(t, lowercase_of(query@))),
                effective_limit(limit, 10),
            ),
        ),
{
    let query_lower = to_lowercase(query);
    let qv = to_chars(query_lower.as_str());
    let ghost pred = |t: TaskRecord| title_matches(t, lowercase_of(query@));
    let lim = limit_of(limit, 10);
    let mut out: Vec<TaskListItem> = Vec::new();
    let mut i: usize = 0;
    while i < tasks.len()
        invariant
            i <= tasks@.len(),
            qv@ == lowercase_of(query@),
            pred == (|t: TaskRecord| title_matches(t, lowercase_of(query@))),
            lim == effective_limit(limit, 10),
            out@.len() == if tasks@.take(i as int).filter(pred).len() < lim {
                tasks@.take(i as int).filter(pred).len()
            } else {
                lim as nat
            },
            item_views(out@) == list_items_of(first_n(tasks@.take(i as int).filter(pred), lim as nat)),
        decreases tasks@.len() - i,
    {
        let t = &tasks[i];
        let title_lower = to_lowercase(t.title.as_str());
        let tv = to_chars(title_lower.as_str());
        assert(tv@.subrange(0, tv@.len() as int) == tv@);
        let keep = contains(&tv, 0, tv.len(), &qv);
        proof {
            lemma_select_step(tasks@, pred, i as int, lim as nat);
        }
        let ghost before = out@;
        if keep && out.len() < lim {
            out.push(task_to_list_item(t));
            assert(item_views(out@) == item_views(before).push(list_item_of(*t)));
        }
        i = i + 1;
    }
    assert(tasks@.take(tasks@.len() as int) == tasks@);
    out
}

/// A project as the tool server lists it.
pub struct ProjectSummary {
    pub id: String,
    pub name: String,
    pub created_at: String,
    pub updated_at: String,
}

impl ProjectSummary {
    /// A project as the tool server lists it: its identifier (given by its
    /// 128-bit value) as hyphenated text, its name and times as given.
    pub fn from_project(id: u128, name: String, created_at: String, updated_at: String) -> (r: Self)
        ensures
            r.id@ == crate::naming::uuid_text(id),
            r.name@ == name@,
            r.created_at@ == created_at@,
            r.updated_at@ == updated_at@,
    {
        ProjectSummary { id: crate::naming::uuid_string(id), name, created_at, updated_at }
    }
}

/// The answer to a project listing, with the number of projects.
pub struct McpListProjectsResponse {
    pub projects: Vec<ProjectSummary>,
    pub count: usize,
}

/// The answer to a task listing, with the number of tasks and the project listed.
pub struct McpListTasksResponse {
    pub tasks: Vec<TaskListItem>,
    pub count: usize,
    pub project_id: String,
}

/// The answer to a title search, with the number of matches, the project and the query.
pub struct McpSearchTasksResponse {
    pub tasks: Vec<TaskListItem>,
    pub count: usize,
    pub project_id: String,
    pub query: String,
}

/// The answer to a task creation: the new task's identifier.
pub struct McpCreateTaskResponse {
    pub task_id: String,
}

/// The answer to a task creation with structured context: the new task's identifier.
pub struct McpCreateTaskWithContextResponse {
    pub task_id: String,
}

/// The answer to a task lookup.
pub struct McpGetTaskResponse {
    pub task: TaskSummary,
}

/// The answer to a task update: the task as it now stands.
pub struct McpUpdateTaskResponse {
    pub task: TaskSummary,
}

/// The answer to a task deletion: the deleted task's identifier.
pub struct McpDeleteTaskResponse {
    pub deleted_task_id: String,
}

/// The answer to a health check: the server's status and version.
pub struct McpPingResponse {
    pub status: String,
    pub version: String,
}

/// Answers a project listing, counting the projects.
pub fn list_projects_response(projects: Vec<ProjectSummary>) -> (r: McpListProjectsResponse)
    ensures
        r.projects@ == projects@,
        r.count == projects@.len(),
{
    let count = projects.len();
    McpListProjectsResponse { projects, count }
}

/// Answers a task listing: the tasks under the given parent (all when none is
/// given), at most `limit` (50 by default), counted.
pub fn list_tasks_response(
    tasks: &Vec<TaskRecord>,
    parent_task_id: Option<uuid::Uuid>,
    limit: Option<i32>,
    project_id: String,
) -> (r: McpListTasksResponse)
    ensures
        item_views(r.tasks@) == list_items_of(
            first_n(tasks@.filter(|t: TaskRecord| in_parent(t, parent_task_id)), effective_limit(limit, 50)),
        ),
        r.count == r.tasks@.len(),
        r.project_id@ == project_id@,
{
    let items = list_task_items(tasks, parent_task_id, limit);
    let count = items.len();
    McpListTasksResponse { tasks: items, count, project_id }
}

/// Answers a title search: the tasks whose title contains the query
/// (case-insensitively), at most `limit` (10 by default), counted.
pub fn search_tasks_response(tasks: &Vec<TaskRecord>, query: String, limit: Option<i32>, project_id: String) -> (r:
    McpSearchTasksResponse)
    ensures
        item_views(r.tasks@) == list_items_of(
            first_n(
                tasks@.filter(|t: TaskRecord| title_matches(t, lowercase_of(query@))),
                effective_limit(limit, 10),
            ),
        ),
        r.count == r.tasks@.len(),
        r.project_id@ == project_id@,
        r.query@ == query@,
{
    let items = search_task_items(tasks, query.as_str(), limit);
    let count = items.len();
    McpSearchTasksResponse { tasks: items, count, project_id, query }
}

} // verus!
