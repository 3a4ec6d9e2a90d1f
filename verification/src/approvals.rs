//! Matching an approval request to the tool use that asked for it.
use vstd::prelude::*;
use vstd::string::*;
use crate::text::str_eq;
use crate::status::TaskStatus;
use crate::execution::ExecutionProcessStatus;
use crate::compose::string_views;

verus! {

/// What the approval matcher reads of one tool use in an execution's history:
/// the entry index its patch carries, whether the tool use is still in the
/// created state, and the tool call id of its metadata, when that parses.
pub struct ToolUseRecord {
    pub index: usize,
    pub created: bool,
    pub tool_call_id: Option<String>,
}

/// A tool use that an approval for `tool_call_id` can be assigned to: still
/// created (not yet pending approval or finished), with that tool call id.
pub open spec fn assignable(r: ToolUseRecord, tool_call_id: Seq<char>) -> bool {
    r.created && (r.tool_call_id matches Some(id) && id@ == tool_call_id)
}

/// Finds the latest tool use in the history that an approval for `tool_call_id`
/// can be assigned to, and returns its entry index and its position in the history.
pub fn find_matching_tool_use(history: &Vec<ToolUseRecord>, tool_call_id: &str) -> (r: Option<(usize, usize)>)
    ensures
        r matches Some((idx, pos)) ==> pos < history@.len() && assignable(history@[pos as int], tool_call_id@)
            && idx == history@[pos as int].index && forall|q: int|
            pos < q < history@.len() ==> !assignable(#[trigger] history@[q], tool_call_id@),
        r is None ==> forall|q: int| 0 <= q < history@.len() ==> !assignable(#[trigger] history@[q], tool_call_id@),
{
    let mut k: usize = history.len();
    while k > 0
        invariant
            k <= history@.len(),
            forall|q: int| k <= q < history@.len() ==> !assignable(#[trigger] history@[q], tool_call_id@),
        decreases k,
    {
        let rec = &history[k - 1];
        if rec.created {
            if let Some(id) = &rec.tool_call_id {
                if str_eq(id.as_str(), tool_call_id) {
                    return Some((rec.index, k - 1));
                }
            }
        }
        k = k - 1;
    }
    None
}

/// A user's answer to an approval request.
#[derive(Debug, Clone, Copy, PartialEq, Eq, Structural)]
pub enum ApprovalDecision {
    Approved,
    Denied,
    TimedOut,
    Pending,
}

/// The status stored for each answer.
pub open spec fn decision_name(d: ApprovalDecision) -> Seq<char> {
    match d {
        ApprovalDecision::Approved => "approved"@,
        ApprovalDecision::Denied => "denied"@,
        ApprovalDecision::TimedOut => "timed_out"@,
        ApprovalDecision::Pending => "pending"@,
    }
}

/// The status stored for an answer.
pub fn stored_decision(d: ApprovalDecision) -> (r: &'static str)
    ensures
        r@ == decision_name(d),
{
    match d {
        ApprovalDecision::Approved => "approved",
        ApprovalDecision::Denied => "denied",
        ApprovalDecision::TimedOut => "timed_out",
        ApprovalDecision::Pending => "pending",
    }
}

/// Where an answer to an approval is delivered.
#[derive(Debug, Clone, Copy, PartialEq, Eq, Structural)]
pub enum RespondRoute {
    /// The approval is still awaited in memory: answer the waiting agent.
    Live,
    /// The approval was already answered: refuse.
    AlreadyCompleted,
    /// Neither: look for it among the stored approvals (left over from a restart).
    CheckStored,
}

/// Decides where an answer to an approval goes.
pub fn respond_route(awaited: bool, completed: bool) -> (r: RespondRoute)
    ensures
        r == if awaited {
            RespondRoute::Live
        } else if completed {
            RespondRoute::AlreadyCompleted
        } else {
            RespondRoute::CheckStored
        },
{
    if awaited {
        RespondRoute::Live
    } else if completed {
        RespondRoute::AlreadyCompleted
    } else {
        RespondRoute::CheckStored
    }
}

/// Whether a stored approval can still be answered: it exists and is still pending.
pub fn stored_answerable(stored_status: Option<&str>) -> (r: bool)
    ensures
        r == (stored_status matches Some(s) && s@ == "pending"@),
{
    match stored_status {
        Some(s) => str_eq(s, "pending"),
        None => false,
    }
}

/// The status a task moves to when an approval is requested from it: from
/// `ralph` to `qa`, else unchanged.
pub fn status_on_request(task_status: TaskStatus) -> (r: Option<TaskStatus>)
    ensures
        r == if task_status == TaskStatus::Ralph {
            Some(TaskStatus::QA)
        } else {
            None::<TaskStatus>
        },
{
    if task_status == TaskStatus::Ralph {
        Some(TaskStatus::QA)
    } else {
        None
    }
}

/// The status a task moves back to when its approval is approved or denied:
/// from `qa` to `ralph`, else unchanged.
pub fn status_on_response(decision: ApprovalDecision, task_status: TaskStatus) -> (r: Option<TaskStatus>)
    ensures
        r == if (decision == ApprovalDecision::Approved || decision == ApprovalDecision::Denied) && task_status
            == TaskStatus::QA {
            Some(TaskStatus::Ralph)
        } else {
            None::<TaskStatus>
        },
{
    if (decision == ApprovalDecision::Approved || decision == ApprovalDecision::Denied) && task_status
        == TaskStatus::QA {
        Some(TaskStatus::Ralph)
    } else {
        None
    }
}

/// Whether an approved answer to an approval left over from a restart plans
/// its task again: its run has ended and the task is still being planned.
pub fn replans_after_answer(
    decision: ApprovalDecision,
    process_status: ExecutionProcessStatus,
    task_status: TaskStatus,
) -> (r: bool)
    ensures
        r == (decision == ApprovalDecision::Approved && process_status != ExecutionProcessStatus::Running
            && task_status == TaskStatus::PlanGenerating),
{
    decision == ApprovalDecision::Approved && process_status != ExecutionProcessStatus::Running && task_status
        == TaskStatus::PlanGenerating
}

/// The answer given to `q`, if any: the value under the first entry with that question.
pub open spec fn answer_to(response: Seq<(Seq<char>, Seq<char>)>, q: Seq<char>) -> Option<Seq<char>>
    decreases response.len(),
{
    if response.len() == 0 {
        None
    } else if response[0].0 == q {
        Some(response[0].1)
    } else {
        answer_to(response.drop_first(), q)
    }
}

/// The questions with their answers, in the order asked, each question once.
pub open spec fn answered_questions(questions: Seq<Seq<char>>, response: Seq<(Seq<char>, Seq<char>)>) -> Seq<
    (Seq<char>, Seq<char>),
>
    decreases questions.len(),
{
    if questions.len() == 0 {
        seq![]
    } else {
        let prev = answered_questions(questions.drop_last(), response);
        let q = questions.last();
        if questions.drop_last().contains(q) {
            prev
        } else {
            match answer_to(response, q) {
                Some(a) => prev.push((q, a)),
                None => prev,
            }
        }
    }
}

/// Each question is answered at most once, and only questions that were asked
/// are answered; so the answers can be quoted in a planning prompt as they are.
pub proof fn lemma_answered_questions_distinct(questions: Seq<Seq<char>>, response: Seq<(Seq<char>, Seq<char>)>)
    ensures
        crate::prompts::distinct_questions(answered_questions(questions, response)),
        forall|k: int|
            0 <= k < answered_questions(questions, response).len() ==> questions.contains(
                #[trigger] answered_questions(questions, response)[k].0,
            ),
    decreases questions.len(),
{
    if questions.len() > 0 {
        let d = questions.drop_last();
        lemma_answered_questions_distinct(d, response);
        let prev = answered_questions(d, response);
        assert forall|k: int| 0 <= k < prev.len() implies questions.contains(#[trigger] prev[k].0) by {
            let x = choose|x: int| 0 <= x < d.len() && d[x] == prev[k].0;
            assert(questions[x] == d[x]);
        }
        assert(questions[questions.len() - 1] == questions.last());
    }
}

/// The text of question and answer pairs.
pub open spec fn pair_views(v: Seq<(String, String)>) -> Seq<(Seq<char>, Seq<char>)> {
    v.map_values(|p: (String, String)| (p.0@, p.1@))
}

fn find_answer(response: &Vec<(String, String)>, q: &str) -> (r: Option<usize>)
    ensures
        match r {
            Some(j) => j < response@.len() && answer_to(pair_views(response@), q@) == Some(response@[j as int].1@),
            None => answer_to(pair_views(response@), q@) is None,
        },
{
    let ghost pv = pair_views(response@);
    let mut j: usize = 0;
    assert(pv.skip(0) == pv);
    while j < response.len()
        invariant
            j <= response@.len(),
            pv == pair_views(response@),
            answer_to(pv, q@) == answer_to(pv.skip(j as int), q@),
        decreases response@.len() - j,
    {
        assert(pv.skip(j as int)[0] == (response@[j as int].0@, response@[j as int].1@));
        assert(pv.skip(j as int).drop_first() == pv.skip(j + 1));
        if str_eq(response[j].0.as_str(), q) {
            return Some(j);
        }
        j = j + 1;
    }
    None
}

/// Pairs the questions of an approval request with the user's answers (given as
/// question and answer entries): in the order asked, each question once,
/// leaving out questions without an answer.
pub fn answers_from_approval(questions: &Vec<String>, response: &Vec<(String, String)>) -> (r: Vec<(String, String)>)
    ensures
        pair_views(r@) == answered_questions(string_views(questions@), pair_views(response@)),
{
    let ghost qs = string_views(questions@);
    let mut out: Vec<(String, String)> = Vec::new();
    let mut i: usize = 0;
    while i < questions.len()
        invariant
            i <= questions@.len(),
            qs == string_views(questions@),
            pair_views(out@) == answered_questions(qs.take(i as int), pair_views(response@)),
        decreases questions@.len() - i,
    {
        let q = questions[i].as_str();
        let mut seen = false;
        let mut k: usize = 0;
        while k < i
            invariant
                k <= i < questions@.len(),
                qs == string_views(questions@),
                q@ == qs[i as int],
                seen == exists|x: int| 0 <= x < k && qs[x] == qs[i as int],
            decreases i - k,
        {
            assert(qs[k as int] == questions@[k as int]@);
            if str_eq(questions[k].as_str(), q) {
                seen = true;
            }
            k = k + 1;
        }
        proof {
            assert(qs.take(i + 1).drop_last() == qs.take(i as int));
            assert(qs.take(i + 1).last() == qs[i as int]);
            if seen {
                let x = choose|x: int| 0 <= x < i && qs[x] == qs[i as int];
                assert(qs.take(i as int)[x] == qs[i as int]);
            } else {
                assert forall|x: int| 0 <= x < qs.take(i as int).len() implies qs.take(i as int)[x] != qs[i as int] by {
                    assert(qs.take(i as int)[x] == qs[x]);
                }
            }
        }
        if !seen {
            match find_answer(response, q) {
                Some(j) => {
                    let ghost before = out@;
                    out.push((questions[i].clone(), response[j].1.clone()));
                    assert(pair_views(out@) == pair_views(before).push((qs[i as int], response@[j as int].1@)));
                },
                None => {},
            }
        }
        i = i + 1;
    }
    assert(qs.take(questions@.len() as int) == qs);
    out
}

} // verus!
