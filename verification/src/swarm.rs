//! Decisions of the swarm coordinator: spawning agents, successions after a
//! context limit, sub-swarms, completion, and the verifier's inputs.
use vstd::prelude::*;
use vstd::string::*;
use crate::status::{SwarmStatus, SwarmAgentStatus, RecoveryStrategy};
use crate::text::{push_char, push_decimal, decimal, byte_len};
use crate::compose::{join_with, string_views, push_joined, cut_ok, is_cut, head_bytes};
use crate::ids::uuid_eq;
use crate::prompts::SpecSheet;

verus! {

broadcast use vstd::utf8::encode_utf8_valid_utf8, vstd::utf8::is_char_boundary_start_end_of_seq;

/// Generations after which an agent is not succeeded again.
pub const MAX_GENERATIONS: i64 = 5;

/// Agents a swarm may hold before it is failed.
pub const MAX_TOTAL_AGENTS: usize = 50;

/// What spawning the eligible agents of a swarm came to.
#[derive(Debug)]
pub enum SpawnResult {
    /// One agent started.
    AgentStarted(uuid::Uuid),
    /// Several agents started.
    AgentsStarted(Vec<uuid::Uuid>),
    /// No agent is eligible and all are complete: the swarm completed.
    AllComplete,
    /// No agent is eligible (or none started) though not all are complete.
    Deadlocked,
}

/// What to do about a swarm's eligible agents.
#[derive(Debug, Clone, Copy, PartialEq, Eq, Structural)]
pub enum SpawnDecision {
    /// None is eligible and all are complete: complete the swarm.
    CompleteSwarm,
    /// None is eligible but some are not complete: fail the swarm as deadlocked.
    FailDeadlocked,
    /// The swarm already holds the most agents allowed: fail it.
    FailOverCap,
    /// Spawn every eligible agent.
    SpawnEligible,
}

/// The decision for a swarm with `eligible` eligible agents, whether all its
/// agents are complete, and how many agents it holds.
pub open spec fn spawn_decision_for(eligible: nat, all_complete: bool, total_agents: nat) -> SpawnDecision {
    if eligible == 0 {
        if all_complete {
            SpawnDecision::CompleteSwarm
        } else {
            SpawnDecision::FailDeadlocked
        }
    } else if total_agents >= MAX_TOTAL_AGENTS {
        SpawnDecision::FailOverCap
    } else {
        SpawnDecision::SpawnEligible
    }
}

/// Decides what to do about a swarm's eligible agents.
pub fn spawn_decision(eligible: usize, all_complete: bool, total_agents: usize) -> (r: SpawnDecision)
    ensures
        r == spawn_decision_for(eligible as nat, all_complete, total_agents as nat),
{
    if eligible == 0 {
        if all_complete {
            SpawnDecision::CompleteSwarm
        } else {
            SpawnDecision::FailDeadlocked
        }
    } else if total_agents >= MAX_TOTAL_AGENTS {
        SpawnDecision::FailOverCap
    } else {
        SpawnDecision::SpawnEligible
    }
}

/// The result of spawning: deadlocked when none started, the one agent when
/// one did, else all of them in order.
pub fn spawn_result(started: Vec<uuid::Uuid>) -> (r: SpawnResult)
    ensures
        started@.len() == 0 ==> r is Deadlocked,
        started@.len() == 1 ==> (r matches SpawnResult::AgentStarted(id) && id == started@[0]),
        started@.len() > 1 ==> (r matches SpawnResult::AgentsStarted(ids) && ids@ == started@),
{
    if started.len() == 0 {
        SpawnResult::Deadlocked
    } else if started.len() == 1 {
        SpawnResult::AgentStarted(started[0])
    } else {
        SpawnResult::AgentsStarted(started)
    }
}

/// The work an agent is given for a task: its title, then its description
/// after a blank line when it has one.
pub open spec fn subtask_text(title: Seq<char>, description: Option<Seq<char>>) -> Seq<char> {
    match description {
        Some(d) => title + "\n\n"@ + d,
        None => title,
    }
}

/// Builds the work an agent is given for a task or a decomposed story.
pub fn subtask_description(title: &str, description: Option<&str>) -> (r: String)
    ensures
        r@ == subtask_text(
            title@,
            match description {
                Some(d) => Some(d@),
                None => None,
            },
        ),
{
    let mut s = String::from_str(title);
    if let Some(d) = description {
        s.append("\n\n");
        s.append(d);
    }
    s
}

/// The decimal text of a signed integer, as `Display` writes it.
pub open spec fn signed_decimal(n: int) -> Seq<char> {
    if n < 0 {
        seq!['-'] + decimal((-n) as nat)
    } else {
        decimal(n as nat)
    }
}

fn push_signed_decimal(p: &mut String, n: i64)
    ensures
        final(p)@ == old(p)@ + signed_decimal(n as int),
{
    if n < 0 {
        push_char(p, '-');
        let m: u64 = ((-(n + 1)) as u64) + 1;
        push_decimal(p, m);
    } else {
        push_decimal(p, n as u64);
    }
}

/// The branch an agent of a swarm works on: `swarm/<swarm id>/gen-<generation>`.
pub open spec fn agent_branch_text(swarm_id: Seq<char>, generation: int) -> Seq<char> {
    "swarm/"@ + swarm_id + "/gen-"@ + signed_decimal(generation)
}

/// Names the git branch of an agent of the given generation.
pub fn agent_git_branch(swarm_id: &str, generation: i64) -> (r: String)
    ensures
        r@ == agent_branch_text(swarm_id@, generation as int),
{
    let mut s = String::from_str("swarm/");
    s.append(swarm_id);
    s.append("/gen-");
    push_signed_decimal(&mut s, generation);
    s
}

/// The working directory an agent is started in: the workspace's, unless empty.
pub fn agent_working_dir(dir: Option<String>) -> (r: Option<String>)
    ensures
        match dir {
            Some(d) => if d@.len() > 0 {
                r matches Some(x) && x@ == d@
            } else {
                r is None
            },
            None => r is None,
        },
{
    match dir {
        Some(d) => {
            if d.as_str().is_empty() {
                None
            } else {
                Some(d)
            }
        },
        None => None,
    }
}

/// Whether a finished agent is succeeded (it stopped at its context threshold)
/// rather than marked completed.
pub fn begins_succession(status: SwarmAgentStatus) -> (r: bool)
    ensures
        r == (status == SwarmAgentStatus::Threshold),
{
    status == SwarmAgentStatus::Threshold
}

/// Whether an agent of this generation may still be succeeded.
pub fn succession_allowed(generation: i64) -> (r: bool)
    ensures
        r == (generation < MAX_GENERATIONS),
{
    generation < MAX_GENERATIONS
}

/// How a succession starts for an agent that reached its context threshold.
#[derive(Debug, Clone, Copy, PartialEq, Eq, Structural)]
pub enum SuccessionStart {
    /// The agent is at the generation cap: mark the agent and its swarm with
    /// these statuses and report that the cap was exceeded; no successor follows.
    Refuse { agent_status: SwarmAgentStatus, swarm_status: SwarmStatus },
    /// Count the succession, then take the agent's self-assessment from its
    /// run when it has one (`from_run`), else the standard wrap-up note.
    Proceed { from_run: bool },
}

/// The start of a succession: refused, with the agent and the swarm failed, at
/// or above the generation cap; otherwise it proceeds.
pub open spec fn succession_start_for(generation: i64, has_run: bool) -> SuccessionStart {
    if generation >= MAX_GENERATIONS {
        SuccessionStart::Refuse { agent_status: SwarmAgentStatus::Failed, swarm_status: SwarmStatus::Failed }
    } else {
        SuccessionStart::Proceed { from_run: has_run }
    }
}

/// Decides how a succession starts, from the agent's generation and whether it
/// has an execution run to read its self-assessment from.
pub fn succession_start(generation: i64, has_run: bool) -> (r: SuccessionStart)
    ensures
        r == succession_start_for(generation, has_run),
        r is Refuse <==> !(generation < MAX_GENERATIONS),
{
    if generation >= MAX_GENERATIONS {
        SuccessionStart::Refuse { agent_status: SwarmAgentStatus::Failed, swarm_status: SwarmStatus::Failed }
    } else {
        SuccessionStart::Proceed { from_run: has_run }
    }
}

/// The self-assessment recorded for an agent without an execution run.
pub open spec fn wrap_up_note() -> Seq<char> {
    "Agent hit context threshold and was instructed to wrap up."@
}

/// The self-assessment recorded for an agent without an execution run.
pub fn default_self_assessment() -> (r: String)
    ensures
        r@ == wrap_up_note(),
{
    String::from_str("Agent hit context threshold and was instructed to wrap up.")
}

/// How a succession proceeds once the recovery strategy is chosen.
#[derive(Debug, Clone, Copy, PartialEq, Eq, Structural)]
pub enum SuccessionPlan {
    /// Split the agent's work into a sub-swarm.
    Redecompose,
    /// Fail the agent and its succession; fail the swarm too when it is a sub-swarm.
    Escalate { fail_swarm: bool },
    /// Create a successor agent of the next generation and spawn it.
    CreateSuccessor,
}

/// The plan for each recovery strategy.
pub open spec fn succession_plan_for(strategy: RecoveryStrategy, is_sub_swarm: bool) -> SuccessionPlan {
    match strategy {
        RecoveryStrategy::Redecomposition => SuccessionPlan::Redecompose,
        RecoveryStrategy::Escalation => SuccessionPlan::Escalate { fail_swarm: is_sub_swarm },
        _ => SuccessionPlan::CreateSuccessor,
    }
}

/// Decides how a succession proceeds for the chosen strategy.
pub fn succession_plan(strategy: RecoveryStrategy, is_sub_swarm: bool) -> (r: SuccessionPlan)
    ensures
        r == succession_plan_for(strategy, is_sub_swarm),
{
    match strategy {
        RecoveryStrategy::Redecomposition => SuccessionPlan::Redecompose,
        RecoveryStrategy::Escalation => SuccessionPlan::Escalate { fail_swarm: is_sub_swarm },
        _ => SuccessionPlan::CreateSuccessor,
    }
}

/// The generation of an agent's successor.
pub fn successor_generation(generation: i64) -> (r: i64)
    requires
        generation < MAX_GENERATIONS,
    ensures
        r == generation + 1,
{
    generation + 1
}

/// Whether a sub-swarm may be created below a swarm of this depth: only while
/// the new depth stays below the swarm's maximum.
pub fn can_redecompose(depth: i64, max_depth: i64) -> (r: bool)
    requires
        depth < i64::MAX,
    ensures
        r == (depth + 1 < max_depth),
{
    depth + 1 < max_depth
}

/// Whether a swarm in this status can be cancelled: only while pending or running.
pub fn cancellable(status: SwarmStatus) -> (r: bool)
    ensures
        r == (status == SwarmStatus::Running || status == SwarmStatus::Pending),
{
    status == SwarmStatus::Running || status == SwarmStatus::Pending
}

/// Whether cancelling a swarm stops this agent (and marks it failed): only a running one.
pub fn stopped_on_cancel(status: SwarmAgentStatus) -> (r: bool)
    ensures
        r == (status == SwarmAgentStatus::Running),
{
    status == SwarmAgentStatus::Running
}

/// What the aggregation check of a swarm has just learned.
#[derive(Debug, Clone, Copy, PartialEq, Eq, Structural)]
pub enum AggregationEvent {
    /// Whether the swarm's agents could be read.
    AgentsRead(bool),
    /// How many of them completed.
    CompletedCounted(usize),
    /// Whether the swarm's task could be read.
    TaskRead(bool),
    /// Whether the aggregation agent ran and exited successfully.
    AggregatorRan(bool),
    /// Its answer parsed: whether the work is complete, and its coverage percentage.
    ResultParsed { complete: bool, coverage_pct: u8 },
    /// Its answer did not parse.
    ResultUnreadable,
}

/// What the aggregation check does next.
#[derive(Debug, Clone, Copy, PartialEq, Eq, Structural)]
pub enum AggregationAction {
    /// Count the completed agents and summarize their work.
    SummarizeAgents,
    /// Read the swarm's task.
    ReadTask,
    /// Run the aggregation agent on the task, the summaries and the git diff.
    RunAggregator,
    /// Parse the aggregation agent's answer.
    ParseResult,
    /// Stop, reporting whether the swarm may complete.
    Finish(bool),
}

/// The step after each thing the aggregation check learns. The check fails
/// open: when the agents or the task cannot be read, no agent completed, the
/// aggregation agent fails, or its answer does not parse, the swarm may
/// complete; only a parsed answer that reports incomplete work covering less
/// than half of the task holds it back.
pub open spec fn aggregation_step(event: AggregationEvent) -> AggregationAction {
    match event {
        AggregationEvent::AgentsRead(ok) => if ok {
            AggregationAction::SummarizeAgents
        } else {
            AggregationAction::Finish(true)
        },
        AggregationEvent::CompletedCounted(n) => if n > 0 {
            AggregationAction::ReadTask
        } else {
            AggregationAction::Finish(true)
        },
        AggregationEvent::TaskRead(ok) => if ok {
            AggregationAction::RunAggregator
        } else {
            AggregationAction::Finish(true)
        },
        AggregationEvent::AggregatorRan(ok) => if ok {
            AggregationAction::ParseResult
        } else {
            AggregationAction::Finish(true)
        },
        AggregationEvent::ResultParsed { complete, coverage_pct } => AggregationAction::Finish(
            complete || coverage_pct >= 50,
        ),
        AggregationEvent::ResultUnreadable => AggregationAction::Finish(true),
    }
}

/// Decides the aggregation check's next step.
pub fn next_aggregation_action(event: AggregationEvent) -> (r: AggregationAction)
    ensures
        r == aggregation_step(event),
{
    match event {
        AggregationEvent::AgentsRead(ok) => if ok {
            AggregationAction::SummarizeAgents
        } else {
            AggregationAction::Finish(true)
        },
        AggregationEvent::CompletedCounted(n) => if n > 0 {
            AggregationAction::ReadTask
        } else {
            AggregationAction::Finish(true)
        },
        AggregationEvent::TaskRead(ok) => if ok {
            AggregationAction::RunAggregator
        } else {
            AggregationAction::Finish(true)
        },
        AggregationEvent::AggregatorRan(ok) => if ok {
            AggregationAction::ParseResult
        } else {
            AggregationAction::Finish(true)
        },
        AggregationEvent::ResultParsed { complete, coverage_pct } => AggregationAction::Finish(
            aggregation_passes(complete, coverage_pct),
        ),
        AggregationEvent::ResultUnreadable => AggregationAction::Finish(true),
    }
}

/// The aggregation check fails only on a parsed answer reporting incomplete
/// work below half coverage; every other outcome lets the swarm complete.
pub proof fn lemma_aggregation_fails_only_on_low_coverage(event: AggregationEvent)
    ensures
        aggregation_step(event) == AggregationAction::Finish(false) <==> (event matches AggregationEvent::ResultParsed {
            complete,
            coverage_pct,
        } && !complete && coverage_pct < 50),
{
}

/// Whether an aggregation check lets a swarm complete: it fails only when the
/// work is incomplete and covers less than half of the task.
pub fn aggregation_passes(complete: bool, coverage_pct: u8) -> (r: bool)
    ensures
        r == (complete || coverage_pct >= 50),
{
    !(!complete && coverage_pct < 50)
}

/// Among `msgs`, the last `k` that are not empty, in their original order.
pub open spec fn recent_nonempty(msgs: Seq<Seq<char>>, k: nat) -> Seq<Seq<char>>
    decreases msgs.len(),
{
    if msgs.len() == 0 || k == 0 {
        seq![]
    } else if msgs.last().len() > 0 {
        recent_nonempty(msgs.drop_last(), (k - 1) as nat).push(msgs.last())
    } else {
        recent_nonempty(msgs.drop_last(), k)
    }
}

/// What is recorded when an agent said nothing before stopping.
pub open spec fn no_assessment_text() -> Seq<char> {
    "Agent hit context threshold and was instructed to wrap up."@
}

/// An agent's self-assessment before its cap: its last three non-empty
/// assistant messages in order, separated by rules, or the default text when
/// there are none.
pub open spec fn combined_assessment(msgs: Seq<Seq<char>>) -> Seq<char> {
    let parts = recent_nonempty(msgs, 3);
    if parts.len() == 0 {
        no_assessment_text()
    } else {
        join_with(parts, "\n\n---\n\n"@)
    }
}

/// Most bytes of a self-assessment handed to the verifier.
pub const SELF_ASSESSMENT_CAP: usize = 5000;

/// Combines an agent's assistant messages (oldest first) into its
/// self-assessment, before the cap is applied.
pub fn combined_self_assessment(assistant_messages: &Vec<String>) -> (r: String)
    ensures
        r@ == combined_assessment(string_views(assistant_messages@)),
{
    let ghost v = string_views(assistant_messages@);
    let mut picked: Vec<usize> = Vec::new();
    let ghost mut tail: Seq<Seq<char>> = seq![];
    let mut j: usize = assistant_messages.len();
    assert(v.take(j as int) == v);
    while j > 0 && picked.len() < 3
        invariant
            j <= assistant_messages@.len(),
            v == string_views(assistant_messages@),
            picked@.len() <= 3,
            tail.len() == picked@.len(),
            forall|i: int| 0 <= i < picked@.len() ==> #[trigger] picked@[i] < assistant_messages@.len(),
            forall|i: int|
                0 <= i < picked@.len() ==> tail[picked@.len() - 1 - i] == v[#[trigger] picked@[i] as int],
            recent_nonempty(v, 3) == recent_nonempty(v.take(j as int), (3 - picked@.len()) as nat) + tail,
        decreases j,
    {
        let m = &assistant_messages[j - 1];
        assert(v.take(j as int).drop_last() == v.take(j - 1));
        assert(v.take(j as int).last() == v[j - 1]);
        if !m.as_str().is_empty() {
            proof {
                assert(recent_nonempty(v.take(j as int), (3 - picked@.len()) as nat) == recent_nonempty(
                    v.take(j - 1),
                    (3 - picked@.len() - 1) as nat,
                ).push(v[j - 1]));
                assert(seq![v[j - 1]] + tail == seq![v[j - 1]].add(tail));
                tail = seq![v[j - 1]] + tail;
            }
            picked.push(j - 1);
        }
        j = j - 1;
    }
    assert(recent_nonempty(v.take(j as int), (3 - picked@.len()) as nat) =~= seq![]);
    assert(recent_nonempty(v, 3) == tail);
    if picked.len() == 0 {
        return String::from_str("Agent hit context threshold and was instructed to wrap up.");
    }
    let mut out = String::new();
    let mut i: usize = 0;
    let n = picked.len();
    while i < n
        invariant
            n == picked@.len() == tail.len(),
            0 < n <= 3,
            i <= n,
            v == string_views(assistant_messages@),
            forall|k: int| 0 <= k < n ==> #[trigger] picked@[k] < assistant_messages@.len(),
            forall|k: int| 0 <= k < n ==> tail[n - 1 - k] == v[#[trigger] picked@[k] as int],
            out@ == join_with(tail.take(i as int), "\n\n---\n\n"@),
        decreases n - i,
    {
        if i > 0 {
            out.append("\n\n---\n\n");
        }
        let k = picked[n - 1 - i];
        out.append(assistant_messages[k].as_str());
        assert(tail[i as int] == v[picked@[n - 1 - i] as int]);
        assert(tail.take(i + 1).drop_last() == tail.take(i as int));
        assert(tail.take(1) =~= seq![tail[0]]);
        i = i + 1;
    }
    assert(tail.take(n as int) == tail);
    out
}

/// An agent's self-assessment as handed to the verifier: the combined text,
/// cut to its first five thousand bytes.
pub fn self_assessment(assistant_messages: &Vec<String>) -> (r: String)
    requires
        cut_ok(combined_assessment(string_views(assistant_messages@)), SELF_ASSESSMENT_CAP),
    ensures
        is_cut(combined_assessment(string_views(assistant_messages@)), SELF_ASSESSMENT_CAP, r@),
{
    let combined = combined_self_assessment(assistant_messages);
    String::from_str(head_bytes(combined.as_str(), SELF_ASSESSMENT_CAP))
}

/// Most bytes of a git diff summary handed to a verifier.
pub const GIT_DIFF_CAP: usize = 5000;

/// The git diff summary handed to verifiers: the diff's output (cut to five
/// thousand bytes and marked when longer), or a note when the diff failed.
pub open spec fn diff_summary_text(diff: Option<Seq<char>>, r: Seq<char>) -> bool {
    match diff {
        Some(d) => if byte_len(d) > GIT_DIFF_CAP {
            exists|head: Seq<char>| is_cut(d, GIT_DIFF_CAP, head) && r == head + "...(truncated)"@
        } else {
            r == d
        },
        None => r == "(git diff unavailable)"@,
    }
}

/// Summarizes the output of `git diff --stat` (`None` when it failed).
pub fn git_diff_summary(diff: Option<&str>) -> (r: String)
    requires
        diff matches Some(d) ==> cut_ok(d@, GIT_DIFF_CAP),
    ensures
        diff_summary_text(
            match diff {
                Some(d) => Some(d@),
                None => None,
            },
            r@,
        ),
{
    match diff {
        Some(d) => {
            if d.len() > GIT_DIFF_CAP {
                let head = head_bytes(d, GIT_DIFF_CAP);
                let mut s = String::from_str(head);
                s.append("...(truncated)");
                s
            } else {
                String::from_str(d)
            }
        },
        None => String::from_str("(git diff unavailable)"),
    }
}

/// The prompt asking the verifier to evaluate a predecessor's work.
pub open spec fn verifier_prompt_text(subtask: Seq<char>, git_diff: Seq<char>, self_assessment: Seq<char>) -> Seq<
    char,
> {
    "You are a code verification agent. Evaluate the work done on a subtask.\n\n## Original Subtask\n"@ + subtask
        + "\n\n## Git Diff Summary\n"@ + git_diff + "\n\n## Agent Self-Assessment\n"@ + self_assessment
        + "\n\n## Instructions\nEvaluate what was actually completed vs what was claimed. Respond with ONLY a JSON object:\n\n"@
        + "{\"completed\": [\"list of completed items\"], \"issues\": [\"list of issues found\"], \"remaining\": [\"list of remaining work\"], \"confidence\": 0.0 to 1.0}\n\n"@
        + "The confidence score should reflect how much of the subtask was successfully completed (1.0 = fully done, 0.0 = nothing done)."@
}

/// Builds the verifier's prompt from the subtask, the diff and the agent's self-assessment.
pub fn verifier_prompt(subtask: &str, git_diff: &str, self_assessment: &str) -> (r: String)
    ensures
        r@ == verifier_prompt_text(subtask@, git_diff@, self_assessment@),
{
    let mut p = String::from_str(
        "You are a code verification agent. Evaluate the work done on a subtask.\n\n## Original Subtask\n",
    );
    p.append(subtask);
    p.append("\n\n## Git Diff Summary\n");
    p.append(git_diff);
    p.append("\n\n## Agent Self-Assessment\n");
    p.append(self_assessment);
    p.append(
        "\n\n## Instructions\nEvaluate what was actually completed vs what was claimed. Respond with ONLY a JSON object:\n\n",
    );
    p.append(
        "{\"completed\": [\"list of completed items\"], \"issues\": [\"list of issues found\"], \"remaining\": [\"list of remaining work\"], \"confidence\": 0.0 to 1.0}\n\n",
    );
    p.append(
        "The confidence score should reflect how much of the subtask was successfully completed (1.0 = fully done, 0.0 = nothing done).",
    );
    p
}

/// What the aggregation check reads of one agent of a swarm.
pub struct AgentWork {
    pub status: SwarmAgentStatus,
    pub generation: i64,
    pub subtask_description: String,
}

/// The first `n` characters of `s`, or all of it when shorter.
pub open spec fn first_chars(s: Seq<char>, n: nat) -> Seq<char> {
    if n < s.len() {
        s.take(n as int)
    } else {
        s
    }
}

/// The summary line of the `i`-th completed agent (counting from zero).
pub open spec fn work_line(i: nat, a: AgentWork) -> Seq<char> {
    "Agent "@ + decimal(i + 1) + " (gen "@ + signed_decimal(a.generation as int) + "): "@ + first_chars(
        a.subtask_description@,
        200,
    )
}

/// Numbered summary lines of the completed agents, in order, each quoting the
/// first two hundred characters of its work.
pub open spec fn work_lines(agents: Seq<AgentWork>) -> Seq<Seq<char>>
    decreases agents.len(),
{
    if agents.len() == 0 {
        seq![]
    } else {
        let prev = work_lines(agents.drop_last());
        if agents.last().status == SwarmAgentStatus::Completed {
            prev.push(work_line(prev.len(), agents.last()))
        } else {
            prev
        }
    }
}

/// Summarizes the completed agents' work for the aggregation check.
pub fn agent_work_summaries(agents: &Vec<AgentWork>) -> (r: Vec<String>)
    requires
        agents@.len() < u64::MAX,
    ensures
        string_views(r@) == work_lines(agents@),
{
    let mut out: Vec<String> = Vec::new();
    let mut i: usize = 0;
    while i < agents.len()
        invariant
            i <= agents@.len() < u64::MAX,
            out@.len() <= i,
            string_views(out@) == work_lines(agents@.take(i as int)),
        decreases agents@.len() - i,
    {
        let a = &agents[i];
        assert(agents@.take(i + 1).drop_last() == agents@.take(i as int));
        if a.status == SwarmAgentStatus::Completed {
            let mut line = String::from_str("Agent ");
            push_decimal(&mut line, (out.len() as u64) + 1);
            line.append(" (gen ");
            push_signed_decimal(&mut line, a.generation);
            line.append("): ");
            let cv = crate::text::to_chars(a.subtask_description.as_str());
            let n = if cv.len() < 200 {
                cv.len()
            } else {
                200
            };
            crate::text::push_chars(&mut line, &cv, 0, n);
            assert(cv@.subrange(0, n as int) == first_chars(a.subtask_description@, 200));
            let ghost before = out@;
            out.push(line);
            assert(string_views(out@) == string_views(before).push(line@));
        }
        i = i + 1;
    }
    assert(agents@.take(agents@.len() as int) == agents@);
    out
}

/// The prompt asking the aggregation agent whether the agents' work covers the task.
pub open spec fn aggregation_prompt_text(
    title: Seq<char>,
    description: Option<Seq<char>>,
    summaries: Seq<Seq<char>>,
    git_diff: Seq<char>,
) -> Seq<char> {
    "You are a result aggregation agent. Verify that the following agents' work covers the original task.\n\n## Original Task\n"@
        + title + "\n\n"@ + match description {
        Some(d) => d,
        None => "(no description)"@,
    } + "\n\n## Agent Work Summary\n"@ + join_with(summaries, "\n"@) + "\n\n## Git Diff\n"@ + git_diff
        + "\n\n## Instructions\nEvaluate completeness. Respond with ONLY a JSON object:\n\n"@
        + "{\"complete\": true/false, \"coverage_pct\": 0-100, \"missing_items\": [\"list of gaps\"], \"summary\": \"brief assessment\"}"@
}

/// Builds the aggregation agent's prompt from the task, the agents' summaries and the diff.
pub fn aggregation_prompt(title: &str, description: Option<&str>, summaries: &Vec<String>, git_diff: &str) -> (r:
    String)
    ensures
        r@ == aggregation_prompt_text(
            title@,
            match description {
                Some(d) => Some(d@),
                None => None,
            },
            string_views(summaries@),
            git_diff@,
        ),
{
    let mut p = String::from_str(
        "You are a result aggregation agent. Verify that the following agents' work covers the original task.\n\n## Original Task\n",
    );
    p.append(title);
    p.append("\n\n");
    match description {
        Some(d) => p.append(d),
        None => p.append("(no description)"),
    }
    p.append("\n\n## Agent Work Summary\n");
    push_joined(&mut p, summaries, "\n");
    p.append("\n\n## Git Diff\n");
    p.append(git_diff);
    p.append("\n\n## Instructions\nEvaluate completeness. Respond with ONLY a JSON object:\n\n");
    p.append(
        "{\"complete\": true/false, \"coverage_pct\": 0-100, \"missing_items\": [\"list of gaps\"], \"summary\": \"brief assessment\"}",
    );
    p
}

/// The last position below `n` holding `k`, or -1 (a later entry under the same
/// key replaces an earlier one, as in a map filled in order).
pub open spec fn last_index_of<K>(keys: Seq<K>, k: K, n: int) -> int
    decreases n,
{
    if n <= 0 {
        -1
    } else if keys[n - 1] == k {
        n - 1
    } else {
        last_index_of(keys, k, n - 1)
    }
}

/// The agents standing for each dependency, in order; dependencies that name
/// no known key are skipped.
pub open spec fn resolved_agents<K>(keys: Seq<K>, agents: Seq<uuid::Uuid>, deps: Seq<K>) -> Seq<uuid::Uuid>
    decreases deps.len(),
{
    if deps.len() == 0 {
        seq![]
    } else {
        let prev = resolved_agents(keys, agents, deps.drop_last());
        let j = last_index_of(keys, deps.last(), keys.len() as int);
        if j >= 0 {
            prev.push(agents[j])
        } else {
            prev
        }
    }
}

proof fn lemma_last_index_bounds<K>(keys: Seq<K>, k: K, n: int)
    requires
        0 <= n <= keys.len(),
    ensures
        -1 <= last_index_of(keys, k, n) < n,
        last_index_of(keys, k, n) >= 0 ==> keys[last_index_of(keys, k, n)] == k,
    decreases n,
{
    if n > 0 && keys[n - 1] != k {
        lemma_last_index_bounds(keys, k, n - 1);
    }
}

fn find_story(story_ids: &Vec<String>, id: &String) -> (r: Option<usize>)
    ensures
        match r {
            Some(j) => j as int == last_index_of(string_views(story_ids@), id@, story_ids@.len() as int),
            None => last_index_of(string_views(story_ids@), id@, story_ids@.len() as int) == -1,
        },
{
    let ghost keys = string_views(story_ids@);
    let mut j: usize = story_ids.len();
    while j > 0
        invariant
            j <= story_ids@.len(),
            keys == string_views(story_ids@),
            last_index_of(keys, id@, story_ids@.len() as int) == last_index_of(keys, id@, j as int),
        decreases j,
    {
        if crate::text::str_eq(story_ids[j - 1].as_str(), id.as_str()) {
            return Some(j - 1);
        }
        j = j - 1;
    }
    None
}

/// The agents a decomposed story's agent depends on: for each story id it
/// depends on, the agent created for that story; unknown ids are skipped.
pub fn story_dependency_agents(story_ids: &Vec<String>, agent_ids: &Vec<uuid::Uuid>, depends_on: &Vec<String>) -> (r:
    Vec<uuid::Uuid>)
    requires
        story_ids@.len() == agent_ids@.len(),
    ensures
        r@ == resolved_agents(string_views(story_ids@), agent_ids@, string_views(depends_on@)),
{
    let ghost keys = string_views(story_ids@);
    let mut out: Vec<uuid::Uuid> = Vec::new();
    let mut i: usize = 0;
    while i < depends_on.len()
        invariant
            i <= depends_on@.len(),
            story_ids@.len() == agent_ids@.len(),
            keys == string_views(story_ids@),
            out@ == resolved_agents(keys, agent_ids@, string_views(depends_on@).take(i as int)),
        decreases depends_on@.len() - i,
    {
        proof {
            lemma_last_index_bounds(keys, depends_on@[i as int]@, keys.len() as int);
            assert(string_views(depends_on@).take(i + 1).drop_last() == string_views(depends_on@).take(i as int));
        }
        match find_story(story_ids, &depends_on[i]) {
            Some(j) => out.push(agent_ids[j]),
            None => {},
        }
        i = i + 1;
    }
    assert(string_views(depends_on@).take(depends_on@.len() as int) == string_views(depends_on@));
    out
}

fn find_task(task_ids: &Vec<uuid::Uuid>, id: &uuid::Uuid) -> (r: Option<usize>)
    ensures
        match r {
            Some(j) => j as int == last_index_of(task_ids@, *id, task_ids@.len() as int),
            None => last_index_of(task_ids@, *id, task_ids@.len() as int) == -1,
        },
{
    let mut j: usize = task_ids.len();
    while j > 0
        invariant
            j <= task_ids@.len(),
            last_index_of(task_ids@, *id, task_ids@.len() as int) == last_index_of(task_ids@, *id, j as int),
        decreases j,
    {
        if uuid_eq(&task_ids[j - 1], id) {
            return Some(j - 1);
        }
        j = j - 1;
    }
    None
}

/// The agents a child task's agent depends on: for each task it depends on,
/// the agent created for that task; tasks outside the swarm are skipped.
pub fn task_dependency_agents(task_ids: &Vec<uuid::Uuid>, agent_ids: &Vec<uuid::Uuid>, depends_on: &Vec<uuid::Uuid>) -> (r:
    Vec<uuid::Uuid>)
    requires
        task_ids@.len() == agent_ids@.len(),
    ensures
        r@ == resolved_agents(task_ids@, agent_ids@, depends_on@),
{
    let mut out: Vec<uuid::Uuid> = Vec::new();
    let mut i: usize = 0;
    while i < depends_on.len()
        invariant
            i <= depends_on@.len(),
            task_ids@.len() == agent_ids@.len(),
            out@ == resolved_agents(task_ids@, agent_ids@, depends_on@.take(i as int)),
        decreases depends_on@.len() - i,
    {
        proof {
            lemma_last_index_bounds(task_ids@, depends_on@[i as int], task_ids@.len() as int);
            assert(depends_on@.take(i + 1).drop_last() == depends_on@.take(i as int));
        }
        match find_task(task_ids, &depends_on[i]) {
            Some(j) => out.push(agent_ids[j]),
            None => {},
        }
        i = i + 1;
    }
    assert(depends_on@.take(depends_on@.len() as int) == depends_on@);
    out
}

/// What finishing a swarm leads to.
#[derive(Debug, Clone, Copy, PartialEq, Eq, Structural)]
pub enum SwarmCompletion {
    /// The aggregation check found critical gaps: fail the swarm.
    FailSwarm,
    /// A sub-swarm finished: complete the agent it was spawned for, and complete
    /// that agent's swarm too when all its agents are complete.
    CompleteParentAgent,
    /// A root swarm finished: complete the task's execution loop.
    CompleteRootTask,
}

/// Decides what finishing a swarm leads to.
pub fn completion_step(aggregation_passed: bool, has_parent_agent: bool) -> (r: SwarmCompletion)
    ensures
        r == if !aggregation_passed {
            SwarmCompletion::FailSwarm
        } else if has_parent_agent {
            SwarmCompletion::CompleteParentAgent
        } else {
            SwarmCompletion::CompleteRootTask
        },
{
    if !aggregation_passed {
        SwarmCompletion::FailSwarm
    } else if has_parent_agent {
        SwarmCompletion::CompleteParentAgent
    } else {
        SwarmCompletion::CompleteRootTask
    }
}

/// The note attached to a subtask handed back for decomposition.
pub open spec fn redecomposition_note() -> Seq<char> {
    "This subtask needs to be broken into smaller pieces because previous agents could not complete it within their context window."@
}

/// The specification sheet a struggling agent's subtask is decomposed from: the
/// subtask as overview and a note on why it is split, nothing else.
pub fn redecomposition_spec(id: uuid::Uuid, task_id: uuid::Uuid, subtask: &str) -> (r: SpecSheet)
    ensures
        r.id == id,
        r.task_id == task_id,
        r.overview matches Some(o) && o@ == subtask@,
        r.requirements is None,
        r.acceptance_criteria is None,
        r.constraints is None,
        r.tech_notes matches Some(t) && t@ == redecomposition_note(),
{
    SpecSheet {
        id,
        task_id,
        overview: Some(String::from_str(subtask)),
        requirements: None,
        acceptance_criteria: None,
        constraints: None,
        tech_notes: Some(
            String::from_str(
                "This subtask needs to be broken into smaller pieces because previous agents could not complete it within their context window.",
            ),
        ),
    }
}

} // verus!
