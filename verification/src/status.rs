//! Status and kind enumerations with their stored names.
use vstd::prelude::*;
use crate::text::str_eq;

verus! {

/// The workflow status of a task.
#[derive(Debug, Clone, Copy, PartialEq, Eq, Structural)]
pub enum TaskStatus {
    Backlog,
    PlanGenerating,
    Ready,
    Ralph,
    InProgress,
    QA,
    Done,
    Cancelled,
    Idea,
    Planning,
    SpecReview,
}

/// The stored and displayed name of each `TaskStatus`.
pub open spec fn task_status_name(x: TaskStatus) -> Seq<char> {
    match x {
        TaskStatus::Backlog => "backlog"@,
        TaskStatus::PlanGenerating => "plangenerating"@,
        TaskStatus::Ready => "ready"@,
        TaskStatus::Ralph => "ralph"@,
        TaskStatus::InProgress => "inprogress"@,
        TaskStatus::QA => "qa"@,
        TaskStatus::Done => "done"@,
        TaskStatus::Cancelled => "cancelled"@,
        TaskStatus::Idea => "idea"@,
        TaskStatus::Planning => "planning"@,
        TaskStatus::SpecReview => "specreview"@,
    }
}

impl TaskStatus {
    /// The stored name.
    pub fn as_str(&self) -> (r: &'static str)
        ensures
            r@ == task_status_name(*self),
    {
        match self {
            TaskStatus::Backlog => "backlog",
            TaskStatus::PlanGenerating => "plangenerating",
            TaskStatus::Ready => "ready",
            TaskStatus::Ralph => "ralph",
            TaskStatus::InProgress => "inprogress",
            TaskStatus::QA => "qa",
            TaskStatus::Done => "done",
            TaskStatus::Cancelled => "cancelled",
            TaskStatus::Idea => "idea",
            TaskStatus::Planning => "planning",
            TaskStatus::SpecReview => "specreview",
        }
    }

    /// The variant whose stored name is exactly `s`.
    pub fn parse(s: &str) -> (r: Option<TaskStatus>)
        ensures
            forall|x: TaskStatus| r == Some(x) <==> s@ == task_status_name(x),
    {
        let r = if str_eq(s, "backlog") {
            Some(TaskStatus::Backlog)
        } else if str_eq(s, "plangenerating") {
            Some(TaskStatus::PlanGenerating)
        } else if str_eq(s, "ready") {
            Some(TaskStatus::Ready)
        } else if str_eq(s, "ralph") {
            Some(TaskStatus::Ralph)
        } else if str_eq(s, "inprogress") {
            Some(TaskStatus::InProgress)
        } else if str_eq(s, "qa") {
            Some(TaskStatus::QA)
        } else if str_eq(s, "done") {
            Some(TaskStatus::Done)
        } else if str_eq(s, "cancelled") {
            Some(TaskStatus::Cancelled)
        } else if str_eq(s, "idea") {
            Some(TaskStatus::Idea)
        } else if str_eq(s, "planning") {
            Some(TaskStatus::Planning)
        } else if str_eq(s, "specreview") {
            Some(TaskStatus::SpecReview)
        } else {
            None
        };
        proof {
            lemma_task_status_names_distinct();
            assert(task_status_name(TaskStatus::Backlog) == "backlog"@);
            assert(task_status_name(TaskStatus::PlanGenerating) == "plangenerating"@);
            assert(task_status_name(TaskStatus::Ready) == "ready"@);
            assert(task_status_name(TaskStatus::Ralph) == "ralph"@);
            assert(task_status_name(TaskStatus::InProgress) == "inprogress"@);
            assert(task_status_name(TaskStatus::QA) == "qa"@);
            assert(task_status_name(TaskStatus::Done) == "done"@);
            assert(task_status_name(TaskStatus::Cancelled) == "cancelled"@);
            assert(task_status_name(TaskStatus::Idea) == "idea"@);
            assert(task_status_name(TaskStatus::Planning) == "planning"@);
            assert(task_status_name(TaskStatus::SpecReview) == "specreview"@);
            assert forall|x: TaskStatus| r == Some(x) <==> s@ == task_status_name(x) by {
                match x {
                    TaskStatus::Backlog => {},
                    TaskStatus::PlanGenerating => {},
                    TaskStatus::Ready => {},
                    TaskStatus::Ralph => {},
                    TaskStatus::InProgress => {},
                    TaskStatus::QA => {},
                    TaskStatus::Done => {},
                    TaskStatus::Cancelled => {},
                    TaskStatus::Idea => {},
                    TaskStatus::Planning => {},
                    TaskStatus::SpecReview => {},
                }
            }
        }
        r
    }
}

impl Default for TaskStatus {
    fn default() -> (r: Self)
        ensures
            r == TaskStatus::Backlog,
    {
        TaskStatus::Backlog
    }
}

/// Distinct variants have distinct names.
pub proof fn lemma_task_status_names_distinct()
    ensures
        forall|x: TaskStatus, y: TaskStatus| task_status_name(x) == task_status_name(y) ==> x == y,
{
    reveal_strlit("backlog");
    reveal_strlit("plangenerating");
    reveal_strlit("ready");
    reveal_strlit("ralph");
    reveal_strlit("inprogress");
    reveal_strlit("qa");
    reveal_strlit("done");
    reveal_strlit("cancelled");
    reveal_strlit("idea");
    reveal_strlit("planning");
    reveal_strlit("specreview");
    assert forall|x: TaskStatus, y: TaskStatus| task_status_name(x) == task_status_name(y) implies x == y by {
        if x != y {
            assert(task_status_name(x).len() != task_status_name(y).len() || task_status_name(x)[0] != task_status_name(y)[0] || task_status_name(x)[1] != task_status_name(y)[1]);
        }
    }
}

/// Parsing the name of a variant gives back that variant.
pub proof fn lemma_task_status_round_trip(x: TaskStatus)
    ensures
        forall|y: TaskStatus| task_status_name(y) == task_status_name(x) <==> y == x,
{
    lemma_task_status_names_distinct();
}

/// Whether a task is an ordinary task or an epic.
#[derive(Debug, Clone, Copy, PartialEq, Eq, Structural)]
pub enum TaskType {
    Task,
    Epic,
}

/// The stored and displayed name of each `TaskType`.
pub open spec fn task_type_name(x: TaskType) -> Seq<char> {
    match x {
        TaskType::Task => "task"@,
        TaskType::Epic => "epic"@,
    }
}

impl TaskType {
    /// The stored name.
    pub fn as_str(&self) -> (r: &'static str)
        ensures
            r@ == task_type_name(*self),
    {
        match self {
            TaskType::Task => "task",
            TaskType::Epic => "epic",
        }
    }

    /// The variant whose stored name is exactly `s`.
    pub fn parse(s: &str) -> (r: Option<TaskType>)
        ensures
            forall|x: TaskType| r == Some(x) <==> s@ == task_type_name(x),
    {
        let r = if str_eq(s, "task") {
            Some(TaskType::Task)
        } else if str_eq(s, "epic") {
            Some(TaskType::Epic)
        } else {
            None
        };
        proof {
            lemma_task_type_names_distinct();
            assert(task_type_name(TaskType::Task) == "task"@);
            assert(task_type_name(TaskType::Epic) == "epic"@);
            assert forall|x: TaskType| r == Some(x) <==> s@ == task_type_name(x) by {
                match x {
                    TaskType::Task => {},
                    TaskType::Epic => {},
                }
            }
        }
        r
    }
}

impl Default for TaskType {
    fn default() -> (r: Self)
        ensures
            r == TaskType::Task,
    {
        TaskType::Task
    }
}

/// Distinct variants have distinct names.
pub proof fn lemma_task_type_names_distinct()
    ensures
        forall|x: TaskType, y: TaskType| task_type_name(x) == task_type_name(y) ==> x == y,
{
    reveal_strlit("task");
    reveal_strlit("epic");
    assert forall|x: TaskType, y: TaskType| task_type_name(x) == task_type_name(y) implies x == y by {
        if x != y {
            assert(task_type_name(x).len() != task_type_name(y).len() || task_type_name(x)[0] != task_type_name(y)[0]);
        }
    }
}

/// Parsing the name of a variant gives back that variant.
pub proof fn lemma_task_type_round_trip(x: TaskType)
    ensures
        forall|y: TaskType| task_type_name(y) == task_type_name(x) <==> y == x,
{
    lemma_task_type_names_distinct();
}

/// Lifecycle of a multi-task execution session.
#[derive(Debug, Clone, Copy, PartialEq, Eq, Structural)]
pub enum RalphSessionStatus {
    Pending,
    Running,
    Completed,
    Failed,
}

/// The stored and displayed name of each `RalphSessionStatus`.
pub open spec fn ralph_session_status_name(x: RalphSessionStatus) -> Seq<char> {
    match x {
        RalphSessionStatus::Pending => "pending"@,
        RalphSessionStatus::Running => "running"@,
        RalphSessionStatus::Completed => "completed"@,
        RalphSessionStatus::Failed => "failed"@,
    }
}

impl RalphSessionStatus {
    /// The stored name.
    pub fn as_str(&self) -> (r: &'static str)
        ensures
            r@ == ralph_session_status_name(*self),
    {
        match self {
            RalphSessionStatus::Pending => "pending",
            RalphSessionStatus::Running => "running",
            RalphSessionStatus::Completed => "completed",
            RalphSessionStatus::Failed => "failed",
        }
    }

    /// The variant whose stored name is exactly `s`.
    pub fn parse(s: &str) -> (r: Option<RalphSessionStatus>)
        ensures
            forall|x: RalphSessionStatus| r == Some(x) <==> s@ == ralph_session_status_name(x),
    {
        let r = if str_eq(s, "pending") {
            Some(RalphSessionStatus::Pending)
        } else if str_eq(s, "running") {
            Some(RalphSessionStatus::Running)
        } else if str_eq(s, "completed") {
            Some(RalphSessionStatus::Completed)
        } else if str_eq(s, "failed") {
            Some(RalphSessionStatus::Failed)
        } else {
            None
        };
        proof {
            lemma_ralph_session_status_names_distinct();
            assert(ralph_session_status_name(RalphSessionStatus::Pending) == "pending"@);
            assert(ralph_session_status_name(RalphSessionStatus::Running) == "running"@);
            assert(ralph_session_status_name(RalphSessionStatus::Completed) == "completed"@);
            assert(ralph_session_status_name(RalphSessionStatus::Failed) == "failed"@);
            assert forall|x: RalphSessionStatus| r == Some(x) <==> s@ == ralph_session_status_name(x) by {
                match x {
                    RalphSessionStatus::Pending => {},
                    RalphSessionStatus::Running => {},
                    RalphSessionStatus::Completed => {},
                    RalphSessionStatus::Failed => {},
                }
            }
        }
        r
    }
}

impl Default for RalphSessionStatus {
    fn default() -> (r: Self)
        ensures
            r == RalphSessionStatus::Pending,
    {
        RalphSessionStatus::Pending
    }
}

/// Distinct variants have distinct names.
pub proof fn lemma_ralph_session_status_names_distinct()
    ensures
        forall|x: RalphSessionStatus, y: RalphSessionStatus| ralph_session_status_name(x) == ralph_session_status_name(y) ==> x == y,
{
    reveal_strlit("pending");
    reveal_strlit("running");
    reveal_strlit("completed");
    reveal_strlit("failed");
    assert forall|x: RalphSessionStatus, y: RalphSessionStatus| ralph_session_status_name(x) == ralph_session_status_name(y) implies x == y by {
        if x != y {
            assert(ralph_session_status_name(x).len() != ralph_session_status_name(y).len() || ralph_session_status_name(x)[0] != ralph_session_status_name(y)[0]);
        }
    }
}

/// Parsing the name of a variant gives back that variant.
pub proof fn lemma_ralph_session_status_round_trip(x: RalphSessionStatus)
    ensures
        forall|y: RalphSessionStatus| ralph_session_status_name(y) == ralph_session_status_name(x) <==> y == x,
{
    lemma_ralph_session_status_names_distinct();
}

/// Lifecycle of a swarm.
#[derive(Debug, Clone, Copy, PartialEq, Eq, Structural)]
pub enum SwarmStatus {
    Pending,
    Running,
    Completed,
    Failed,
    Cancelled,
}

/// The stored and displayed name of each `SwarmStatus`.
pub open spec fn swarm_status_name(x: SwarmStatus) -> Seq<char> {
    match x {
        SwarmStatus::Pending => "pending"@,
        SwarmStatus::Running => "running"@,
        SwarmStatus::Completed => "completed"@,
        SwarmStatus::Failed => "failed"@,
        SwarmStatus::Cancelled => "cancelled"@,
    }
}

impl SwarmStatus {
    /// The stored name.
    pub fn as_str(&self) -> (r: &'static str)
        ensures
            r@ == swarm_status_name(*self),
    {
        match self {
            SwarmStatus::Pending => "pending",
            SwarmStatus::Running => "running",
            SwarmStatus::Completed => "completed",
            SwarmStatus::Failed => "failed",
            SwarmStatus::Cancelled => "cancelled",
        }
    }

    /// The variant whose stored name is exactly `s`.
    pub fn parse(s: &str) -> (r: Option<SwarmStatus>)
        ensures
            forall|x: SwarmStatus| r == Some(x) <==> s@ == swarm_status_name(x),
    {
        let r = if str_eq(s, "pending") {
            Some(SwarmStatus::Pending)
        } else if str_eq(s, "running") {
            Some(SwarmStatus::Running)
        } else if str_eq(s, "completed") {
            Some(SwarmStatus::Completed)
        } else if str_eq(s, "failed") {
            Some(SwarmStatus::Failed)
        } else if str_eq(s, "cancelled") {
            Some(SwarmStatus::Cancelled)
        } else {
            None
        };
        proof {
            lemma_swarm_status_names_distinct();
            assert(swarm_status_name(SwarmStatus::Pending) == "pending"@);
            assert(swarm_status_name(SwarmStatus::Running) == "running"@);
            assert(swarm_status_name(SwarmStatus::Completed) == "completed"@);
            assert(swarm_status_name(SwarmStatus::Failed) == "failed"@);
            assert(swarm_status_name(SwarmStatus::Cancelled) == "cancelled"@);
            assert forall|x: SwarmStatus| r == Some(x) <==> s@ == swarm_status_name(x) by {
                match x {
                    SwarmStatus::Pending => {},
                    SwarmStatus::Running => {},
                    SwarmStatus::Completed => {},
                    SwarmStatus::Failed => {},
                    SwarmStatus::Cancelled => {},
                }
            }
        }
        r
    }
}

impl Default for SwarmStatus {
    fn default() -> (r: Self)
        ensures
            r == SwarmStatus::Pending,
    {
        SwarmStatus::Pending
    }
}

/// Distinct variants have distinct names.
pub proof fn lemma_swarm_status_names_distinct()
    ensures
        forall|x: SwarmStatus, y: SwarmStatus| swarm_status_name(x) == swarm_status_name(y) ==> x == y,
{
    reveal_strlit("pending");
    reveal_strlit("running");
    reveal_strlit("completed");
    reveal_strlit("failed");
    reveal_strlit("cancelled");
    assert forall|x: SwarmStatus, y: SwarmStatus| swarm_status_name(x) == swarm_status_name(y) implies x == y by {
        if x != y {
            assert(swarm_status_name(x).len() != swarm_status_name(y).len() || swarm_status_name(x)[0] != swarm_status_name(y)[0] || swarm_status_name(x)[1] != swarm_status_name(y)[1]);
        }
    }
}

/// Parsing the name of a variant gives back that variant.
pub proof fn lemma_swarm_status_round_trip(x: SwarmStatus)
    ensures
        forall|y: SwarmStatus| swarm_status_name(y) == swarm_status_name(x) <==> y == x,
{
    lemma_swarm_status_names_distinct();
}

/// How a task is executed, from one agent to a deep multi-agent succession.
#[derive(Debug, Clone, Copy, PartialEq, Eq, Structural)]
pub enum RoutingDecision {
    Single,
    SingleVerifier,
    VsShallow,
    VsDeep,
}

/// The stored and displayed name of each `RoutingDecision`.
pub open spec fn routing_decision_name(x: RoutingDecision) -> Seq<char> {
    match x {
        RoutingDecision::Single => "single"@,
        RoutingDecision::SingleVerifier => "single_verifier"@,
        RoutingDecision::VsShallow => "vs_shallow"@,
        RoutingDecision::VsDeep => "vs_deep"@,
    }
}

impl RoutingDecision {
    /// The stored name.
    pub fn as_str(&self) -> (r: &'static str)
        ensures
            r@ == routing_decision_name(*self),
    {
        match self {
            RoutingDecision::Single => "single",
            RoutingDecision::SingleVerifier => "single_verifier",
            RoutingDecision::VsShallow => "vs_shallow",
            RoutingDecision::VsDeep => "vs_deep",
        }
    }

    /// The variant whose stored name is exactly `s`.
    pub fn parse(s: &str) -> (r: Option<RoutingDecision>)
        ensures
            forall|x: RoutingDecision| r == Some(x) <==> s@ == routing_decision_name(x),
    {
        let r = if str_eq(s, "single") {
            Some(RoutingDecision::Single)
        } else if str_eq(s, "single_verifier") {
            Some(RoutingDecision::SingleVerifier)
        } else if str_eq(s, "vs_shallow") {
            Some(RoutingDecision::VsShallow)
        } else if str_eq(s, "vs_deep") {
            Some(RoutingDecision::VsDeep)
        } else {
            None
        };
        proof {
            lemma_routing_decision_names_distinct();
            assert(routing_decision_name(RoutingDecision::Single) == "single"@);
            assert(routing_decision_name(RoutingDecision::SingleVerifier) == "single_verifier"@);
            assert(routing_decision_name(RoutingDecision::VsShallow) == "vs_shallow"@);
            assert(routing_decision_name(RoutingDecision::VsDeep) == "vs_deep"@);
            assert forall|x: RoutingDecision| r == Some(x) <==> s@ == routing_decision_name(x) by {
                match x {
                    RoutingDecision::Single => {},
                    RoutingDecision::SingleVerifier => {},
                    RoutingDecision::VsShallow => {},
                    RoutingDecision::VsDeep => {},
                }
            }
        }
        r
    }
}

impl Default for RoutingDecision {
    fn default() -> (r: Self)
        ensures
            r == RoutingDecision::Single,
    {
        RoutingDecision::Single
    }
}

/// Distinct variants have distinct names.
pub proof fn lemma_routing_decision_names_distinct()
    ensures
        forall|x: RoutingDecision, y: RoutingDecision| routing_decision_name(x) == routing_decision_name(y) ==> x == y,
{
    reveal_strlit("single");
    reveal_strlit("single_verifier");
    reveal_strlit("vs_shallow");
    reveal_strlit("vs_deep");
    assert forall|x: RoutingDecision, y: RoutingDecision| routing_decision_name(x) == routing_decision_name(y) implies x == y by {
        if x != y {
            assert(routing_decision_name(x).len() != routing_decision_name(y).len() || routing_decision_name(x)[0] != routing_decision_name(y)[0]);
        }
    }
}

/// Parsing the name of a variant gives back that variant.
pub proof fn lemma_routing_decision_round_trip(x: RoutingDecision)
    ensures
        forall|y: RoutingDecision| routing_decision_name(y) == routing_decision_name(x) <==> y == x,
{
    lemma_routing_decision_names_distinct();
}

/// Lifecycle of a swarm agent.
#[derive(Debug, Clone, Copy, PartialEq, Eq, Structural)]
pub enum SwarmAgentStatus {
    Pending,
    Running,
    Completed,
    Failed,
    Threshold,
}

/// The stored and displayed name of each `SwarmAgentStatus`.
pub open spec fn swarm_agent_status_name(x: SwarmAgentStatus) -> Seq<char> {
    match x {
        SwarmAgentStatus::Pending => "pending"@,
        SwarmAgentStatus::Running => "running"@,
        SwarmAgentStatus::Completed => "completed"@,
        SwarmAgentStatus::Failed => "failed"@,
        SwarmAgentStatus::Threshold => "threshold"@,
    }
}

impl SwarmAgentStatus {
    /// The stored name.
    pub fn as_str(&self) -> (r: &'static str)
        ensures
            r@ == swarm_agent_status_name(*self),
    {
        match self {
            SwarmAgentStatus::Pending => "pending",
            SwarmAgentStatus::Running => "running",
            SwarmAgentStatus::Completed => "completed",
            SwarmAgentStatus::Failed => "failed",
            SwarmAgentStatus::Threshold => "threshold",
        }
    }

    /// The variant whose stored name is exactly `s`.
    pub fn parse(s: &str) -> (r: Option<SwarmAgentStatus>)
        ensures
            forall|x: SwarmAgentStatus| r == Some(x) <==> s@ == swarm_agent_status_name(x),
    {
        let r = if str_eq(s, "pending") {
            Some(SwarmAgentStatus::Pending)
        } else if str_eq(s, "running") {
            Some(SwarmAgentStatus::Running)
        } else if str_eq(s, "completed") {
            Some(SwarmAgentStatus::Completed)
        } else if str_eq(s, "failed") {
            Some(SwarmAgentStatus::Failed)
        } else if str_eq(s, "threshold") {
            Some(SwarmAgentStatus::Threshold)
        } else {
            None
        };
        proof {
            lemma_swarm_agent_status_names_distinct();
            assert(swarm_agent_status_name(SwarmAgentStatus::Pending) == "pending"@);
            assert(swarm_agent_status_name(SwarmAgentStatus::Running) == "running"@);
            assert(swarm_agent_status_name(SwarmAgentStatus::Completed) == "completed"@);
            assert(swarm_agent_status_name(SwarmAgentStatus::Failed) == "failed"@);
            assert(swarm_agent_status_name(SwarmAgentStatus::Threshold) == "threshold"@);
            assert forall|x: SwarmAgentStatus| r == Some(x) <==> s@ == swarm_agent_status_name(x) by {
                match x {
                    SwarmAgentStatus::Pending => {},
                    SwarmAgentStatus::Running => {},
                    SwarmAgentStatus::Completed => {},
                    SwarmAgentStatus::Failed => {},
                    SwarmAgentStatus::Threshold => {},
                }
            }
        }
        r
    }
}

impl Default for SwarmAgentStatus {
    fn default() -> (r: Self)
        ensures
            r == SwarmAgentStatus::Pending,
    {
        SwarmAgentStatus::Pending
    }
}

/// Distinct variants have distinct names.
pub proof fn lemma_swarm_agent_status_names_distinct()
    ensures
        forall|x: SwarmAgentStatus, y: SwarmAgentStatus| swarm_agent_status_name(x) == swarm_agent_status_name(y) ==> x == y,
{
    reveal_strlit("pending");
    reveal_strlit("running");
    reveal_strlit("completed");
    reveal_strlit("failed");
    reveal_strlit("threshold");
    assert forall|x: SwarmAgentStatus, y: SwarmAgentStatus| swarm_agent_status_name(x) == swarm_agent_status_name(y) implies x == y by {
        if x != y {
            assert(swarm_agent_status_name(x).len() != swarm_agent_status_name(y).len() || swarm_agent_status_name(x)[0] != swarm_agent_status_name(y)[0]);
        }
    }
}

/// Parsing the name of a variant gives back that variant.
pub proof fn lemma_swarm_agent_status_round_trip(x: SwarmAgentStatus)
    ensures
        forall|y: SwarmAgentStatus| swarm_agent_status_name(y) == swarm_agent_status_name(x) <==> y == x,
{
    lemma_swarm_agent_status_names_distinct();
}

/// Lifecycle of an agent succession.
#[derive(Debug, Clone, Copy, PartialEq, Eq, Structural)]
pub enum SwarmSuccessionStatus {
    Pending,
    Verifying,
    Verified,
    SuccessorRunning,
    Failed,
}

/// The stored and displayed name of each `SwarmSuccessionStatus`.
pub open spec fn swarm_succession_status_name(x: SwarmSuccessionStatus) -> Seq<char> {
    match x {
        SwarmSuccessionStatus::Pending => "pending"@,
        SwarmSuccessionStatus::Verifying => "verifying"@,
        SwarmSuccessionStatus::Verified => "verified"@,
        SwarmSuccessionStatus::SuccessorRunning => "successor_running"@,
        SwarmSuccessionStatus::Failed => "failed"@,
    }
}

impl SwarmSuccessionStatus {
    /// The stored name.
    pub fn as_str(&self) -> (r: &'static str)
        ensures
            r@ == swarm_succession_status_name(*self),
    {
        match self {
            SwarmSuccessionStatus::Pending => "pending",
            SwarmSuccessionStatus::Verifying => "verifying",
            SwarmSuccessionStatus::Verified => "verified",
            SwarmSuccessionStatus::SuccessorRunning => "successor_running",
            SwarmSuccessionStatus::Failed => "failed",
        }
    }

    /// The variant whose stored name is exactly `s`.
    pub fn parse(s: &str) -> (r: Option<SwarmSuccessionStatus>)
        ensures
            forall|x: SwarmSuccessionStatus| r == Some(x) <==> s@ == swarm_succession_status_name(x),
    {
        let r = if str_eq(s, "pending") {
            Some(SwarmSuccessionStatus::Pending)
        } else if str_eq(s, "verifying") {
            Some(SwarmSuccessionStatus::Verifying)
        } else if str_eq(s, "verified") {
            Some(SwarmSuccessionStatus::Verified)
        } else if str_eq(s, "successor_running") {
            Some(SwarmSuccessionStatus::SuccessorRunning)
        } else if str_eq(s, "failed") {
            Some(SwarmSuccessionStatus::Failed)
        } else {
            None
        };
        proof {
            lemma_swarm_succession_status_names_distinct();
            assert(swarm_succession_status_name(SwarmSuccessionStatus::Pending) == "pending"@);
            assert(swarm_succession_status_name(SwarmSuccessionStatus::Verifying) == "verifying"@);
            assert(swarm_succession_status_name(SwarmSuccessionStatus::Verified) == "verified"@);
            assert(swarm_succession_status_name(SwarmSuccessionStatus::SuccessorRunning) == "successor_running"@);
            assert(swarm_succession_status_name(SwarmSuccessionStatus::Failed) == "failed"@);
            assert forall|x: SwarmSuccessionStatus| r == Some(x) <==> s@ == swarm_succession_status_name(x) by {
                match x {
                    SwarmSuccessionStatus::Pending => {},
                    SwarmSuccessionStatus::Verifying => {},
                    SwarmSuccessionStatus::Verified => {},
                    SwarmSuccessionStatus::SuccessorRunning => {},
                    SwarmSuccessionStatus::Failed => {},
                }
            }
        }
        r
    }
}

impl Default for SwarmSuccessionStatus {
    fn default() -> (r: Self)
        ensures
            r == SwarmSuccessionStatus::Pending,
    {
        SwarmSuccessionStatus::Pending
    }
}

/// Distinct variants have distinct names.
pub proof fn lemma_swarm_succession_status_names_distinct()
    ensures
        forall|x: SwarmSuccessionStatus, y: SwarmSuccessionStatus| swarm_succession_status_name(x) == swarm_succession_status_name(y) ==> x == y,
{
    reveal_strlit("pending");
    reveal_strlit("verifying");
    reveal_strlit("verified");
    reveal_strlit("successor_running");
    reveal_strlit("failed");
    assert forall|x: SwarmSuccessionStatus, y: SwarmSuccessionStatus| swarm_succession_status_name(x) == swarm_succession_status_name(y) implies x == y by {
        if x != y {
            assert(swarm_succession_status_name(x).len() != swarm_succession_status_name(y).len() || swarm_succession_status_name(x)[0] != swarm_succession_status_name(y)[0]);
        }
    }
}

/// Parsing the name of a variant gives back that variant.
pub proof fn lemma_swarm_succession_status_round_trip(x: SwarmSuccessionStatus)
    ensures
        forall|y: SwarmSuccessionStatus| swarm_succession_status_name(y) == swarm_succession_status_name(x) <==> y == x,
{
    lemma_swarm_succession_status_names_distinct();
}

/// How a successor continues after its predecessor hit its context limit.
#[derive(Debug, Clone, Copy, PartialEq, Eq, Structural)]
pub enum RecoveryStrategy {
    Corrective,
    CleanRestart,
    Redecomposition,
    Escalation,
}

/// The stored and displayed name of each `RecoveryStrategy`.
pub open spec fn recovery_strategy_name(x: RecoveryStrategy) -> Seq<char> {
    match x {
        RecoveryStrategy::Corrective => "corrective"@,
        RecoveryStrategy::CleanRestart => "clean_restart"@,
        RecoveryStrategy::Redecomposition => "redecomposition"@,
        RecoveryStrategy::Escalation => "escalation"@,
    }
}

impl RecoveryStrategy {
    /// The stored name.
    pub fn as_str(&self) -> (r: &'static str)
        ensures
            r@ == recovery_strategy_name(*self),
    {
        match self {
            RecoveryStrategy::Corrective => "corrective",
            RecoveryStrategy::CleanRestart => "clean_restart",
            RecoveryStrategy::Redecomposition => "redecomposition",
            RecoveryStrategy::Escalation => "escalation",
        }
    }

    /// The variant whose stored name is exactly `s`.
    pub fn parse(s: &str) -> (r: Option<RecoveryStrategy>)
        ensures
            forall|x: RecoveryStrategy| r == Some(x) <==> s@ == recovery_strategy_name(x),
    {
        let r = if str_eq(s, "corrective") {
            Some(RecoveryStrategy::Corrective)
        } else if str_eq(s, "clean_restart") {
            Some(RecoveryStrategy::CleanRestart)
        } else if str_eq(s, "redecomposition") {
            Some(RecoveryStrategy::Redecomposition)
        } else if str_eq(s, "escalation") {
            Some(RecoveryStrategy::Escalation)
        } else {
            None
        };
        proof {
            lemma_recovery_strategy_names_distinct();
            assert(recovery_strategy_name(RecoveryStrategy::Corrective) == "corrective"@);
            assert(recovery_strategy_name(RecoveryStrategy::CleanRestart) == "clean_restart"@);
            assert(recovery_strategy_name(RecoveryStrategy::Redecomposition) == "redecomposition"@);
            assert(recovery_strategy_name(RecoveryStrategy::Escalation) == "escalation"@);
            assert forall|x: RecoveryStrategy| r == Some(x) <==> s@ == recovery_strategy_name(x) by {
                match x {
                    RecoveryStrategy::Corrective => {},
                    RecoveryStrategy::CleanRestart => {},
                    RecoveryStrategy::Redecomposition => {},
                    RecoveryStrategy::Escalation => {},
                }
            }
        }
        r
    }
}

impl Default for RecoveryStrategy {
    fn default() -> (r: Self)
        ensures
            r == RecoveryStrategy::Corrective,
    {
        RecoveryStrategy::Corrective
    }
}

/// Distinct variants have distinct names.
pub proof fn lemma_recovery_strategy_names_distinct()
    ensures
        forall|x: RecoveryStrategy, y: RecoveryStrategy| recovery_strategy_name(x) == recovery_strategy_name(y) ==> x == y,
{
    reveal_strlit("corrective");
    reveal_strlit("clean_restart");
    reveal_strlit("redecomposition");
    reveal_strlit("escalation");
    assert forall|x: RecoveryStrategy, y: RecoveryStrategy| recovery_strategy_name(x) == recovery_strategy_name(y) implies x == y by {
        if x != y {
            assert(recovery_strategy_name(x).len() != recovery_strategy_name(y).len() || recovery_strategy_name(x)[0] != recovery_strategy_name(y)[0]);
        }
    }
}

/// Parsing the name of a variant gives back that variant.
pub proof fn lemma_recovery_strategy_round_trip(x: RecoveryStrategy)
    ensures
        forall|y: RecoveryStrategy| recovery_strategy_name(y) == recovery_strategy_name(x) <==> y == x,
{
    lemma_recovery_strategy_names_distinct();
}

} // verus!
