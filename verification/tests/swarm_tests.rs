use uuid::Uuid;
use wickeban_core::status::{RecoveryStrategy, SwarmAgentStatus, SwarmStatus};
use wickeban_core::swarm::{
    agent_git_branch, agent_work_summaries, agent_working_dir, aggregation_passes, aggregation_prompt,
    begins_succession, can_redecompose, cancellable, combined_self_assessment, completion_step, git_diff_summary,
    redecomposition_spec, self_assessment, spawn_decision, spawn_result, stopped_on_cancel, story_dependency_agents,
    subtask_description, succession_allowed, succession_plan, successor_generation, task_dependency_agents,
    verifier_prompt, AgentWork, SpawnDecision, SpawnResult, SuccessionPlan, SwarmCompletion,
};

#[test]
fn spawn_decisions() {
    assert_eq!(spawn_decision(0, true, 3), SpawnDecision::CompleteSwarm);
    assert_eq!(spawn_decision(0, false, 3), SpawnDecision::FailDeadlocked);
    assert_eq!(spawn_decision(2, false, 50), SpawnDecision::FailOverCap);
    assert_eq!(spawn_decision(2, false, 49), SpawnDecision::SpawnEligible);
}

#[test]
fn spawn_results() {
    let a = Uuid::new_v4();
    let b = Uuid::new_v4();
    assert!(matches!(spawn_result(vec![]), SpawnResult::Deadlocked));
    assert!(matches!(spawn_result(vec![a]), SpawnResult::AgentStarted(x) if x == a));
    assert!(matches!(spawn_result(vec![a, b]), SpawnResult::AgentsStarted(v) if v == vec![a, b]));
}

#[test]
fn subtasks_branches_and_dirs() {
    assert_eq!(subtask_description("Login", Some("Build it")), "Login\n\nBuild it");
    assert_eq!(subtask_description("Login", None), "Login");
    assert_eq!(agent_git_branch("abc-123", 0), "swarm/abc-123/gen-0");
    assert_eq!(agent_git_branch("s", 12), "swarm/s/gen-12");
    assert_eq!(agent_git_branch("s", -4), "swarm/s/gen--4");
    assert_eq!(agent_working_dir(Some("".to_string())), None);
    assert_eq!(agent_working_dir(Some("app".to_string())), Some("app".to_string()));
    assert_eq!(agent_working_dir(None), None);
}

#[test]
fn succession_rules() {
    assert!(begins_succession(SwarmAgentStatus::Threshold));
    assert!(!begins_succession(SwarmAgentStatus::Running));
    assert!(succession_allowed(4));
    assert!(!succession_allowed(5));
    assert_eq!(successor_generation(4), 5);
    assert_eq!(succession_plan(RecoveryStrategy::Redecomposition, false), SuccessionPlan::Redecompose);
    assert_eq!(succession_plan(RecoveryStrategy::Escalation, true), SuccessionPlan::Escalate { fail_swarm: true });
    assert_eq!(succession_plan(RecoveryStrategy::Corrective, true), SuccessionPlan::CreateSuccessor);
    assert_eq!(succession_plan(RecoveryStrategy::CleanRestart, false), SuccessionPlan::CreateSuccessor);
    assert!(can_redecompose(0, 3));
    assert!(!can_redecompose(2, 3));
}

#[test]
fn cancel_and_completion_rules() {
    assert!(cancellable(SwarmStatus::Pending));
    assert!(cancellable(SwarmStatus::Running));
    assert!(!cancellable(SwarmStatus::Cancelled));
    assert!(stopped_on_cancel(SwarmAgentStatus::Running));
    assert!(!stopped_on_cancel(SwarmAgentStatus::Completed));
    assert!(aggregation_passes(false, 50));
    assert!(aggregation_passes(true, 10));
    assert!(!aggregation_passes(false, 49));
    assert_eq!(completion_step(false, true), SwarmCompletion::FailSwarm);
    assert_eq!(completion_step(true, true), SwarmCompletion::CompleteParentAgent);
    assert_eq!(completion_step(true, false), SwarmCompletion::CompleteRootTask);
}

#[test]
fn self_assessment_takes_last_three_messages() {
    let msgs: Vec<String> = vec!["one", "", "two", "three", "", "four"].into_iter().map(String::from).collect();
    assert_eq!(combined_self_assessment(&msgs), "two\n\n---\n\nthree\n\n---\n\nfour");
    assert_eq!(
        combined_self_assessment(&vec![]),
        "Agent hit context threshold and was instructed to wrap up."
    );
    let long = vec!["z".repeat(6000)];
    assert_eq!(self_assessment(&long), "z".repeat(5000));
}

#[test]
fn git_diff_summaries() {
    assert_eq!(git_diff_summary(None), "(git diff unavailable)");
    assert_eq!(git_diff_summary(Some(" 1 file changed")), " 1 file changed");
    let long = "d".repeat(5001);
    assert_eq!(git_diff_summary(Some(&long)), format!("{}...(truncated)", "d".repeat(5000)));
}

#[test]
fn verifier_and_aggregation_prompts() {
    let p = verifier_prompt("Build login", "1 file changed", "Done mostly");
    assert!(p.starts_with("You are a code verification agent."));
    assert!(p.contains("## Original Subtask\nBuild login\n\n## Git Diff Summary\n1 file changed"));
    assert!(p.contains("\"confidence\": 0.0 to 1.0}"));
    let agents = vec![
        AgentWork { status: SwarmAgentStatus::Completed, generation: 0, subtask_description: "A".repeat(250) },
        AgentWork { status: SwarmAgentStatus::Failed, generation: 1, subtask_description: "skip".into() },
        AgentWork { status: SwarmAgentStatus::Completed, generation: 2, subtask_description: "Short".into() },
    ];
    let lines = agent_work_summaries(&agents);
    assert_eq!(lines, vec![format!("Agent 1 (gen 0): {}", "A".repeat(200)), "Agent 2 (gen 2): Short".to_string()]);
    let q = aggregation_prompt("Task", None, &lines, "diff");
    assert!(q.contains("## Original Task\nTask\n\n(no description)\n\n## Agent Work Summary\nAgent 1"));
    assert!(q.contains("Agent 2 (gen 2): Short\n\n## Git Diff\ndiff"));
}

#[test]
fn dependencies_resolve_to_agents() {
    let a = Uuid::new_v4();
    let b = Uuid::new_v4();
    let c = Uuid::new_v4();
    let ids = vec!["s1".to_string(), "s2".to_string(), "s1".to_string()];
    let agents = vec![a, b, c];
    let deps = vec!["s1".to_string(), "missing".to_string(), "s2".to_string()];
    assert_eq!(story_dependency_agents(&ids, &agents, &deps), vec![c, b]);
    let t1 = Uuid::new_v4();
    let t2 = Uuid::new_v4();
    assert_eq!(task_dependency_agents(&vec![t1, t2], &vec![a, b], &vec![t2, Uuid::new_v4()]), vec![b]);
}

#[test]
fn redecomposition_sheet() {
    let id = Uuid::new_v4();
    let task = Uuid::new_v4();
    let s = redecomposition_spec(id, task, "Do the thing");
    assert_eq!(s.overview.as_deref(), Some("Do the thing"));
    assert!(s.requirements.is_none());
    assert!(s.tech_notes.unwrap().starts_with("This subtask needs to be broken into smaller pieces"));
    assert_eq!(s.task_id, task);
}
