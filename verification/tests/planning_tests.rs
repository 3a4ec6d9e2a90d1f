use uuid::Uuid;
use wickeban_core::container::{
    auto_plan_outcome, cleanup_action, needs_worktrees, turn_summary, AutoPlanOutcome, CleanupAction,
};
use wickeban_core::execution::ExecutionProcessStatus;
use wickeban_core::naming::{dir_name_from_workspace, git_branch_id, short_uuid};
use wickeban_core::planning::{
    check_decomposition, child_task_ids, next_prepare_action, spec_sheet_from_generated, stuck_plan_action,
    DecomposerError, DecompositionResult, DecompositionStory, GeneratedSpec, PrepareAction, PrepareEvent,
    StuckPlanAction,
};
use wickeban_core::prompts::{generate_plan_prompt, SpecSheet};
use wickeban_core::ranking::{average_files_estimated, decomposability_of, distinct_subsystems, median_score};
use wickeban_core::requests::{
    check_decomposable, check_session_selection, check_session_task, check_sprint, child_is_ready,
    session_task_orders, single_repo_working_dir, SprintChild,
};
use wickeban_core::status::TaskStatus;

fn story(id: &str, deps: &[&str]) -> DecompositionStory {
    DecompositionStory {
        id: id.to_string(),
        title: format!("Story {id}"),
        description: "desc".to_string(),
        depends_on: deps.iter().map(|d| d.to_string()).collect(),
        sort_order: 1,
    }
}

#[test]
fn test_parse_decomposition_output_empty_stories() {
    // `{ "stories": [] }` parses to a decomposition without stories, which is refused
    let empty = DecompositionResult { stories: vec![] };
    assert!(matches!(check_decomposition(empty), Err(DecomposerError::NoStories)));
    let one = DecompositionResult { stories: vec![story("s1", &[])] };
    assert_eq!(check_decomposition(one).ok().map(|d| d.stories.len()), Some(1));
}

#[test]
fn child_ids_follow_story_ids() {
    let ids = vec!["a".to_string(), "b".to_string(), "a".to_string()];
    let fresh = vec![Uuid::new_v4(), Uuid::new_v4(), Uuid::new_v4()];
    assert_eq!(child_task_ids(&ids, &fresh), vec![fresh[2], fresh[1], fresh[2]]);
}

#[test]
fn generated_spec_lists_come_back_as_bullets() {
    let spec = GeneratedSpec {
        overview: "Build a login page".to_string(),
        requirements: vec!["Email input".to_string(), "Password \"strong\"".to_string()],
        acceptance_criteria: vec![],
        constraints: vec!["Use existing auth".to_string()],
        tech_notes: "Use React Hook Form".to_string(),
    };
    let sheet = spec_sheet_from_generated(&spec);
    assert_eq!(sheet.requirements.as_deref(), Some(r#"["Email input","Password \"strong\""]"#));
    assert_eq!(sheet.acceptance_criteria.as_deref(), Some("[]"));
    let stored = SpecSheet {
        id: Uuid::new_v4(),
        task_id: Uuid::new_v4(),
        overview: sheet.overview,
        requirements: sheet.requirements,
        acceptance_criteria: sheet.acceptance_criteria,
        constraints: sheet.constraints,
        tech_notes: sheet.tech_notes,
    };
    let prompt = generate_plan_prompt(&stored, "Login");
    assert!(prompt.contains("## Requirements\n- Email input\n- Password \"strong\"\n\n"));
    assert!(!prompt.contains("## Acceptance Criteria"));
    assert!(prompt.contains("## Constraints\n- Use existing auth\n"));
}

#[test]
fn preparing_a_planned_task() {
    assert_eq!(next_prepare_action(PrepareEvent::SpecFound(true)), PrepareAction::CountChildren);
    assert_eq!(next_prepare_action(PrepareEvent::SpecFound(false)), PrepareAction::GenerateSpec);
    assert_eq!(next_prepare_action(PrepareEvent::SpecGenerated(false)), PrepareAction::Finish(false));
    assert_eq!(next_prepare_action(PrepareEvent::SpecStored(false)), PrepareAction::Finish(false));
    assert_eq!(next_prepare_action(PrepareEvent::ChildrenCounted(Some(3))), PrepareAction::Finish(true));
    assert_eq!(next_prepare_action(PrepareEvent::ChildrenCounted(None)), PrepareAction::Decompose);
    assert_eq!(next_prepare_action(PrepareEvent::Decomposed(true)), PrepareAction::CreateChildren);
    assert_eq!(next_prepare_action(PrepareEvent::Decomposed(false)), PrepareAction::Finish(false));
    assert_eq!(next_prepare_action(PrepareEvent::ChildrenCreated(true)), PrepareAction::Finish(true));
    assert_eq!(next_prepare_action(PrepareEvent::ChildrenCreated(false)), PrepareAction::Finish(false));
}

#[test]
fn stuck_plans_with_pending_questions_are_skipped() {
    let t = Uuid::new_v4();
    let other = Uuid::new_v4();
    assert_eq!(stuck_plan_action(&t, TaskStatus::Backlog, &vec![other, t]), StuckPlanAction::Skip);
    assert_eq!(
        stuck_plan_action(&t, TaskStatus::Backlog, &vec![other]),
        StuckPlanAction::Regenerate { set_status: true }
    );
    assert_eq!(
        stuck_plan_action(&t, TaskStatus::PlanGenerating, &vec![]),
        StuckPlanAction::Regenerate { set_status: false }
    );
}

#[test]
fn request_checks() {
    assert!(check_decomposable(TaskStatus::Ready).is_ok());
    assert_eq!(
        check_decomposable(TaskStatus::Backlog).unwrap_err(),
        "Task must be in 'ready' status to decompose, current status: backlog"
    );
    assert!(child_is_ready(&vec![]));
    assert!(child_is_ready(&vec![Some(TaskStatus::Done), None]));
    assert!(!child_is_ready(&vec![Some(TaskStatus::Done), Some(TaskStatus::QA)]));
    assert_eq!(check_session_selection(0).unwrap_err(), "At least one task must be selected");
    assert_eq!(
        check_session_task("Auth", TaskStatus::Ready, false, true).unwrap_err(),
        "Task 'Auth' has no spec sheet"
    );
    assert_eq!(
        check_session_task("Auth", TaskStatus::Ready, true, false).unwrap_err(),
        "Task 'Auth' has no children (needs decomposition first)"
    );
    assert_eq!(
        check_session_task("Auth", TaskStatus::Idea, false, false).unwrap_err(),
        "Task 'Auth' must be in 'ready' status, current: idea"
    );
    assert!(check_session_task("Auth", TaskStatus::Ready, true, true).is_ok());
    let a = Uuid::new_v4();
    let b = Uuid::new_v4();
    assert_eq!(session_task_orders(&vec![a, b]), vec![(a, 0), (b, 1)]);
    assert_eq!(single_repo_working_dir("app", Some("web")), "app/web");
    assert_eq!(single_repo_working_dir("app", None), "app");
}

#[test]
fn sprint_checks() {
    let children = vec![
        SprintChild { id: "c1".into(), title: "One".into(), status: TaskStatus::Ready },
        SprintChild { id: "c2".into(), title: "Two".into(), status: TaskStatus::Done },
    ];
    assert!(check_sprint(TaskStatus::Ralph, "p", &children, &vec!["c1".to_string()]).is_ok());
    assert_eq!(
        check_sprint(TaskStatus::Backlog, "p", &children, &vec![]).unwrap_err(),
        "Task must be in 'ready' or 'ralph' status to start a sprint, current status: backlog"
    );
    assert_eq!(
        check_sprint(TaskStatus::Ready, "p", &children, &vec!["c2".to_string(), "zz".to_string()]).unwrap_err(),
        "Task zz is not a child of parent task p"
    );
    assert_eq!(
        check_sprint(TaskStatus::Ready, "p", &children, &vec!["c1".to_string(), "c2".to_string()]).unwrap_err(),
        "Child task c2 (Two) must be in 'ready' status, current: done"
    );
}

#[test]
fn branch_slugs_and_directory_names() {
    assert_eq!(git_branch_id("Add Login Page!"), "add-login-page");
    assert_eq!(git_branch_id("--Hello,   World--"), "hello-world");
    assert_eq!(git_branch_id("A very long task title indeed"), "a-very-long-task");
    assert_eq!(git_branch_id("abcdefghijklmno--pq"), "abcdefghijklmno");
    assert_eq!(git_branch_id("!!!"), "");
    let id = Uuid::parse_str("a1a2a3a4-b1b2-c1c2-d1d2-d3d4d5d6d7d8").unwrap();
    assert_eq!(short_uuid(id.as_u128()), "a1a2");
    assert_eq!(dir_name_from_workspace(id.as_u128(), "Fix Bug #12"), "a1a2-fix-bug-12");
}

#[test]
fn cleanup_spares_protected_directories() {
    let repos = vec!["/home/u/Projects/app".to_string()];
    let bases = vec!["/home/u/Projects/app-worktrees".to_string()];
    let home = Some("/home/u");
    assert_eq!(cleanup_action(None, &repos, home, &bases, 1), CleanupAction::Nothing);
    assert_eq!(
        cleanup_action(Some("/home/u/Projects"), &repos, home, &bases, 1),
        CleanupAction::ClearReferenceOnly
    );
    assert_eq!(
        cleanup_action(Some("/tmp/elsewhere"), &repos, home, &bases, 1),
        CleanupAction::ClearReferenceOnly
    );
    assert_eq!(
        cleanup_action(Some("/home/u/Projects/app-worktrees/plan-1"), &repos, home, &bases, 0),
        CleanupAction::RemoveDirectory
    );
    assert_eq!(
        cleanup_action(Some("/home/u/Projects/app-worktrees/plan-1"), &repos, home, &bases, 2),
        CleanupAction::RemoveWorktrees
    );
    assert!(needs_worktrees(2, false, false));
    assert!(!needs_worktrees(1, true, false));
    assert!(!needs_worktrees(0, false, false));
}

#[test]
fn planning_run_outcomes() {
    assert!(matches!(
        auto_plan_outcome(Some("1. Do it".into()), ExecutionProcessStatus::Killed, None, None),
        AutoPlanOutcome::StorePlan(p) if p == "1. Do it"
    ));
    assert!(matches!(
        auto_plan_outcome(None, ExecutionProcessStatus::Failed, Some(1), Some("API rate limit reached")),
        AutoPlanOutcome::RecordFailure(m) if m == "Plan generation failed: API rate limit reached"
    ));
    assert!(matches!(
        auto_plan_outcome(None, ExecutionProcessStatus::Failed, Some(1), None),
        AutoPlanOutcome::RecordFailure(m) if m == "Plan generation failed"
    ));
    assert!(matches!(
        auto_plan_outcome(None, ExecutionProcessStatus::Completed, Some(0), Some("x")),
        AutoPlanOutcome::RecordFailure(m) if m == "Plan generation completed but no plan was extracted"
    ));
}

#[test]
fn turn_summaries() {
    let msgs: Vec<String> = vec!["first", "  second  ", "   "].into_iter().map(String::from).collect();
    assert_eq!(turn_summary(&msgs), Some("second".to_string()));
    assert_eq!(turn_summary(&vec![]), None);
    let long = vec![format!("{}é", "a".repeat(4095))];
    assert_eq!(turn_summary(&long), Some(format!("{}...", "a".repeat(4095))));
}

#[test]
fn report_aggregates() {
    assert_eq!(median_score(&vec![7, 2, 5]), 5);
    assert_eq!(median_score(&vec![4, 1]), 4);
    assert_eq!(average_files_estimated(&vec![10, 11, 12]), 11);
    assert_eq!(average_files_estimated(&vec![1, 2]), 1);
    let lists = vec![
        vec!["api".to_string(), "db".to_string()],
        vec!["db".to_string(), "frontend".to_string()],
    ];
    assert_eq!(distinct_subsystems(&lists), vec!["api".to_string(), "db".to_string(), "frontend".to_string()]);
    assert_eq!(decomposability_of(None), "medium");
    assert_eq!(decomposability_of(Some("high")), "high");
}

#[test]
fn test_uuid_string_matches_hyphenated_display() {
    let id = Uuid::parse_str("67e55044-10b1-426f-9247-bb680e5fe0c8").unwrap();
    assert_eq!(wickeban_core::naming::uuid_string(id.as_u128()), "67e55044-10b1-426f-9247-bb680e5fe0c8");
    assert_eq!(wickeban_core::naming::uuid_string(0), "00000000-0000-0000-0000-000000000000");
    let fresh = Uuid::new_v4();
    assert_eq!(wickeban_core::naming::uuid_string(fresh.as_u128()), fresh.to_string());
}

#[test]
fn test_project_summary_from_project() {
    let id = Uuid::parse_str("0190a1b2-c3d4-7e5f-8a9b-0c1d2e3f4a5b").unwrap();
    let p = wickeban_core::mcp::ProjectSummary::from_project(
        id.as_u128(),
        "wickeban".to_string(),
        "2024-01-01T00:00:00+00:00".to_string(),
        "2024-02-01T00:00:00+00:00".to_string(),
    );
    assert_eq!(p.id, id.to_string());
    assert_eq!(p.name, "wickeban");
    assert_eq!(p.created_at, "2024-01-01T00:00:00+00:00");
    assert_eq!(p.updated_at, "2024-02-01T00:00:00+00:00");
}

#[test]
fn stored_lists_use_serde_json_escapes() {
    let spec = GeneratedSpec {
        overview: "o".to_string(),
        requirements: vec!["a\\b".to_string(), "tab\there\nline".to_string(), "\u{1}\u{8}\u{c}\r".to_string()],
        acceptance_criteria: vec!["caf\u{e9} \u{1F600}".to_string()],
        constraints: vec![],
        tech_notes: "t".to_string(),
    };
    let sheet = spec_sheet_from_generated(&spec);
    assert_eq!(sheet.requirements.as_deref(), Some(r#"["a\\b","tab\there\nline","\u0001\b\f\r"]"#));
    assert_eq!(sheet.acceptance_criteria.as_deref(), Some("[\"caf\u{e9} \u{1F600}\"]"));
    assert_eq!(sheet.constraints.as_deref(), Some("[]"));
}
