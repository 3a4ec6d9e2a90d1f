use wickeban_core::approvals::{
    answers_from_approval, find_matching_tool_use, replans_after_answer, respond_route, status_on_request,
    status_on_response, stored_answerable, stored_decision, ApprovalDecision, RespondRoute, ToolUseRecord,
};
use wickeban_core::context::{ContextMonitor, ObservedEntry, ToolDensityTracker};
use wickeban_core::execution::ExecutionProcessStatus;
use wickeban_core::status::TaskStatus;

fn tool_use(index: usize, id: &str, created: bool) -> ToolUseRecord {
    ToolUseRecord { index, created, tool_call_id: Some(id.to_string()) }
}

#[test]
fn test_parallel_tool_call_approval_matching() {
    // Setup: Simulate 3 parallel Read tool calls with different files
    let mut history = vec![tool_use(0, "foo-id", true), tool_use(1, "bar-id", true), tool_use(2, "baz-id", true)];

    let (idx_foo, _) = find_matching_tool_use(&history, "foo-id").expect("Should match foo.rs");
    let (idx_bar, _) = find_matching_tool_use(&history, "bar-id").expect("Should match bar.rs");
    let (idx_baz, _) = find_matching_tool_use(&history, "baz-id").expect("Should match baz.rs");

    assert_eq!(idx_foo, 0, "foo.rs should match first entry");
    assert_eq!(idx_bar, 1, "bar.rs should match second entry");
    assert_eq!(idx_baz, 2, "baz.rs should match third entry");

    // Test 2: Already pending tools are skipped
    history.push(tool_use(3, "pending-id", false));
    assert!(
        find_matching_tool_use(&history, "pending-id").is_none(),
        "Should not match tools in PendingApproval state"
    );

    // Test 3: Wrong tool id returns None
    assert!(find_matching_tool_use(&history, "wrong-id").is_none(), "Should not match different tool ids");
}

#[test]
fn latest_matching_tool_use_wins() {
    let history = vec![
        tool_use(0, "x", true),
        ToolUseRecord { index: 1, created: true, tool_call_id: None },
        tool_use(5, "x", true),
    ];
    assert_eq!(find_matching_tool_use(&history, "x"), Some((5, 2)));
}

#[test]
fn approval_answers_and_routes() {
    assert_eq!(stored_decision(ApprovalDecision::TimedOut), "timed_out");
    assert_eq!(stored_decision(ApprovalDecision::Approved), "approved");
    assert_eq!(respond_route(true, true), RespondRoute::Live);
    assert_eq!(respond_route(false, true), RespondRoute::AlreadyCompleted);
    assert_eq!(respond_route(false, false), RespondRoute::CheckStored);
    assert!(stored_answerable(Some("pending")));
    assert!(!stored_answerable(Some("approved")));
    assert!(!stored_answerable(None));
    assert_eq!(status_on_request(TaskStatus::Ralph), Some(TaskStatus::QA));
    assert_eq!(status_on_request(TaskStatus::Done), None);
    assert_eq!(status_on_response(ApprovalDecision::Denied, TaskStatus::QA), Some(TaskStatus::Ralph));
    assert_eq!(status_on_response(ApprovalDecision::TimedOut, TaskStatus::QA), None);
    assert!(replans_after_answer(ApprovalDecision::Approved, ExecutionProcessStatus::Killed, TaskStatus::PlanGenerating));
    assert!(!replans_after_answer(ApprovalDecision::Approved, ExecutionProcessStatus::Running, TaskStatus::PlanGenerating));
    assert!(!replans_after_answer(ApprovalDecision::Approved, ExecutionProcessStatus::Completed, TaskStatus::Ready));
}

#[test]
fn answers_follow_the_questions() {
    let questions = vec!["Which DB?".to_string(), "Which auth?".to_string(), "Which DB?".to_string(), "Color?".to_string()];
    let response = vec![
        ("Which auth?".to_string(), "OAuth2".to_string()),
        ("Which DB?".to_string(), "SQLite".to_string()),
    ];
    let answers = answers_from_approval(&questions, &response);
    assert_eq!(
        answers,
        vec![
            ("Which DB?".to_string(), "SQLite".to_string()),
            ("Which auth?".to_string(), "OAuth2".to_string()),
        ]
    );
}

#[test]
fn test_tool_density_tracker() {
    let mut tracker = ToolDensityTracker::new();

    // Empty tracker
    assert_eq!(tracker.tool_messages(), 0);
    assert_eq!(tracker.total_messages(), 0);

    // Add some messages
    tracker.observe(&ObservedEntry::Conversation);
    tracker.observe(&ObservedEntry::ToolUse);
    tracker.observe(&ObservedEntry::Conversation);
    tracker.observe(&ObservedEntry::ToolUse);

    // 2 tool / 4 total = 0.5
    assert_eq!((tracker.tool_messages(), tracker.total_messages()), (2, 4));

    // Non-patch messages are ignored
    tracker.observe(&ObservedEntry::Other);
    assert_eq!((tracker.tool_messages(), tracker.total_messages()), (2, 4));
}

#[test]
fn check_threshold_ignores_non_patch() {
    assert!(ContextMonitor::measurable_usage(&ObservedEntry::Other).is_none());
}

#[test]
fn check_threshold_ignores_non_token_patches() {
    assert!(ContextMonitor::measurable_usage(&ObservedEntry::Conversation).is_none());
}

#[test]
fn check_threshold_handles_zero_context_window() {
    let entry = ObservedEntry::TokenUsage { total_tokens: 100, model_context_window: 0 };
    assert!(ContextMonitor::measurable_usage(&entry).is_none());
}

#[test]
fn token_usage_is_measured() {
    let entry = ObservedEntry::TokenUsage { total_tokens: 180_000, model_context_window: 200_000 };
    assert_eq!(ContextMonitor::measurable_usage(&entry), Some((180_000, 200_000)));
}
