use wickeban_core::status::{RecoveryStrategy, RoutingDecision, SwarmSuccessionStatus, TaskStatus, TaskType};

#[test]
fn task_status_names_round_trip() {
    let all = [
        TaskStatus::Backlog,
        TaskStatus::PlanGenerating,
        TaskStatus::Ready,
        TaskStatus::Ralph,
        TaskStatus::InProgress,
        TaskStatus::QA,
        TaskStatus::Done,
        TaskStatus::Cancelled,
        TaskStatus::Idea,
        TaskStatus::Planning,
        TaskStatus::SpecReview,
    ];
    for s in all {
        assert_eq!(TaskStatus::parse(s.as_str()), Some(s));
    }
    assert_eq!(TaskStatus::PlanGenerating.as_str(), "plangenerating");
    assert_eq!(TaskStatus::QA.as_str(), "qa");
    assert_eq!(TaskStatus::parse("Ready"), None);
    assert_eq!(TaskStatus::default(), TaskStatus::Backlog);
}

#[test]
fn snake_case_names() {
    assert_eq!(RoutingDecision::SingleVerifier.as_str(), "single_verifier");
    assert_eq!(RoutingDecision::parse("vs_deep"), Some(RoutingDecision::VsDeep));
    assert_eq!(SwarmSuccessionStatus::SuccessorRunning.as_str(), "successor_running");
    assert_eq!(RecoveryStrategy::parse("clean_restart"), Some(RecoveryStrategy::CleanRestart));
    assert_eq!(TaskType::parse("epic"), Some(TaskType::Epic));
    assert_eq!(TaskType::parse("EPIC"), None);
}
