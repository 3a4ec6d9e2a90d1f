use wickeban_core::interview::{
    classify_question_line, extract_open_questions, extract_surrounding_context, InterviewPhase,
    InterviewPriority, InterviewQuestion, InterviewStatus,
};

#[test]
fn test_interview_phase_new() {
    let phase = InterviewPhase::new();
    assert_eq!(phase.status, InterviewStatus::Pending);
    assert!(phase.open_questions.is_empty());
    assert!(phase.answers.is_empty());
}

#[test]
fn test_interview_phase_with_questions() {
    let questions = vec![InterviewQuestion {
        question: "What auth provider?".to_string(),
        context: "Auth section".to_string(),
        priority: InterviewPriority::High,
    }];
    let phase = InterviewPhase::with_questions(questions);
    assert_eq!(phase.status, InterviewStatus::AwaitingAnswers);
    assert_eq!(phase.open_questions.len(), 1);
}

#[test]
fn test_interview_phase_empty_questions_skipped() {
    let phase = InterviewPhase::with_questions(vec![]);
    assert_eq!(phase.status, InterviewStatus::Skipped);
    assert!(phase.is_complete());
}

#[test]
fn test_interview_phase_add_answer_completes() {
    let questions = vec![InterviewQuestion {
        question: "What auth provider?".to_string(),
        context: "".to_string(),
        priority: InterviewPriority::High,
    }];
    let mut phase = InterviewPhase::with_questions(questions);
    assert!(!phase.is_complete());

    phase.add_answer("What auth provider?".to_string(), "OAuth2".to_string());
    assert!(phase.is_complete());
    assert_eq!(phase.status, InterviewStatus::Completed);
}

#[test]
fn test_unanswered_questions() {
    let questions = vec![
        InterviewQuestion {
            question: "Q1?".to_string(),
            context: "".to_string(),
            priority: InterviewPriority::High,
        },
        InterviewQuestion {
            question: "Q2?".to_string(),
            context: "".to_string(),
            priority: InterviewPriority::Medium,
        },
    ];
    let mut phase = InterviewPhase::with_questions(questions);
    phase.add_answer("Q1?".to_string(), "A1".to_string());

    let unanswered = phase.unanswered_questions();
    assert_eq!(unanswered.len(), 1);
    assert_eq!(unanswered[0].question, "Q2?");
}

#[test]
fn test_extract_open_questions_finds_questions() {
    let plan = "## Step 1\nSet up the database schema.\n\nShould we use PostgreSQL or SQLite for this feature?\n\n## Step 2\nImplement the API endpoints.";
    let questions = extract_open_questions(plan);
    assert_eq!(questions.len(), 1);
    assert!(questions[0].question.contains("PostgreSQL or SQLite"));
    assert_eq!(questions[0].priority, InterviewPriority::High); // contains "should"
}

#[test]
fn test_extract_open_questions_finds_todo_markers() {
    let plan = "## Step 1\nTODO: Determine the correct API endpoint structure\n\n## Step 2\nCLARIFY: What error codes should be returned?";
    let questions = extract_open_questions(plan);
    assert_eq!(questions.len(), 2);
}

#[test]
fn test_extract_open_questions_ignores_comments_and_headers() {
    let plan =
        "# What is this?\n// What about this?\nThis is a real question that needs an answer?";
    let questions = extract_open_questions(plan);
    assert_eq!(questions.len(), 1);
    assert!(questions[0].question.contains("real question"));
}

#[test]
fn test_extract_open_questions_ignores_short_questions() {
    let plan = "Really?\nIs this a longer question that actually matters?";
    let questions = extract_open_questions(plan);
    assert_eq!(questions.len(), 1);
}

#[test]
fn test_extract_open_questions_critical_priority() {
    let plan = "Is this a critical blocking issue that must be resolved?";
    let questions = extract_open_questions(plan);
    assert_eq!(questions.len(), 1);
    assert_eq!(questions[0].priority, InterviewPriority::Critical);
}

#[test]
fn surrounding_context_takes_two_lines_each_side() {
    let text = "a\nb\nc\n  target  \nd\ne\nf";
    assert_eq!(extract_surrounding_context(text, "target"), "b\nc\n  target  \nd\ne");
    assert_eq!(extract_surrounding_context(text, "missing"), "");
    assert_eq!(extract_surrounding_context("target\nx", "target"), "target\nx");
}

#[test]
fn classify_marker_and_questions() {
    assert_eq!(classify_question_line("TODO: pick db", "todo: pick db"), Some(InterviewPriority::High));
    assert_eq!(classify_question_line("TODO:", "todo:"), None);
    assert_eq!(classify_question_line("Which one is it?", "which one is it?"), Some(InterviewPriority::Medium));
    assert_eq!(classify_question_line("# Which one is it?", "# which one is it?"), None);
    assert_eq!(classify_question_line("Is it important?", "is it important?"), Some(InterviewPriority::High));
}

#[test]
fn extract_marker_context_includes_neighbours() {
    let plan = "intro\nTODO: decide caching strategy\noutro";
    let qs = extract_open_questions(plan);
    assert_eq!(qs.len(), 1);
    assert_eq!(qs[0].priority, InterviewPriority::High);
    assert_eq!(qs[0].context, plan);
}

#[test]
fn add_answer_keeps_awaiting_until_all_answered() {
    let q = |s: &str| InterviewQuestion {
        question: s.to_string(),
        context: String::new(),
        priority: InterviewPriority::Low,
    };
    let mut phase = InterviewPhase::with_questions(vec![q("A?"), q("B?")]);
    phase.add_answer("A?".to_string(), "yes".to_string());
    assert_eq!(phase.status, InterviewStatus::AwaitingAnswers);
    assert!(!phase.is_complete());
    phase.add_answer("B?".to_string(), "no".to_string());
    assert_eq!(phase.status, InterviewStatus::Completed);
    assert!(phase.unanswered_questions().is_empty());
}
