use uuid::Uuid;
use wickeban_core::prompts::{
    build_agent_prompt, build_assessment_prompt, build_auto_plan_prompt, build_auto_plan_prompt_with_answers,
    build_ralph_prompt, build_ranking_prompt, build_spec_generation_prompt, generate_decomposition_prompt,
    generate_plan_prompt, RankingPerspective, SpecSheet,
};

fn make_spec(overview: &str) -> SpecSheet {
    SpecSheet {
        id: Uuid::new_v4(),
        task_id: Uuid::new_v4(),
        overview: Some(overview.to_string()),
        requirements: Some(r#"["Req A","Req B"]"#.to_string()),
        acceptance_criteria: Some(r#"["AC 1"]"#.to_string()),
        constraints: Some(r#"["Constraint 1"]"#.to_string()),
        tech_notes: Some("Use existing patterns".to_string()),
    }
}

fn empty_spec() -> SpecSheet {
    SpecSheet {
        id: Uuid::new_v4(),
        task_id: Uuid::new_v4(),
        overview: None,
        requirements: None,
        acceptance_criteria: None,
        constraints: None,
        tech_notes: None,
    }
}

#[test]
fn test_build_ralph_prompt() {
    let plan = "1. Create file A\n2. Modify file B\n3. Run tests";
    let prompt = build_ralph_prompt(plan, "My Feature");

    assert!(prompt.contains("# Execute Plan: My Feature"));
    assert!(prompt.contains("Create file A"));
    assert!(prompt.contains("## Execution Guidelines"));
}

#[test]
fn test_build_spec_generation_prompt() {
    let prompt = build_spec_generation_prompt(
        "Add login page",
        Some("Create a login page with email and password"),
        Some("1. Create LoginForm component\n2. Add validation"),
    );
    assert!(prompt.contains("# Spec Sheet Generation: Add login page"));
    assert!(prompt.contains("Create a login page"));
    assert!(prompt.contains("Create LoginForm component"));
    assert!(prompt.contains("overview"));
    assert!(prompt.contains("requirements"));
}

#[test]
fn test_build_spec_generation_prompt_no_optional_fields() {
    let prompt = build_spec_generation_prompt("Simple task", None, None);
    assert!(prompt.contains("# Spec Sheet Generation: Simple task"));
    assert!(!prompt.contains("## Task Description"));
    assert!(!prompt.contains("## Implementation Plan"));
}

#[test]
fn test_build_agent_prompt_basic() {
    let prompt = build_agent_prompt("Create a login page", None, None);
    assert!(prompt.contains("# Swarm Agent Task"));
    assert!(prompt.contains("Create a login page"));
    assert!(prompt.contains("## Execution Guidelines"));
    assert!(!prompt.contains("Predecessor Verification Report"));
    assert!(!prompt.contains("git checkout"));
}

#[test]
fn test_build_agent_prompt_with_verification() {
    let report = r#"{"completed": ["Step 1"], "remaining": ["Step 2"]}"#;
    let prompt = build_agent_prompt("Create a login page", Some(report), None);
    assert!(prompt.contains("## Predecessor Verification Report"));
    assert!(prompt.contains("Step 1"));
}

#[test]
fn test_build_agent_prompt_verification_report_capped() {
    let long_report = "x".repeat(15_000);
    let prompt = build_agent_prompt("task", Some(&long_report), None);
    // The report should be capped
    assert!(prompt.len() < 15_500);
}

#[test]
fn test_build_agent_prompt_with_git_branch() {
    let prompt = build_agent_prompt("Implement auth", None, Some("swarm/abc-123/gen-0"));
    assert!(prompt.contains("git checkout swarm/abc-123/gen-0"));
    assert!(prompt.contains("FIRST"));
}

#[test]
fn agent_prompt_quotes_exactly_the_first_ten_thousand_bytes() {
    let report = format!("{}{}", "a".repeat(10_000), "b".repeat(50));
    let prompt = build_agent_prompt("t", Some(&report), None);
    assert!(prompt.contains(&format!("{}\n\n## Execution Guidelines", "a".repeat(10_000))));
    assert!(!prompt.contains("ab"));
    let short = "y".repeat(10_000);
    let prompt = build_agent_prompt("t", Some(&short), None);
    assert!(prompt.contains(&short));
}

#[test]
fn test_generate_plan_prompt_full() {
    let spec = SpecSheet {
        id: Uuid::new_v4(),
        task_id: Uuid::new_v4(),
        overview: Some("Build a login page".to_string()),
        requirements: Some(r#"["Email input","Password input","Submit button"]"#.to_string()),
        acceptance_criteria: Some(r#"["User can log in"]"#.to_string()),
        constraints: Some(r#"["Must use existing auth service"]"#.to_string()),
        tech_notes: Some("Use React Hook Form".to_string()),
    };

    let prompt = generate_plan_prompt(&spec, "Login Page");
    assert!(prompt.contains("# Plan Request: Login Page"));
    assert!(prompt.contains("Build a login page"));
    assert!(prompt.contains("- Email input"));
    assert!(prompt.contains("- User can log in"));
    assert!(prompt.contains("- Must use existing auth service"));
    assert!(prompt.contains("Use React Hook Form"));
}

#[test]
fn test_generate_plan_prompt_minimal() {
    let spec = empty_spec();
    let prompt = generate_plan_prompt(&spec, "Empty Task");
    assert!(prompt.contains("# Plan Request: Empty Task"));
    assert!(prompt.contains("## Instructions"));
}

#[test]
fn plan_prompt_skips_list_fields_that_are_not_json_arrays() {
    let mut spec = empty_spec();
    spec.requirements = Some("not a list".to_string());
    spec.acceptance_criteria = Some("[]".to_string());
    let prompt = generate_plan_prompt(&spec, "T");
    assert!(!prompt.contains("## Requirements"));
    assert!(!prompt.contains("not a list"));
    assert!(!prompt.contains("## Acceptance Criteria"));
    assert!(!prompt.contains("## Overview"));
}

#[test]
fn test_generate_decomposition_prompt() {
    let spec = SpecSheet {
        id: Uuid::new_v4(),
        task_id: Uuid::new_v4(),
        overview: Some("Build a login page".to_string()),
        requirements: Some(r#"["Email input","Password input"]"#.to_string()),
        acceptance_criteria: Some(r#"["User can log in"]"#.to_string()),
        constraints: Some(r#"["Use existing auth"]"#.to_string()),
        tech_notes: Some("Use React Hook Form".to_string()),
    };

    let prompt = generate_decomposition_prompt(&spec, "Login Page");
    assert!(prompt.contains("# Story Decomposition: Login Page"));
    assert!(prompt.contains("Build a login page"));
    assert!(prompt.contains("40%"));
    assert!(prompt.contains("dependsOn"));
}

#[test]
fn test_build_assessment_prompt_includes_spec_fields() {
    let spec = make_spec("Build a complex multi-service feature");
    let prompt = build_assessment_prompt(&spec, "Complex Feature");

    assert!(prompt.contains("# Complexity Assessment: Complex Feature"));
    assert!(prompt.contains("Build a complex multi-service feature"));
    assert!(prompt.contains("Req A"));
    assert!(prompt.contains("AC 1"));
    assert!(prompt.contains("Constraint 1"));
    assert!(prompt.contains("Use existing patterns"));
    assert!(prompt.contains("complexity_score"));
    assert!(prompt.contains("single_verifier"));
    assert!(prompt.contains("vs_shallow"));
    assert!(prompt.contains("vs_deep"));
}

#[test]
fn test_build_assessment_prompt_empty_spec() {
    let spec = empty_spec();
    let prompt = build_assessment_prompt(&spec, "Minimal Task");
    assert!(prompt.contains("# Complexity Assessment: Minimal Task"));
    assert!(prompt.contains("complexity_score"));
}

#[test]
fn test_build_ranking_prompt_complexity_perspective() {
    let spec = make_spec("Feature X");
    let prompt = build_ranking_prompt(&spec, "Feature X", RankingPerspective::Complexity);
    assert!(prompt.contains("complexity assessment"));
    assert!(prompt.contains("Feature X"));
    assert!(prompt.contains("complexity_rationale"));
}

#[test]
fn test_build_ranking_prompt_gap_perspective() {
    let spec = make_spec("Feature X");
    let prompt = build_ranking_prompt(&spec, "Feature X", RankingPerspective::GapAnalysis);
    assert!(prompt.contains("gap analysis"));
}

#[test]
fn test_build_ranking_prompt_risk_perspective() {
    let spec = make_spec("Feature X");
    let prompt = build_ranking_prompt(&spec, "Feature X", RankingPerspective::RiskIdentification);
    assert!(prompt.contains("risk identification"));
}

#[test]
fn auto_plan_prompt_includes_description_when_given() {
    let with = build_auto_plan_prompt("Search", Some("Full-text search over tasks"));
    assert!(with.contains("Search"));
    assert!(with.contains("Full-text search over tasks"));
    let without = build_auto_plan_prompt("Search", None);
    assert!(without.contains("Search"));
    assert!(without.len() < with.len());
}

#[test]
fn auto_plan_prompt_with_answers_lists_each_answer() {
    let answers = vec![
        ("Which database?".to_string(), "SQLite".to_string()),
        ("Which auth?".to_string(), "OAuth2".to_string()),
    ];
    let prompt = build_auto_plan_prompt_with_answers("Login", None, &answers);
    assert!(prompt.contains("Which database?"));
    assert!(prompt.contains("SQLite"));
    assert!(prompt.contains("OAuth2"));
}

#[test]
fn auto_plan_prompt_with_answers_shape() {
    let answers = vec![
        ("Which database?".to_string(), "SQLite".to_string()),
        ("Which auth?".to_string(), "OAuth2".to_string()),
    ];
    let prompt = build_auto_plan_prompt_with_answers("Login", Some("Add a login page"), &answers);
    let head = build_auto_plan_prompt("Login", Some("Add a login page")) + "\n## Previous User Input\n\n";
    assert!(prompt.starts_with(&head));
    for (q, a) in &answers {
        assert!(prompt.contains(&format!("**Q:** {}\n**A:** {}\n\n", q, a)));
    }
    assert!(prompt.ends_with("Do NOT re-ask any of the above questions. Use the answers as given.\n"));
    let none: Vec<(String, String)> = Vec::new();
    assert_eq!(build_auto_plan_prompt_with_answers("Login", None, &none), build_auto_plan_prompt("Login", None));
}
