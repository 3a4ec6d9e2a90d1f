use wickeban_core::recovery::{
    categorize_error_messages, categorize_lowercase_errors, determine_recovery_strategy, error_summary,
    is_external_blocker, ConfidenceBand,
};
use wickeban_core::status::RecoveryStrategy;

fn strings(v: &[&str]) -> Vec<String> {
    v.iter().map(|s| s.to_string()).collect()
}

#[test]
fn test_determine_recovery_strategy_corrective() {
    // confidence 0.6
    let issues: Vec<String> = vec![];
    assert_eq!(determine_recovery_strategy(0, &issues, ConfidenceBand::High).as_str(), "corrective");
}

#[test]
fn test_determine_recovery_strategy_clean_restart() {
    // confidence 0.1
    let issues = strings(&["nothing worked"]);
    assert_eq!(determine_recovery_strategy(0, &issues, ConfidenceBand::Low).as_str(), "clean_restart");
}

#[test]
fn test_determine_recovery_strategy_redecomposition() {
    // 2 successions, confidence 0.3: below the redecomposition threshold
    let issues = strings(&["task too large"]);
    assert_eq!(determine_recovery_strategy(2, &issues, ConfidenceBand::Moderate).as_str(), "redecomposition");
}

#[test]
fn test_determine_recovery_strategy_escalation() {
    // confidence 0.0
    let issues = strings(&["External blocker: API key missing"]);
    assert_eq!(determine_recovery_strategy(0, &issues, ConfidenceBand::Low).as_str(), "escalation");
}

#[test]
fn escalation_wins_over_every_other_strategy() {
    let issues = strings(&["fine", "Request was RATE LIMITED: rate limit hit"]);
    for band in [ConfidenceBand::Low, ConfidenceBand::Moderate, ConfidenceBand::High, ConfidenceBand::Undefined] {
        assert_eq!(determine_recovery_strategy(5, &issues, band), RecoveryStrategy::Escalation);
    }
}

#[test]
fn undefined_confidence_restarts_cleanly() {
    let issues: Vec<String> = vec![];
    assert_eq!(determine_recovery_strategy(3, &issues, ConfidenceBand::Undefined), RecoveryStrategy::CleanRestart);
    assert_eq!(determine_recovery_strategy(3, &issues, ConfidenceBand::High), RecoveryStrategy::Corrective);
    assert_eq!(determine_recovery_strategy(1, &issues, ConfidenceBand::Moderate), RecoveryStrategy::Corrective);
}

#[test]
fn external_blocker_phrases() {
    assert!(is_external_blocker("blocked by missing credentials"));
    assert!(is_external_blocker("permission denied"));
    assert!(is_external_blocker("access denied to repo"));
    assert!(is_external_blocker("authentication failed"));
    assert!(!is_external_blocker("tests fail"));
}

#[test]
fn error_categories() {
    assert_eq!(categorize_lowercase_errors("http 429 too many"), Some("API rate limit reached"));
    assert_eq!(categorize_lowercase_errors("got 403"), Some("API authentication failed"));
    assert_eq!(categorize_lowercase_errors("status 502"), Some("API server error"));
    assert_eq!(categorize_lowercase_errors("econnrefused"), Some("Network connection error"));
    assert_eq!(categorize_lowercase_errors("request timed out"), Some("Request timed out"));
    assert_eq!(categorize_lowercase_errors("something odd"), None);
}

#[test]
fn error_messages_are_joined_and_lower_cased() {
    assert_eq!(categorize_error_messages(&strings(&["Rate", "Limit exceeded"])), "API rate limit reached");
    assert_eq!(categorize_error_messages(&strings(&["UNAUTHORIZED"])), "API authentication failed");
    assert_eq!(categorize_error_messages(&strings(&["odd failure", "other"])), "odd failure");
}

#[test]
fn long_uncategorized_error_is_cut() {
    let long = "e".repeat(200);
    let summary = categorize_error_messages(&vec![long]);
    assert_eq!(summary, format!("{}...", "e".repeat(120)));
}

#[test]
fn error_summary_of_nothing_is_none() {
    assert_eq!(error_summary(&vec![]), None);
    assert_eq!(error_summary(&strings(&["boom"])), Some("boom".to_string()));
    // byte 120 falls inside the two-byte character: no cut can be made there
    let awkward = format!("{}é{}", "a".repeat(119), "b".repeat(10));
    assert_eq!(error_summary(&vec![awkward.clone()]), None);
    // a category needs no cut
    let categorized = format!("{}é timeout", "a".repeat(119));
    assert_eq!(error_summary(&vec![categorized]), Some("Request timed out".to_string()));
}
