use wickeban_core::assessment::{
    route_from_score, route_from_synthesis, run_synthesis, sort_scores, ContextBand, GapFinding, RankingFindings,
    RiskFinding, SynthesisOutcome, SynthesisResult, CONSENSUS_THRESHOLD,
};
use wickeban_core::status::RoutingDecision;

fn make_ranking_report(score: u8, gaps: Vec<GapFinding>, risks: Vec<RiskFinding>) -> RankingFindings {
    RankingFindings { complexity_score: score, gaps_found: gaps, risks_found: risks }
}

fn gap(description: &str, severity: &str) -> GapFinding {
    GapFinding { description: description.to_string(), severity: severity.to_string() }
}

fn risk(description: &str, mitigation: &str) -> RiskFinding {
    RiskFinding { description: description.to_string(), mitigation: mitigation.to_string() }
}

#[test]
fn test_route_from_score_single() {
    // context estimate 0.1
    assert_eq!(route_from_score(2, ContextBand::Light).as_str(), "single");
}

#[test]
fn test_route_from_score_single_promoted_by_context() {
    // Score 3 but context >= 0.4 (here 0.5) promotes to single_verifier
    assert_eq!(route_from_score(3, ContextBand::Moderate).as_str(), "single_verifier");
}

#[test]
fn test_route_from_score_single_verifier() {
    // context estimate 0.5
    assert_eq!(route_from_score(5, ContextBand::Moderate).as_str(), "single_verifier");
}

#[test]
fn test_route_from_score_single_verifier_promoted_by_context() {
    // Score 4 but context > 0.7 (here 0.8) promotes to vs_shallow
    assert_eq!(route_from_score(4, ContextBand::Heavy).as_str(), "vs_shallow");
}

#[test]
fn test_route_from_score_vs_shallow() {
    // context estimate 1.2
    assert_eq!(route_from_score(7, ContextBand::Heavy).as_str(), "vs_shallow");
}

#[test]
fn test_route_from_score_vs_shallow_promoted_by_context() {
    // Score 8 but context > 2.0 (here 2.5) promotes to vs_deep
    assert_eq!(route_from_score(8, ContextBand::Oversized).as_str(), "vs_deep");
}

#[test]
fn test_route_from_score_vs_deep() {
    // context estimate 3.0
    assert_eq!(route_from_score(10, ContextBand::Oversized).as_str(), "vs_deep");
}

#[test]
fn scores_outside_one_to_ten_route_deep() {
    assert_eq!(route_from_score(0, ContextBand::Light), RoutingDecision::VsDeep);
    assert_eq!(route_from_score(11, ContextBand::Light), RoutingDecision::VsDeep);
    assert_eq!(route_from_score(9, ContextBand::Light), RoutingDecision::VsDeep);
    assert_eq!(route_from_score(6, ContextBand::Light), RoutingDecision::VsShallow);
    assert_eq!(route_from_score(1, ContextBand::Oversized), RoutingDecision::SingleVerifier);
}

#[test]
fn routing_never_gets_lighter_as_score_grows() {
    let bands = [ContextBand::Light, ContextBand::Moderate, ContextBand::Heavy, ContextBand::Oversized];
    let rank = |d: RoutingDecision| match d {
        RoutingDecision::Single => 0,
        RoutingDecision::SingleVerifier => 1,
        RoutingDecision::VsShallow => 2,
        RoutingDecision::VsDeep => 3,
    };
    for b in bands {
        for s in 1u8..10 {
            assert!(rank(route_from_score(s, b)) <= rank(route_from_score(s + 1, b)));
        }
    }
}

#[test]
fn sort_scores_orders_ascending() {
    assert_eq!(sort_scores(&vec![9, 3, 5, 3]), vec![3, 3, 5, 9]);
    assert_eq!(sort_scores(&vec![]), Vec::<u8>::new());
}

#[test]
fn test_synthesis_consensus() {
    let reports = vec![
        make_ranking_report(5, vec![], vec![]),
        make_ranking_report(6, vec![], vec![]),
        make_ranking_report(5, vec![], vec![]),
    ];
    match run_synthesis(&reports, ContextBand::Moderate) {
        SynthesisOutcome::Routed(result) => {
            assert!(!result.divergence_detected);
            assert!(result.consensus);
            assert_eq!(result.median_complexity_score, 5);
            assert!(result.score_range <= CONSENSUS_THRESHOLD);
        }
        SynthesisOutcome::NeedsInterview(_) => {
            panic!("Expected Routed, got NeedsInterview");
        }
    }
}

#[test]
fn test_synthesis_divergence_with_ambiguity() {
    let g = gap("Missing auth spec", "high");
    let reports = vec![
        make_ranking_report(3, vec![gap("Missing auth spec", "high")], vec![]),
        make_ranking_report(9, vec![g], vec![]),
        make_ranking_report(4, vec![], vec![]),
    ];
    match run_synthesis(&reports, ContextBand::Moderate) {
        SynthesisOutcome::NeedsInterview(rec) => {
            assert!(!rec.ambiguous_sections.is_empty());
            assert_eq!(rec.ambiguous_sections, vec!["Missing auth spec".to_string()]);
            assert_eq!(rec.recommended_questions, vec!["Can you clarify: Missing auth spec".to_string()]);
        }
        SynthesisOutcome::Routed(result) => {
            // Also acceptable if no high-severity gaps shared
            assert!(result.divergence_detected);
        }
    }
}

#[test]
fn test_synthesis_divergence_without_ambiguity() {
    // Big divergence but no high-severity gaps -> still routes
    let reports = vec![
        make_ranking_report(2, vec![], vec![]),
        make_ranking_report(9, vec![], vec![]),
        make_ranking_report(3, vec![], vec![]),
    ];
    match run_synthesis(&reports, ContextBand::Moderate) {
        SynthesisOutcome::Routed(result) => {
            assert!(result.divergence_detected);
            // Confidence is discounted without consensus
            assert!(!result.consensus);
        }
        SynthesisOutcome::NeedsInterview(_) => {
            panic!("Expected Routed, got NeedsInterview (no ambiguous sections)");
        }
    }
}

#[test]
fn test_synthesis_confirmed_gaps() {
    let reports = vec![
        make_ranking_report(5, vec![gap("Missing validation", "medium")], vec![]),
        make_ranking_report(6, vec![gap("Missing validation", "medium")], vec![]),
        make_ranking_report(5, vec![], vec![]),
    ];
    match run_synthesis(&reports, ContextBand::Moderate) {
        SynthesisOutcome::Routed(result) => {
            assert_eq!(result.confirmed_gaps.len(), 1);
            assert_eq!(result.confirmed_gaps[0].description, "Missing validation");
        }
        _ => panic!("Expected Routed"),
    }
}

#[test]
fn test_synthesis_prioritized_risks() {
    let reports = vec![
        make_ranking_report(5, vec![], vec![risk("External API failure", "Add circuit breaker")]),
        make_ranking_report(6, vec![], vec![risk("External API failure", "Add circuit breaker")]),
        make_ranking_report(5, vec![], vec![]),
    ];
    match run_synthesis(&reports, ContextBand::Moderate) {
        SynthesisOutcome::Routed(result) => {
            assert!(!result.prioritized_risks.is_empty());
            assert_eq!(result.prioritized_risks[0].description, "External API failure");
        }
        _ => panic!("Expected Routed"),
    }
}

#[test]
fn test_synthesis_empty_reports() {
    match run_synthesis(&vec![], ContextBand::Light) {
        SynthesisOutcome::Routed(result) => {
            assert_eq!(result.routing_decision.as_str(), "single");
            assert_eq!(result.implementation_brief, "No ranking reports available.");
        }
        _ => panic!("Expected Routed for empty input"),
    }
}

#[test]
fn test_route_from_synthesis() {
    let synthesis = SynthesisResult {
        routing_decision: RoutingDecision::VsShallow,
        consensus: true,
        divergence_detected: false,
        confirmed_gaps: vec![],
        prioritized_risks: vec![],
        implementation_brief: "test".to_string(),
        median_complexity_score: 7,
        score_range: 1,
    };
    assert_eq!(route_from_synthesis(&synthesis).as_str(), "vs_shallow");
}

#[test]
fn synthesis_orders_risks_by_frequency_then_first_report() {
    let reports = vec![
        make_ranking_report(5, vec![], vec![risk("A", "a"), risk("B", "b")]),
        make_ranking_report(5, vec![], vec![risk("B", "b2"), risk("C", "c")]),
        make_ranking_report(6, vec![], vec![risk("C", "c2"), risk("B", "b3")]),
    ];
    match run_synthesis(&reports, ContextBand::Light) {
        SynthesisOutcome::Routed(result) => {
            let names: Vec<&str> = result.prioritized_risks.iter().map(|r| r.description.as_str()).collect();
            assert_eq!(names, vec!["B", "C", "A"]);
            assert_eq!(result.prioritized_risks[0].mitigation, "b");
        }
        _ => panic!("Expected Routed"),
    }
}

#[test]
fn synthesis_writes_the_brief() {
    let reports = vec![
        make_ranking_report(5, vec![gap("G", "low"), gap("G", "high")], vec![risk("R", "m")]),
        make_ranking_report(6, vec![], vec![]),
        make_ranking_report(5, vec![], vec![]),
    ];
    match run_synthesis(&reports, ContextBand::Moderate) {
        SynthesisOutcome::Routed(result) => {
            assert_eq!(result.routing_decision, RoutingDecision::SingleVerifier);
            assert_eq!(
                result.implementation_brief,
                "Median complexity: 5/10 (range: 5-6). High consensus among ranking agents. \
                 Routing: single_verifier. 1 confirmed gaps, 1 risks identified."
            );
            assert_eq!(result.confirmed_gaps[0].severity, "low");
        }
        _ => panic!("Expected Routed"),
    }
}

#[test]
fn divergent_synthesis_brief_names_the_range() {
    let reports = vec![make_ranking_report(1, vec![], vec![]), make_ranking_report(4, vec![], vec![])];
    match run_synthesis(&reports, ContextBand::Light) {
        SynthesisOutcome::Routed(result) => {
            assert_eq!(result.median_complexity_score, 4);
            assert_eq!(result.score_range, 3);
            assert!(!result.consensus);
            assert!(!result.divergence_detected);
            assert!(result.implementation_brief.contains("Moderate divergence (range 3). "));
        }
        _ => panic!("Expected Routed"),
    }
}
