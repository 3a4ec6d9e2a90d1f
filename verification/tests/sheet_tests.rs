use wickeban_core::planning::{CreateSpecSheet, MakeRalphReadyRequest, UpdatePlanningSession};

#[test]
fn test_update_planning_session_apply() {
    let keep = UpdatePlanningSession { session_ref: None, notes: None };
    assert_eq!(keep.apply("sess-1", Some("old")), ("sess-1".to_string(), Some("old".to_string())));
    let replace = UpdatePlanningSession { session_ref: Some("sess-2".to_string()), notes: Some("new".to_string()) };
    assert_eq!(replace.apply("sess-1", None), ("sess-2".to_string(), Some("new".to_string())));
    let notes_only = UpdatePlanningSession { session_ref: None, notes: Some("n".to_string()) };
    assert_eq!(notes_only.apply("sess-1", Some("old")), ("sess-1".to_string(), Some("n".to_string())));
}

#[test]
fn test_spec_sheet_as_update_replaces_all_fields() {
    let sheet = CreateSpecSheet {
        overview: Some("o".to_string()),
        requirements: None,
        acceptance_criteria: Some("[\"a\"]".to_string()),
        constraints: None,
        tech_notes: Some("t".to_string()),
    };
    let u = sheet.as_update();
    assert_eq!(u.overview, Some("o".to_string()));
    assert_eq!(u.requirements, None);
    assert_eq!(u.acceptance_criteria, Some("[\"a\"]".to_string()));
    assert_eq!(u.constraints, None);
    assert_eq!(u.tech_notes, Some("t".to_string()));
}

#[test]
fn test_make_ralph_ready_to_spec_sheet() {
    let req = MakeRalphReadyRequest {
        overview: Some("Overview".to_string()),
        requirements: Some("[\"r1\"]".to_string()),
        acceptance_criteria: None,
        constraints: Some("[]".to_string()),
        tech_notes: None,
    };
    let sheet = req.to_spec_sheet();
    assert_eq!(sheet.overview, Some("Overview".to_string()));
    assert_eq!(sheet.requirements, Some("[\"r1\"]".to_string()));
    assert_eq!(sheet.acceptance_criteria, None);
    assert_eq!(sheet.constraints, Some("[]".to_string()));
    assert_eq!(sheet.tech_notes, None);
}

#[test]
fn test_generate_spec_response_keeps_fields() {
    let spec = wickeban_core::planning::GeneratedSpec {
        overview: "Add login".to_string(),
        requirements: vec!["r1".to_string(), "r2".to_string()],
        acceptance_criteria: vec!["a1".to_string()],
        constraints: vec![],
        tech_notes: "use OAuth".to_string(),
    };
    let r = wickeban_core::planning::GenerateSpecResponse::from_generated(spec);
    assert_eq!(r.overview, "Add login");
    assert_eq!(r.requirements, vec!["r1".to_string(), "r2".to_string()]);
    assert_eq!(r.acceptance_criteria, vec!["a1".to_string()]);
    assert!(r.constraints.is_empty());
    assert_eq!(r.tech_notes, "use OAuth");
}
