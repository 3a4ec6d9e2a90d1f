use wickeban_core::transcript::{
    errors_from_result_fields, plan_from_output, plan_from_tool_uses, result_errors_from_output,
};

fn s(x: &str) -> Option<String> {
    Some(x.to_string())
}

#[test]
fn test_plan_from_top_level_tool_use() {
    let out = "{\"type\":\"system\"}\n{\"type\":\"tool_use\",\"name\":\"ExitPlanMode\",\"input\":{\"plan\":\"Step 1\"}}\n";
    assert_eq!(plan_from_output(out), s("Step 1"));
}

#[test]
fn test_plan_from_message_content() {
    let out = "{\"type\":\"assistant\",\"message\":{\"content\":[{\"type\":\"text\",\"text\":\"hi\"},{\"type\":\"tool_use\",\"name\":\"ExitPlanMode\",\"input\":{\"plan\":\"Nested plan\"}}]}}";
    assert_eq!(plan_from_output(out), s("Nested plan"));
}

#[test]
fn test_latest_plan_wins() {
    let out = "{\"type\":\"tool_use\",\"name\":\"ExitPlanMode\",\"input\":{\"plan\":\"old\"}}\r\n{\"type\":\"tool_use\",\"name\":\"ExitPlanMode\",\"input\":{\"plan\":\"new\"}}\n{\"type\":\"result\"}";
    assert_eq!(plan_from_output(out), s("new"));
}

#[test]
fn test_no_plan() {
    assert_eq!(plan_from_output(""), None);
    assert_eq!(plan_from_output("ExitPlanMode mentioned in plain text\n"), None);
    assert_eq!(plan_from_output("{\"type\":\"tool_use\",\"name\":\"ExitPlanMode\",\"input\":{}}"), None);
    assert_eq!(plan_from_output("{\"type\":\"tool_use\",\"name\":\"Other\",\"input\":{\"plan\":\"x\"}}"), None);
}

#[test]
fn test_plan_from_tool_uses_first_match() {
    let uses = vec![
        (s("tool_use"), s("ExitPlanMode"), None),
        (s("tool_use"), s("Bash"), s("not a plan")),
        (s("tool_use"), s("ExitPlanMode"), s("first")),
        (s("tool_use"), s("ExitPlanMode"), s("second")),
    ];
    assert_eq!(plan_from_tool_uses(&uses), s("first"));
    assert_eq!(plan_from_tool_uses(&Vec::new()), None);
}

#[test]
fn test_result_errors_last_reporting_line() {
    let out = "{\"type\":\"result\",\"errors\":[\"old failure\"]}\n{\"type\":\"result\",\"errors\":[\"rate limit hit\",42,\"second\"],\"error\":\"fatal\"}\n{\"type\":\"result\",\"subtype\":\"success\"}\n";
    assert_eq!(
        result_errors_from_output(out),
        vec!["rate limit hit".to_string(), "second".to_string(), "fatal".to_string()]
    );
}

#[test]
fn test_result_errors_none() {
    assert!(result_errors_from_output("").is_empty());
    assert!(result_errors_from_output("{\"type\":\"assistant\",\"error\":\"ignored\"}").is_empty());
    assert!(result_errors_from_output("\"result\" but not json").is_empty());
}

#[test]
fn test_errors_from_result_fields() {
    let items = Some(vec![s("a"), None, s("b")]);
    assert_eq!(errors_from_result_fields(&items, &s("c")), vec!["a".to_string(), "b".to_string(), "c".to_string()]);
    assert!(errors_from_result_fields(&None, &None).is_empty());
}
