use wickeban_core::text::{find_json_object_start, truncate_to_char_boundary};

#[test]
fn test_truncate_to_char_boundary() {
    let input = "a".repeat(10);
    assert_eq!(truncate_to_char_boundary(&input, 7), "a".repeat(7));

    let input = "hello world";
    assert_eq!(truncate_to_char_boundary(input, input.len()), input);

    let input = "🔥🔥🔥"; // each fire emoji is 4 bytes
    assert_eq!(truncate_to_char_boundary(input, 5), "🔥");
    assert_eq!(truncate_to_char_boundary(input, 3), "");
}

#[test]
fn test_find_json_object_start() {
    let s = "some text {\"key\": \"value\"}";
    let result = find_json_object_start(s);
    assert!(result.is_some());
    assert!(result.unwrap().starts_with('{'));
}

#[test]
fn test_find_json_object_start_with_url_braces() {
    let s = "Route {event}/path\n{\"key\": \"value\"}";
    let result = find_json_object_start(s);
    assert!(result.is_some());
    assert_eq!(result.unwrap(), "{\"key\": \"value\"}");
}

#[test]
fn truncate_mid_character_backs_off_to_boundary() {
    let input = "aé"; // 'é' is two bytes
    assert_eq!(truncate_to_char_boundary(input, 2), "a");
    assert_eq!(truncate_to_char_boundary(input, 0), "");
}

#[test]
fn find_json_object_start_whitespace_before_key() {
    let s = "x { \n \"a\": 1 } tail";
    assert_eq!(find_json_object_start(s), Some("{ \n \"a\": 1 }"));
}

#[test]
fn find_json_object_start_none_without_close_or_key() {
    assert_eq!(find_json_object_start("{\"a\": 1"), None);
    assert_eq!(find_json_object_start("{a} {b}"), None);
}

const SPEC_JSON: &str = "{ \"overview\": \"Test\", \"requirements\": [], \"acceptance_criteria\": [], \"constraints\": [], \"tech_notes\": \"\" }";

#[test]
fn json_payload_of_clean_json_is_the_text() {
    assert!(wickeban_core::text::json_payload_is_defined(SPEC_JSON));
    assert_eq!(wickeban_core::text::extract_json_payload(SPEC_JSON), SPEC_JSON);
}

#[test]
fn json_payload_strips_markdown_fences() {
    let output = format!("```json\n{SPEC_JSON}\n```");
    assert_eq!(wickeban_core::text::extract_json_payload(&output), SPEC_JSON);
    let plain = format!("```\n{SPEC_JSON}\n```");
    assert_eq!(wickeban_core::text::extract_json_payload(&plain), SPEC_JSON);
}

#[test]
fn json_payload_cuts_surrounding_text() {
    let output = format!("Here is the spec:\n{SPEC_JSON}\nDone!");
    assert_eq!(wickeban_core::text::extract_json_payload(&output), SPEC_JSON);
}

#[test]
fn json_payload_skips_url_braces() {
    let json = "{\"overview\": \"Test\", \"requirements\": [], \"acceptance_criteria\": [], \"constraints\": [], \"tech_notes\": \"\"}";
    let output = format!("Route `{{event}}/trade-stats` needs naming.\n{json}");
    assert_eq!(wickeban_core::text::extract_json_payload(&output), json);
}

#[test]
fn json_payload_of_plain_text_is_the_text() {
    assert_eq!(wickeban_core::text::extract_json_payload("not json at all"), "not json at all");
}

#[test]
fn json_payload_undefined_when_start_follows_last_brace() {
    assert!(!wickeban_core::text::json_payload_is_defined("x } then { \"k\": 1"));
}
