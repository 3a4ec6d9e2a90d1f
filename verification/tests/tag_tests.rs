use wickeban_core::tags::{expand_tags, mentions_tags, tag_replacement};

fn tags() -> Vec<(String, String)> {
    vec![
        ("api".to_string(), "Use the REST API".to_string()),
        ("db".to_string(), "PostgreSQL 15".to_string()),
    ]
}

#[test]
fn test_mentions_tags() {
    assert!(mentions_tags("see @api for details"));
    assert!(!mentions_tags("no references here"));
    assert!(!mentions_tags("a lone @ sign"));
    assert!(!mentions_tags("double @@ sign"));
}

#[test]
fn test_expand_known_tags() {
    let out = expand_tags("Build with @api on @db.", &tags());
    assert_eq!(out, "Build with Use the REST API on @db.");
}

#[test]
fn test_expand_longest_name() {
    let out = expand_tags("@db and @api", &tags());
    assert_eq!(out, "PostgreSQL 15 and Use the REST API");
}

#[test]
fn test_unknown_tags_kept() {
    let out = expand_tags("ask @someone about @api", &tags());
    assert_eq!(out, "ask @someone about Use the REST API");
    let none: Vec<(String, String)> = Vec::new();
    assert_eq!(expand_tags("ask @someone", &none), "ask @someone");
}

#[test]
fn test_no_refs_unchanged() {
    assert_eq!(expand_tags("plain text, e-mail at x", &tags()), "plain text, e-mail at x");
}

#[test]
fn test_tag_replacement_last_wins() {
    let mut t = tags();
    t.push(("api".to_string(), "GraphQL".to_string()));
    assert_eq!(tag_replacement(&t, "api", "@api"), "GraphQL");
    assert_eq!(tag_replacement(&t, "web", "@web"), "@web");
}
