use uuid::Uuid;
use wickeban_core::mcp::{
    api_url, context_description, list_projects_response, list_task_items, list_tasks_response,
    resolve_create_fields, resolve_project_id, resolve_task_status, resolve_task_type, search_task_items,
    search_tasks_response, task_to_list_item, task_to_summary, ProjectSummary, TaskRecord,
};
use wickeban_core::status::{TaskStatus, TaskType};

fn record(title: &str, status: TaskStatus, parent: Option<Uuid>) -> TaskRecord {
    TaskRecord {
        id: format!("id-{title}"),
        title: title.to_string(),
        description: None,
        status,
        parent_task_id: parent,
        created_at: "2024-01-01T00:00:00+00:00".to_string(),
        updated_at: "2024-01-02T00:00:00+00:00".to_string(),
    }
}

#[test]
fn api_url_joins_with_one_slash() {
    assert_eq!(api_url("http://localhost:3000/", "/api/tasks"), "http://localhost:3000/api/tasks");
    assert_eq!(api_url("http://localhost:3000", "api/tasks"), "http://localhost:3000/api/tasks");
    assert_eq!(api_url("http://h///", "///x"), "http://h/x");
}

#[test]
fn task_status_names_resolve_exactly() {
    assert_eq!(resolve_task_status("inprogress").ok(), Some(TaskStatus::InProgress));
    assert_eq!(resolve_task_status("specreview").ok(), Some(TaskStatus::SpecReview));
    let err = resolve_task_status("InProgress").unwrap_err();
    assert_eq!(
        err,
        "Unknown status 'InProgress'. Valid statuses: backlog, idea, planning, plangenerating, specreview, ready, ralph, inprogress, qa, done, cancelled"
    );
}

#[test]
fn task_types_resolve_case_insensitively() {
    assert_eq!(resolve_task_type("EPIC").ok(), Some(TaskType::Epic));
    assert_eq!(resolve_task_type("Task").ok(), Some(TaskType::Task));
    assert_eq!(resolve_task_type("story").unwrap_err(), "Invalid task_type 'story'. Valid values: task, epic");
}

#[test]
fn new_task_status_defaults_by_type() {
    assert_eq!(resolve_create_fields(None, Some("epic")).ok(), Some((Some(TaskType::Epic), TaskStatus::Idea)));
    assert_eq!(resolve_create_fields(None, None).ok(), Some((None, TaskStatus::Backlog)));
    assert_eq!(resolve_create_fields(Some("qa"), Some("epic")).ok(), Some((Some(TaskType::Epic), TaskStatus::QA)));
    // an invalid type is reported before an invalid status
    assert!(resolve_create_fields(Some("nope"), Some("bad")).unwrap_err().starts_with("Invalid task_type"));
    assert!(resolve_create_fields(Some("nope"), None).unwrap_err().starts_with("Unknown status"));
}

#[test]
fn project_falls_back_to_workspace_context() {
    let a = Uuid::new_v4();
    let b = Uuid::new_v4();
    assert_eq!(resolve_project_id(Some(a), Some(b)).unwrap(), a);
    assert_eq!(resolve_project_id(None, Some(b)).unwrap(), b);
    assert_eq!(
        resolve_project_id(None, None).unwrap_err(),
        "project_id is required (not available from workspace context)"
    );
}

#[test]
fn context_description_formats_all_fields() {
    let d = context_description(
        Some("Crash on save"),
        Some("app"),
        Some("src/main.rs"),
        Some(42),
        Some("abc123"),
        Some("panicked at 'boom'"),
        Some("cargo run"),
    );
    assert_eq!(
        d,
        "Crash on save\n\n## Context\n- **Repository**: app\n- **File**: src/main.rs:42\n- **Git ref**: abc123\n- **Command**: `cargo run`\n\n## Error Output\n```\npanicked at 'boom'\n```\n"
    );
    assert_eq!(context_description(None, None, None, Some(7), None, None, None), "");
    assert_eq!(context_description(None, None, Some("f.rs"), None, None, None, None), "## Context\n- **File**: f.rs\n\n");
}

#[test]
fn summaries_name_the_status() {
    let mut t = record("Fix bug", TaskStatus::InProgress, None);
    t.description = Some("details".to_string());
    let s = task_to_summary(&t);
    assert_eq!(s.status, "inprogress");
    assert_eq!(s.description.as_deref(), Some("details"));
    let item = task_to_list_item(&t);
    assert_eq!(item.title, "Fix bug");
    assert_eq!(item.id, "id-Fix bug");
}

#[test]
fn listing_filters_by_parent_and_limits() {
    let p = Uuid::new_v4();
    let q = Uuid::new_v4();
    let tasks = vec![
        record("a", TaskStatus::Backlog, Some(p)),
        record("b", TaskStatus::Backlog, None),
        record("c", TaskStatus::Backlog, Some(p)),
        record("d", TaskStatus::Backlog, Some(q)),
        record("e", TaskStatus::Backlog, Some(p)),
    ];
    let titles = |v: Vec<wickeban_core::mcp::TaskListItem>| v.into_iter().map(|i| i.title).collect::<Vec<_>>();
    assert_eq!(titles(list_task_items(&tasks, Some(p), None)), vec!["a", "c", "e"]);
    assert_eq!(titles(list_task_items(&tasks, Some(p), Some(2))), vec!["a", "c"]);
    assert_eq!(titles(list_task_items(&tasks, None, Some(-3))), Vec::<String>::new());
    assert_eq!(list_task_items(&tasks, None, None).len(), 5);
    let r = list_tasks_response(&tasks, Some(q), None, "proj".to_string());
    assert_eq!(r.count, 1);
    assert_eq!(r.project_id, "proj");
}

#[test]
fn search_matches_titles_case_insensitively() {
    let tasks = vec![
        record("Login page", TaskStatus::Backlog, None),
        record("Signup", TaskStatus::Backlog, None),
        record("LOGIN API", TaskStatus::Done, None),
    ];
    let found = search_task_items(&tasks, "login", None);
    assert_eq!(found.iter().map(|i| i.title.as_str()).collect::<Vec<_>>(), vec!["Login page", "LOGIN API"]);
    assert_eq!(search_task_items(&tasks, "LOGIN", Some(1)).len(), 1);
    let r = search_tasks_response(&tasks, "sign".to_string(), None, "p".to_string());
    assert_eq!(r.count, 1);
    assert_eq!(r.query, "sign");
}

#[test]
fn project_listing_counts() {
    let projects = vec![
        ProjectSummary { id: "1".into(), name: "a".into(), created_at: "t".into(), updated_at: "t".into() },
        ProjectSummary { id: "2".into(), name: "b".into(), created_at: "t".into(), updated_at: "t".into() },
    ];
    let r = list_projects_response(projects);
    assert_eq!(r.count, 2);
    assert_eq!(r.projects[1].name, "b");
}

#[test]
fn test_task_to_prompt() {
    let mut t = record("Fix login", TaskStatus::Backlog, None);
    assert_eq!(t.to_prompt(), "Fix login");
    t.description = Some("   \n".to_string());
    assert_eq!(t.to_prompt(), "Fix login");
    t.description = Some("Session expires too early".to_string());
    assert_eq!(t.to_prompt(), "Fix login\n\nSession expires too early");
}
