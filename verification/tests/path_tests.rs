use std::path::{Path, PathBuf};

use tempfile::TempDir;
use wickeban_core::paths::{is_path_protected, is_path_under_known_bases};

fn s(p: &Path) -> String {
    p.to_str().unwrap().to_string()
}

fn under(dir: &Path, bases: &[PathBuf]) -> bool {
    let bases: Vec<String> = bases.iter().map(|b| s(b)).collect();
    is_path_under_known_bases(&s(dir), &bases)
}

fn protected(dir: &Path, repos: &[PathBuf], home: Option<&Path>) -> bool {
    let repos: Vec<String> = repos.iter().map(|b| s(b)).collect();
    let home = home.map(s);
    is_path_protected(&s(dir), &repos, home.as_deref())
}

#[test]
fn test_user_projects_dir_is_not_safe() {
    let user_home = TempDir::new().unwrap();
    let projects_dir = user_home.path().join("Projects");

    let known_bases = vec![PathBuf::from("/tmp/wickeban/worktrees")];
    assert!(
        !under(&projects_dir, &known_bases),
        "User's Projects directory must NEVER be considered a safe workspace path"
    );
}

#[test]
fn test_repo_parent_dir_is_not_safe() {
    let tmp = TempDir::new().unwrap();
    let projects_dir = tmp.path().join("Projects");
    let repo_dir = projects_dir.join("myapp");

    let worktree_base = tmp.path().join("myapp-worktrees");
    let known_bases = vec![worktree_base];

    assert!(
        !under(&projects_dir, &known_bases),
        "Repo parent directory must not be considered safe"
    );
}

#[test]
fn test_isolated_plan_workspace_is_safe() {
    let tmp = TempDir::new().unwrap();
    let worktree_base = tmp.path().join("myproject-worktrees");
    let plan_workspace = worktree_base.join("plan-abc123");

    let known_bases = vec![worktree_base];
    assert!(
        under(&plan_workspace, &known_bases),
        "Plan workspace inside worktree base should be safe"
    );
}

#[test]
fn test_regular_worktree_is_safe() {
    let tmp = TempDir::new().unwrap();
    let worktree_base = tmp.path().join("myproject-worktrees");
    let workspace = worktree_base.join("feature-login-a1b2c3");

    let known_bases = vec![worktree_base];
    assert!(under(&workspace, &known_bases));
}

#[test]
fn test_global_worktree_base_is_safe() {
    let tmp = TempDir::new().unwrap();
    let global_base = tmp.path().join("wickeban-worktrees");
    let workspace = global_base.join("workspace-123");

    let known_bases = vec![global_base];
    assert!(under(&workspace, &known_bases));
}

#[test]
fn test_empty_known_bases_rejects_everything() {
    let tmp = TempDir::new().unwrap();
    assert!(!under(tmp.path(), &[]));
}

#[test]
fn test_path_outside_all_bases_is_rejected() {
    let tmp = TempDir::new().unwrap();
    let unrelated_dir = tmp.path().join("unrelated");

    let known_bases = vec![
        tmp.path().join("project-worktrees"),
        tmp.path().join("other-worktrees"),
    ];
    assert!(
        !under(&unrelated_dir, &known_bases),
        "Path outside all known bases must be rejected"
    );
}

#[test]
fn test_worktree_base_itself_is_safe() {
    let tmp = TempDir::new().unwrap();
    let base = tmp.path().join("myproject-worktrees");

    let known_bases = vec![base.clone()];
    assert!(under(&base, &known_bases));
}

#[test]
fn test_partial_name_match_is_not_safe() {
    let tmp = TempDir::new().unwrap();
    let base = tmp.path().join("myproject-worktrees");
    let evil_dir = tmp.path().join("myproject-worktrees-evil");

    let known_bases = vec![base];
    assert!(
        !under(&evil_dir, &known_bases),
        "Partial directory name match must not be considered safe"
    );
}

#[test]
fn test_multiple_bases_any_match_is_safe() {
    let tmp = TempDir::new().unwrap();
    let base_a = tmp.path().join("project-a-worktrees");
    let base_b = tmp.path().join("project-b-worktrees");
    let workspace = base_b.join("plan-xyz");

    let known_bases = vec![base_a, base_b];
    assert!(
        under(&workspace, &known_bases),
        "Path matching any known base should be safe"
    );
}

#[test]
fn test_home_directory_is_protected() {
    let home = TempDir::new().unwrap();
    assert!(
        protected(home.path(), &[], Some(home.path())),
        "Home directory must always be protected"
    );
}

#[test]
fn test_desktop_projects_is_protected() {
    let home = TempDir::new().unwrap();
    let desktop_projects = home.path().join("Desktop").join("Projects");
    assert!(
        protected(&desktop_projects, &[], Some(home.path())),
        "~/Desktop/Projects must always be protected"
    );
}

#[test]
fn test_well_known_home_subdirs_are_protected() {
    let home = TempDir::new().unwrap();
    for subdir in &["Desktop", "Documents", "Downloads", "Projects", "Developer"] {
        let path = home.path().join(subdir);
        assert!(
            protected(&path, &[], Some(home.path())),
            "~/{subdir} must be protected"
        );
    }
}

#[test]
fn test_repo_directory_is_protected() {
    let tmp = TempDir::new().unwrap();
    let repo = tmp.path().join("Projects").join("maisonneptune");

    let repo_paths = vec![repo.clone()];
    assert!(
        protected(&repo, &repo_paths, None),
        "A project repo directory must be protected"
    );
}

#[test]
fn test_parent_of_repo_is_protected() {
    let tmp = TempDir::new().unwrap();
    let projects_dir = tmp.path().join("Desktop").join("Projects");
    let repo = projects_dir.join("maisonneptune");

    let repo_paths = vec![repo];
    assert!(
        protected(&projects_dir, &repo_paths, None),
        "Parent directory of a repo must be protected"
    );
}

#[test]
fn test_grandparent_of_repo_is_protected() {
    let tmp = TempDir::new().unwrap();
    let desktop = tmp.path().join("Desktop");
    let repo = desktop.join("Projects").join("myapp");

    let repo_paths = vec![repo];
    assert!(
        protected(&desktop, &repo_paths, None),
        "Grandparent directory of a repo must be protected"
    );
}

#[test]
fn test_worktree_dir_is_not_protected() {
    let tmp = TempDir::new().unwrap();
    let repo = tmp.path().join("Projects").join("myapp");
    let worktree = tmp.path().join("myapp-worktrees").join("plan-abc123");

    let repo_paths = vec![repo];
    assert!(
        !protected(&worktree, &repo_paths, None),
        "Worktree directories must NOT be on the deny-list"
    );
}

#[test]
fn test_sibling_of_repo_is_not_protected() {
    let tmp = TempDir::new().unwrap();
    let repo = tmp.path().join("Projects").join("myapp");
    let sibling = tmp.path().join("Projects").join("myapp-worktrees").join("plan-123");

    let repo_paths = vec![repo];
    assert!(
        !protected(&sibling, &repo_paths, None),
        "Sibling worktree directory of a repo is not protected"
    );
}

#[test]
fn test_child_of_repo_is_not_protected_by_denylist() {
    let tmp = TempDir::new().unwrap();
    let repo = tmp.path().join("myapp");
    let child = repo.join("src");

    let repo_paths = vec![repo];
    assert!(
        !protected(&child, &repo_paths, None),
        "Subdirectory of a repo is handled by allow-list, not deny-list"
    );
}

#[test]
fn test_multiple_repos_all_parents_protected() {
    let tmp = TempDir::new().unwrap();
    let projects_dir = tmp.path().join("Projects");
    let repo_a = projects_dir.join("app-a");
    let repo_b = projects_dir.join("app-b");

    let repo_paths = vec![repo_a, repo_b];
    assert!(
        protected(&projects_dir, &repo_paths, None),
        "Shared parent of multiple repos must be protected"
    );
}

#[test]
fn test_regression_desktop_projects_with_repo_is_protected() {
    let tmp = TempDir::new().unwrap();
    let desktop_projects = tmp.path().join("Desktop").join("Projects");
    let maisonneptune = desktop_projects.join("maisonneptune");

    let repo_paths = vec![maisonneptune.clone()];

    assert!(
        protected(&desktop_projects, &repo_paths, None),
        "~/Desktop/Projects must be protected when it contains repos"
    );
    assert!(
        protected(&maisonneptune, &repo_paths, None),
        "The repo directory itself must be protected"
    );
}


#[test]
fn nested_projects_under_other_home_subdirs_are_protected() {
    assert!(is_path_protected("/home/u/Documents/Projects", &vec![], Some("/home/u")));
    assert!(is_path_protected("/home/u/code", &vec![], Some("/home/u")));
    assert!(!is_path_protected("/home/u/code/app", &vec![], Some("/home/u")));
    assert!(!is_path_protected("/home/u/Desktop", &vec![], None));
}
