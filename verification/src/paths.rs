//! Path rules that keep workspace cleanup away from user directories.
use vstd::prelude::*;
use vstd::string::*;

verus! {

/// Result of std's `Path::starts_with`: `base` is a whole-component prefix of `path`.
pub uninterp spec fn path_starts_with(path: Seq<char>, base: Seq<char>) -> bool;

/// Result of std's `Path` equality: the two paths have the same components.
pub uninterp spec fn path_equal(a: Seq<char>, b: Seq<char>) -> bool;

/// Whether `base` is a component-wise prefix of `path` (`Path::starts_with`).
#[verifier::external_body]
pub(crate) fn path_has_prefix(path: &str, base: &str) -> (r: bool)
    ensures
        r == path_starts_with(path@, base@),
{
    std::path::Path::new(path).starts_with(base)
}

/// Whether two paths are equal component by component (`Path == Path`).
/// Equal paths have the same components, so each starts with the other
/// (`Path::starts_with` compares whole components).
#[verifier::external_body]
pub(crate) fn paths_equal(a: &str, b: &str) -> (r: bool)
    ensures
        r == path_equal(a@, b@),
        a@ == b@ ==> r,
        r ==> path_starts_with(a@, b@) && path_starts_with(b@, a@),
{
    std::path::Path::new(a) == std::path::Path::new(b)
}

/// The result of std's `Path::join` on the target the library is built for:
/// `comp` appended to `base` after the target's separator (`/` on Unix, `\` on
/// Windows), or `comp` in place of `base` when it is absolute there. The rules
/// differ between targets, so they are named here, not restated.
pub uninterp spec fn path_joined(base: Seq<char>, comp: Seq<char>) -> Seq<char>;

/// Joins a path component onto a base path with std's `Path::join`; the
/// joined path is made of the two UTF-8 texts, so `to_string_lossy` keeps it
/// as it is.
#[verifier::external_body]
pub(crate) fn join_path(base: &str, comp: &str) -> (r: String)
    ensures
        r@ == path_joined(base@, comp@),
{
    std::path::Path::new(base).join(comp).to_string_lossy().into_owned()
}

/// Whether the directory lies in (or is) one of the known worktree bases.
pub open spec fn under_known_bases(dir: Seq<char>, bases: Seq<String>) -> bool {
    exists|i: int| 0 <= i < bases.len() && path_starts_with(dir, (#[trigger] bases[i])@)
}

/// Whether a workspace directory is inside one of the known worktree base
/// directories, comparing whole path components.
pub fn is_path_under_known_bases(workspace_dir: &str, known_bases: &Vec<String>) -> (r: bool)
    ensures
        r == under_known_bases(workspace_dir@, known_bases@),
{
    let mut i: usize = 0;
    while i < known_bases.len()
        invariant
            i <= known_bases@.len(),
            forall|j: int| 0 <= j < i ==> !path_starts_with(workspace_dir@, (#[trigger] known_bases@[j])@),
        decreases known_bases@.len() - i,
    {
        if path_has_prefix(workspace_dir, known_bases[i].as_str()) {
            return true;
        }
        i = i + 1;
    }
    false
}

/// The well-known home subdirectories that are never deleted.
pub open spec fn protected_home_subdirs() -> Seq<Seq<char>> {
    seq![
        "Desktop"@,
        "Documents"@,
        "Downloads"@,
        "Projects"@,
        "Developer"@,
        "repos"@,
        "src"@,
        "code"@,
        "work"@,
    ]
}

/// The home directory, one of its well-known subdirectories, or such a
/// subdirectory's `Projects` folder.
pub open spec fn is_protected_home_path(dir: Seq<char>, home: Seq<char>) -> bool {
    ||| path_equal(dir, home)
    ||| exists|k: int|
        0 <= k < protected_home_subdirs().len() && (path_equal(
            dir,
            path_joined(home, #[trigger] protected_home_subdirs()[k]),
        ) || path_equal(dir, path_joined(path_joined(home, protected_home_subdirs()[k]), "Projects"@)))
}

/// A repository directory or one of its ancestors.
pub open spec fn is_repo_or_ancestor(dir: Seq<char>, repos: Seq<String>) -> bool {
    exists|i: int|
        0 <= i < repos.len() && (path_equal(dir, (#[trigger] repos[i])@) || path_starts_with(repos[i]@, dir))
}

/// The deny-list: paths that must never be deleted.
pub open spec fn path_protected(dir: Seq<char>, repos: Seq<String>, home: Option<Seq<char>>) -> bool {
    (home matches Some(h) && is_protected_home_path(dir, h)) || is_repo_or_ancestor(dir, repos)
}

fn home_subdir(k: usize) -> (r: &'static str)
    requires
        k < 9,
    ensures
        r@ == protected_home_subdirs()[k as int],
{
    if k == 0 { "Desktop" } else if k == 1 { "Documents" } else if k == 2 { "Downloads" } else if k == 3 {
        "Projects"
    } else if k == 4 { "Developer" } else if k == 5 { "repos" } else if k == 6 { "src" } else if k == 7 {
        "code"
    } else { "work" }
}

/// Whether a path is on the deny-list: the home directory (when known) and its
/// well-known subdirectories and their `Projects` folders, every repository
/// directory, and every ancestor of a repository directory.
pub fn is_path_protected(workspace_dir: &str, repo_paths: &Vec<String>, home: Option<&str>) -> (r: bool)
    ensures
        r == path_protected(
            workspace_dir@,
            repo_paths@,
            match home {
                Some(h) => Some(h@),
                None => None,
            },
        ),
{
    if let Some(h) = home {
        if paths_equal(workspace_dir, h) {
            return true;
        }
        let mut k: usize = 0;
        while k < 9
            invariant
                k <= 9,
                home == Some(h),
                forall|j: int|
                    0 <= j < k ==> !path_equal(
                        workspace_dir@,
                        path_joined(h@, #[trigger] protected_home_subdirs()[j]),
                    ) && !path_equal(workspace_dir@, path_joined(path_joined(h@, protected_home_subdirs()[j]), "Projects"@)),
            decreases 9 - k,
        {
            let sub = home_subdir(k);
            let protected = join_path(h, sub);
            if paths_equal(workspace_dir, protected.as_str()) {
                assert(is_protected_home_path(workspace_dir@, h@)) by {
                    assert(0 <= k < protected_home_subdirs().len());
                }
                return true;
            }
            let nested = join_path(protected.as_str(), "Projects");
            if paths_equal(workspace_dir, nested.as_str()) {
                assert(is_protected_home_path(workspace_dir@, h@)) by {
                    assert(0 <= k < protected_home_subdirs().len());
                }
                return true;
            }
            k = k + 1;
        }
        assert(!is_protected_home_path(workspace_dir@, h@)) by {
            assert(protected_home_subdirs().len() == 9);
        }
    }
    let mut i: usize = 0;
    while i < repo_paths.len()
        invariant
            i <= repo_paths@.len(),
            forall|j: int|
                0 <= j < i ==> !path_equal(workspace_dir@, (#[trigger] repo_paths@[j])@) && !path_starts_with(
                    repo_paths@[j]@,
                    workspace_dir@,
                ),
        decreases repo_paths@.len() - i,
    {
        if paths_equal(workspace_dir, repo_paths[i].as_str()) {
            return true;
        }
        if path_has_prefix(repo_paths[i].as_str(), workspace_dir) {
            return true;
        }
        i = i + 1;
    }
    false
}

/// Every repository directory is protected, whatever the home directory.
pub proof fn lemma_repo_is_protected(repos: Seq<String>, i: int, home: Option<Seq<char>>)
    requires
        0 <= i < repos.len(),
        path_equal(repos[i]@, repos[i]@),
    ensures
        path_protected(repos[i]@, repos, home),
{
}

/// Adding known bases never makes a safe workspace directory unsafe.
pub proof fn lemma_known_bases_monotone(dir: Seq<char>, bases: Seq<String>, extra: String)
    requires
        under_known_bases(dir, bases),
    ensures
        under_known_bases(dir, bases.push(extra)),
{
    let i = choose|i: int| 0 <= i < bases.len() && path_starts_with(dir, (#[trigger] bases[i])@);
    assert(bases.push(extra)[i] == bases[i]);
}

} // verus!
