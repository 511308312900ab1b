use terris::command::{
    branch_ref, cmd_delete, cmd_path, create_branch_name, create_target_path, repo_name, worktree_add_args, worktree_remove_args, CreateError,
};
use terris::resolve::ResolveError;
use terris::worktree::Worktree;

fn strs(v: &[&str]) -> Vec<String> {
    v.iter().map(|s| s.to_string()).collect()
}

#[test]
fn add_args_for_new_branch() {
    let a = worktree_add_args("feat", false, "/w/feat", None).ok().unwrap();
    assert_eq!(a, strs(&["worktree", "add", "-b", "feat", "/w/feat"]));
    let a = worktree_add_args("feat", false, "/w/feat", Some("main".to_string())).ok().unwrap();
    assert_eq!(a, strs(&["worktree", "add", "-b", "feat", "/w/feat", "main"]));
}

#[test]
fn add_args_for_existing_branch() {
    let a = worktree_add_args("feat", true, "/w/feat", None).ok().unwrap();
    assert_eq!(a, strs(&["worktree", "add", "/w/feat", "feat"]));
    match worktree_add_args("feat", true, "/w/feat", Some("main".to_string())) {
        Err(e) => {
            assert!(matches!(&e, CreateError::StartPointForExistingBranch { branch } if branch == "feat"));
            assert_eq!(e.message(), "branch 'feat' already exists; --from is only for new branches");
        }
        Ok(_) => panic!("expected an error"),
    }
}

#[test]
fn remove_args() {
    assert_eq!(worktree_remove_args("/w/x", false), strs(&["worktree", "remove", "/w/x"]));
    assert_eq!(worktree_remove_args("/w/x", true), strs(&["worktree", "remove", "--force", "/w/x"]));
}

#[test]
fn refs_and_repo_names() {
    assert_eq!(branch_ref("dev"), "refs/heads/dev");
    assert_eq!(repo_name("/src/myrepo"), "myrepo");
    assert_eq!(repo_name("/"), "repo");
}

fn two_on_one_branch() -> Vec<Worktree> {
    vec![
        Worktree { branch: Some("refs/heads/dup".to_string()), ..Worktree::new("/w/a".to_string()) },
        Worktree { branch: Some("refs/heads/dup".to_string()), ..Worktree::new("/w/b".to_string()) },
    ]
}

#[test]
fn delete_resolves_then_builds_args() {
    let ws = two_on_one_branch();
    let norms: Vec<String> = ws.iter().map(|w| w.path.clone()).collect();
    let args = cmd_delete("b", &ws, "/cwd/b", &norms, true).ok().unwrap();
    assert_eq!(args, strs(&["worktree", "remove", "--force", "/w/b"]));
    assert!(matches!(cmd_delete("dup", &ws, "/cwd/dup", &norms, false), Err(ResolveError::Ambiguous { .. })));
    assert!(matches!(cmd_delete("none", &ws, "/cwd/none", &norms, false), Err(ResolveError::NotFound { .. })));
}

#[test]
fn path_command_resolves() {
    let ws = two_on_one_branch();
    let norms: Vec<String> = ws.iter().map(|w| w.path.clone()).collect();
    assert_eq!(cmd_path("/w/a", &ws, "/w/a", &norms).ok().unwrap(), "/w/a");
    assert!(cmd_path("dup", &ws, "/cwd/dup", &norms).is_err());
}

#[test]
fn create_decisions() {
    assert_eq!(create_branch_name("name", None), "name");
    assert_eq!(create_branch_name("name", Some("br".to_string())), "br");
    assert_eq!(create_target_path("/cwd", Some("sub/wt"), None, "r", "b").ok().unwrap(), "/cwd/sub/wt");
    assert_eq!(create_target_path("/cwd", Some("/abs/wt"), None, "r", "b").ok().unwrap(), "/abs/wt");
    assert!(create_target_path("/cwd", None, None, "r", "b").is_err());
    let p = create_target_path("/cwd", None, Some("/h"), "r", "b").ok().unwrap();
    let s = p.strip_prefix("/h/.terris-worktrees/r/b-").unwrap();
    assert_eq!(s.len(), 8);
    assert!(s.chars().all(|c| c.is_ascii_lowercase()));
}
