use terris::paths::{is_path_like_str, resolve_path};
use terris::resolve::{
    match_by_basename, match_by_branch, match_by_names, match_by_path, resolve_branch,
    resolve_with_names, resolve_worktree, worktree_branch_short, ResolveError,
};
use terris::worktree::Worktree;

fn wt(path: &str, branch: Option<&str>) -> Worktree {
    Worktree {
        path: path.to_string(),
        branch: branch.map(|b| b.to_string()),
        ..Worktree::default()
    }
}

fn norms(ws: &Vec<Worktree>) -> Vec<String> {
    ws.iter().map(|w| w.path.clone()).collect()
}

#[test]
fn resolve_worktree_matches_and_errors() {
    let wt1_path = "/tmp/terris-tests-resolve/one";
    let wt2_path = "/tmp/terris-tests-resolve/two";
    let worktrees = vec![wt(wt1_path, Some("refs/heads/alpha")), wt(wt2_path, Some("refs/heads/alpha"))];
    let n = norms(&worktrees);

    let by_path = resolve_worktree(wt1_path, &worktrees, wt1_path, &n).ok().unwrap();
    assert_eq!(by_path.path, wt1_path);

    let err = resolve_worktree("alpha", &worktrees, "/cwd/alpha", &n).err().unwrap();
    assert!(err.message().contains("ambiguous"));

    let err = resolve_worktree("missing", &worktrees, "/cwd/missing", &n).err().unwrap();
    assert!(err.message().contains("no worktree matches"));
}

#[test]
fn match_by_basename_and_branch() {
    let worktrees = vec![wt("/repo/alpha", Some("refs/heads/main")), wt("/repo/beta", Some("refs/heads/feature"))];
    let by_base = match_by_basename("beta", &worktrees);
    assert_eq!(by_base.len(), 1);
    assert_eq!(by_base[0].path, "/repo/beta");

    let by_branch = match_by_branch("main", &worktrees);
    assert_eq!(by_branch.len(), 1);
    assert_eq!(by_branch[0].path, "/repo/alpha");
}

#[test]
fn absolute_path_wins_over_basename_and_branch_collisions() {
    let worktrees = vec![
        wt("/x/feature", Some("refs/heads/one")),
        wt("/y/one", Some("refs/heads/feature")),
        wt("/z/other", Some("refs/heads/one")),
    ];
    let n = norms(&worktrees);
    let r = resolve_worktree("/y/one", &worktrees, "/y/one", &n).ok().unwrap();
    assert_eq!(r.path, "/y/one");
}

#[test]
fn path_stage_uses_normalized_forms() {
    let worktrees = vec![wt("/repo/link", None), wt("/repo/b", None)];
    let n = vec!["/real/target".to_string(), "/repo/b".to_string()];
    let r = resolve_worktree("./link", &worktrees, "/real/target", &n).ok().unwrap();
    assert_eq!(r.path, "/repo/link");
}

#[test]
fn path_stage_is_skipped_for_bare_names() {
    let worktrees = vec![wt("/repo/a", None)];
    let n = vec!["a".to_string()];
    assert!(match_by_path("a", &worktrees, "a", &n).is_empty());
    assert_eq!(match_by_path("/repo/a", &worktrees, "a", &n).len(), 1);
}

#[test]
fn shared_branch_is_ambiguous_listing_both_paths() {
    let worktrees = vec![
        wt("/p/one", Some("refs/heads/topic")),
        wt("/q/other", Some("refs/heads/main")),
        wt("/r/two", Some("refs/heads/topic")),
    ];
    let n = norms(&worktrees);
    match resolve_worktree("topic", &worktrees, "/cwd/topic", &n) {
        Err(ResolveError::Ambiguous { target, candidates }) => {
            assert_eq!(target, "topic");
            assert_eq!(candidates, vec!["/p/one".to_string(), "/r/two".to_string()]);
        }
        _ => panic!("expected an ambiguity"),
    }
    let msg = resolve_branch("topic", &worktrees).err().unwrap().message();
    assert_eq!(msg, "'topic' is ambiguous: /p/one, /r/two");
}

#[test]
fn unmatched_target_is_not_found() {
    let worktrees = vec![wt("/p/one", Some("refs/heads/main")), wt("/p/two", None)];
    let n = norms(&worktrees);
    match resolve_worktree("nothing", &worktrees, "/cwd/nothing", &n) {
        Err(ResolveError::NotFound { target }) => assert_eq!(target, "nothing"),
        _ => panic!("expected not found"),
    }
    let msg = resolve_worktree("nothing", &worktrees, "/cwd/nothing", &n).err().unwrap().message();
    assert_eq!(msg, "no worktree matches 'nothing'");
    assert!(resolve_worktree("x", &Vec::new(), "/x", &Vec::new()).is_err());
}

#[test]
fn basename_stage_wins_over_branch_stage() {
    let worktrees = vec![wt("/p/main", Some("refs/heads/other")), wt("/p/x", Some("refs/heads/main"))];
    let n = norms(&worktrees);
    let r = resolve_worktree("main", &worktrees, "/cwd/main", &n).ok().unwrap();
    assert_eq!(r.path, "/p/main");
}

#[test]
fn ambiguous_basename_does_not_fall_through_to_branch() {
    let worktrees = vec![
        wt("/a/same", None),
        wt("/b/same", None),
        wt("/c/x", Some("refs/heads/same")),
    ];
    let n = norms(&worktrees);
    match resolve_worktree("same", &worktrees, "/cwd/same", &n) {
        Err(ResolveError::Ambiguous { candidates, .. }) => {
            assert_eq!(candidates, vec!["/a/same".to_string(), "/b/same".to_string()])
        }
        _ => panic!("expected an ambiguity"),
    }
}

#[test]
fn detached_records_never_match_by_branch() {
    let worktrees = vec![wt("/a/x", None), wt("/a/y", Some("refs/heads/dev"))];
    assert!(match_by_branch("x", &worktrees).is_empty());
    let r = resolve_branch("dev", &worktrees).ok().unwrap();
    assert_eq!(r.path, "/a/y");
    assert!(resolve_branch("x", &worktrees).is_err());
}

#[test]
fn resolution_over_given_names() {
    let worktrees = vec![wt("/a/x", None), wt("/a/y", None)];
    let n = norms(&worktrees);
    let names = vec![Some("first".to_string()), None];
    let first = Some("first".to_string());
    assert_eq!(match_by_names(&first, &worktrees, &names).len(), 1);
    assert!(match_by_names(&None, &worktrees, &names).is_empty());
    let r = resolve_with_names("first", &worktrees, "/cwd/first", &n, &first, &names).ok().unwrap();
    assert_eq!(r.path, "/a/x");
    let y = Some("y".to_string());
    assert!(resolve_with_names("y", &worktrees, "/cwd/y", &n, &y, &names).is_err());
}

#[test]
fn basename_uses_final_component() {
    let worktrees = vec![wt("/repo/feature/", None), wt("/repo", None)];
    assert_eq!(match_by_basename("feature", &worktrees).len(), 1);
    assert_eq!(match_by_basename("repo", &worktrees).len(), 1);
    assert!(match_by_basename("/", &worktrees).is_empty());
}

#[test]
fn short_branch_strips_heads_namespace_only() {
    assert_eq!(worktree_branch_short(&wt("/a", Some("refs/heads/feature/x"))), Some("feature/x"));
    assert_eq!(worktree_branch_short(&wt("/a", Some("refs/remotes/o/m"))), Some("refs/remotes/o/m"));
    assert_eq!(worktree_branch_short(&wt("/a", None)), None);
}

#[test]
fn path_helpers() {
    assert!(is_path_like_str("/abs"));
    assert!(is_path_like_str("rel/dir"));
    assert!(!is_path_like_str("name"));
    assert_eq!(resolve_path("/cwd", "sub/dir"), "/cwd/sub/dir");
    assert_eq!(resolve_path("/cwd/", "x"), "/cwd/x");
    assert_eq!(resolve_path("/cwd", "/abs"), "/abs");
    assert_eq!(resolve_path("", "x"), "x");
}

#[test]
fn path_like_target_falls_back_to_its_final_component() {
    let worktrees = vec![wt("/r/feature", Some("refs/heads/other")), wt("/r/main", Some("refs/heads/feature"))];
    let n = norms(&worktrees);
    assert!(match_by_path("x/feature", &worktrees, "/cwd/x/feature", &n).is_empty());
    let by_base = match_by_basename("x/feature", &worktrees);
    assert_eq!(by_base.len(), 1);
    assert_eq!(by_base[0].path, "/r/feature");
    let r = resolve_worktree("x/feature", &worktrees, "/cwd/x/feature", &n).ok().unwrap();
    assert_eq!(r.path, "/r/feature");
    let r = resolve_worktree("/elsewhere/main/", &worktrees, "/elsewhere/main", &n).ok().unwrap();
    assert_eq!(r.path, "/r/main");
}
