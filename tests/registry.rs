use terris::registry::{
    default_worktree_path, random_suffix, registry_base_dir, worktree_path_with_suffix, ConfigError,
};

fn suffix_of<'a>(path: &'a str, base: &str) -> &'a str {
    path.strip_prefix(base).unwrap()
}

#[test]
fn default_worktree_path_uses_home_registry_and_suffix() {
    let temp_home = "/tmp/terris-tests-home";
    let path = default_worktree_path(Some(temp_home), "repo", "branch").ok().unwrap();
    let base = "/tmp/terris-tests-home/.terris-worktrees/repo/";
    assert!(path.starts_with(base));

    let file_name = suffix_of(&path, base);
    let suffix = file_name.strip_prefix("branch-").unwrap();
    assert_eq!(suffix.len(), 8);
    assert!(suffix.chars().all(|c| c.is_ascii_lowercase()));
}

#[test]
fn two_allocations_differ() {
    let a = default_worktree_path(Some("/root"), "myrepo", "feature").ok().unwrap();
    let b = default_worktree_path(Some("/root"), "myrepo", "feature").ok().unwrap();
    for p in [&a, &b] {
        let s = suffix_of(p, "/root/.terris-worktrees/myrepo/feature-");
        assert_eq!(s.len(), 8);
        assert!(s.chars().all(|c| c.is_ascii_lowercase()));
    }
    assert_ne!(a, b);
}

#[test]
fn missing_home_is_a_config_error() {
    assert!(matches!(default_worktree_path(None, "r", "b"), Err(ConfigError::HomeNotSet)));
    assert!(matches!(registry_base_dir(None), Err(ConfigError::HomeNotSet)));
    assert_eq!(ConfigError::HomeNotSet.message(), "HOME is not set");
}

#[test]
fn registry_dir_and_exact_path() {
    assert_eq!(registry_base_dir(Some("/home/u")).ok().unwrap(), "/home/u/.terris-worktrees");
    assert_eq!(registry_base_dir(Some("/home/u/")).ok().unwrap(), "/home/u/.terris-worktrees");
    assert_eq!(
        worktree_path_with_suffix("/home/u", "proj", "topic", "abcdefgh"),
        "/home/u/.terris-worktrees/proj/topic-abcdefgh"
    );
}

#[test]
fn random_suffix_has_requested_length() {
    assert_eq!(random_suffix(0), "");
    let s = random_suffix(32);
    assert_eq!(s.chars().count(), 32);
    assert!(s.chars().all(|c| c.is_ascii_lowercase()));
}
