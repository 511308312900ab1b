use terris::parse::parse_worktrees;

#[test]
fn parse_worktrees_parses_porcelain() {
    let input = "\
worktree /repo
HEAD 111111
branch refs/heads/main

worktree /repo/feature
HEAD 222222
detached
locked
prunable stale
";
    let worktrees = parse_worktrees(input);
    assert_eq!(worktrees.len(), 2);
    assert_eq!(worktrees[0].path, "/repo");
    assert_eq!(worktrees[0].head.as_deref(), Some("111111"));
    assert_eq!(worktrees[0].branch.as_deref(), Some("refs/heads/main"));
    assert!(!worktrees[0].detached);
    assert!(!worktrees[0].locked);
    assert!(worktrees[0].prunable.is_none());

    assert_eq!(worktrees[1].path, "/repo/feature");
    assert_eq!(worktrees[1].head.as_deref(), Some("222222"));
    assert!(worktrees[1].branch.is_none());
    assert!(worktrees[1].detached);
    assert!(worktrees[1].locked);
    assert_eq!(worktrees[1].prunable.as_deref(), Some("stale"));
}

#[test]
fn parse_two_stanza_example() {
    let input = "worktree /r\nHEAD aaa\nbranch refs/heads/main\n\nworktree /r/f\nHEAD bbb\ndetached\nlocked\nprunable stale\n";
    let w = parse_worktrees(input);
    assert_eq!(w.len(), 2);
    assert_eq!(w[0].path, "/r");
    assert_eq!(w[0].head.as_deref(), Some("aaa"));
    assert_eq!(w[0].branch.as_deref(), Some("refs/heads/main"));
    assert!(!w[0].detached);
    assert!(!w[0].locked);
    assert_eq!(w[0].prunable, None);
    assert_eq!(w[1].path, "/r/f");
    assert_eq!(w[1].head.as_deref(), Some("bbb"));
    assert_eq!(w[1].branch, None);
    assert!(w[1].detached);
    assert!(w[1].locked);
    assert_eq!(w[1].prunable.as_deref(), Some("stale"));
}

#[test]
fn parse_empty_and_markerless_input() {
    assert!(parse_worktrees("").is_empty());
    assert!(parse_worktrees("HEAD abc\nbranch refs/heads/x\ndetached\n").is_empty());
    assert!(parse_worktrees("\n\n\n").is_empty());
}

#[test]
fn parse_counts_one_record_per_marker_in_order() {
    let input = "worktree /a\n\nworktree /b\nworktree /c\nlocked\n\n\nworktree /d";
    let w = parse_worktrees(input);
    let paths: Vec<&str> = w.iter().map(|x| x.path.as_str()).collect();
    assert_eq!(paths, vec!["/a", "/b", "/c", "/d"]);
    assert!(w[2].locked);
    assert!(!w[1].locked);
    assert!(!w[3].locked);
}

#[test]
fn parse_ignores_lines_before_first_marker_and_unknown_lines() {
    let input = "locked\nbare\nworktree /x\nbare\nsomething else\nHEAD 1\n";
    let w = parse_worktrees(input);
    assert_eq!(w.len(), 1);
    assert_eq!(w[0].path, "/x");
    assert!(!w[0].locked);
    assert_eq!(w[0].head.as_deref(), Some("1"));
}

#[test]
fn parse_trims_values_and_keyword_lines() {
    let input = "worktree   /with space/p  \r\nHEAD  abc \r\nbranch refs/heads/dev\r\n  detached \r\n\tlocked\r\nprunable   gone away  \r\n";
    let w = parse_worktrees(input);
    assert_eq!(w.len(), 1);
    assert_eq!(w[0].path, "/with space/p");
    assert_eq!(w[0].head.as_deref(), Some("abc"));
    assert_eq!(w[0].branch.as_deref(), Some("refs/heads/dev"));
    assert!(w[0].detached);
    assert!(w[0].locked);
    assert_eq!(w[0].prunable.as_deref(), Some("gone away"));
}

#[test]
fn parse_detached_stanza_has_no_branch() {
    let w = parse_worktrees("worktree /a\nHEAD 1\ndetached\n\nworktree /b\nHEAD 2\nbranch refs/heads/b\n");
    assert_eq!(w.len(), 2);
    assert_eq!(w[0].branch, None);
    assert!(w[0].detached);
    assert_eq!(w[1].branch.as_deref(), Some("refs/heads/b"));
    assert!(!w[1].detached);
}

#[test]
fn parse_keeps_duplicate_paths() {
    let w = parse_worktrees("worktree /same\nworktree /same\n");
    assert_eq!(w.len(), 2);
    assert_eq!(w[0].path, w[1].path);
}

#[test]
fn parse_non_ascii_values() {
    let w = parse_worktrees("worktree /répertoire/ñ\nbranch refs/heads/été\n");
    assert_eq!(w[0].path, "/répertoire/ñ");
    assert_eq!(w[0].branch.as_deref(), Some("refs/heads/été"));
}

#[test]
fn last_branch_line_of_a_stanza_wins() {
    let w = parse_worktrees("worktree /a\nbranch refs/heads/one\nbranch  refs/heads/two \nworktree /b\n");
    assert_eq!(w.len(), 2);
    assert_eq!(w[0].branch.as_deref(), Some("refs/heads/two"));
    assert!(!w[0].detached);
    assert_eq!(w[1].branch, None);
}
