//! The git invocations behind the `create` and `delete` commands, decided
//! from plain values.

use vstd::prelude::*;
use crate::paths::{file_name_of, join_path, path_file_name, resolve_path};
use crate::registry::{default_worktree_path, is_suffix, worktree_path, ConfigError, SUFFIX_LEN};
use crate::resolve::{candidates, resolution, resolve_worktree, views, ResolveError};
use crate::worktree::Worktree;
use crate::worktree::opt_view;

verus! {

/// Why a worktree cannot be created as asked.
pub enum CreateError {
    /// A start point was given for a branch that already exists.
    StartPointForExistingBranch { branch: String },
}

impl CreateError {
    /// A one-line description of the error.
    pub fn message(&self) -> (r: String)
        ensures
            match self {
                CreateError::StartPointForExistingBranch { branch } => r@ == "branch '"@ + branch@
                    + "' already exists; --from is only for new branches"@,
            },
    {
        match self {
            CreateError::StartPointForExistingBranch { branch } => {
                let mut m = String::from_str("branch '");
                m.append(branch.as_str());
                m.append("' already exists; --from is only for new branches");
                m
            },
        }
    }
}

/// The arguments of `git worktree add` that create a worktree at `path` on
/// `branch`: an existing branch is checked out; a new one is created with
/// `-b`, from `from` when it is given.
pub open spec fn add_args(
    branch: Seq<char>,
    exists: bool,
    path: Seq<char>,
    from: Option<Seq<char>>,
) -> Seq<Seq<char>> {
    seq!["worktree"@, "add"@] + (if exists {
        Seq::empty()
    } else {
        seq!["-b"@, branch]
    }) + seq![path] + (if exists {
        seq![branch]
    } else {
        match from {
            Some(f) => seq![f],
            None => Seq::empty(),
        }
    })
}

/// The arguments of `git worktree add` for a worktree at `target_path` on
/// `branch`, or `StartPointForExistingBranch` when `from` is given for a
/// branch that exists.
pub fn worktree_add_args(
    branch: &str,
    branch_exists: bool,
    target_path: &str,
    from: Option<String>,
) -> (r: Result<Vec<String>, CreateError>)
    ensures
        branch_exists && from is Some ==> (r matches Err(
            CreateError::StartPointForExistingBranch { branch: b },
        ) && b@ == branch@),
        !(branch_exists && from is Some) ==> (r matches Ok(args) && views(args@) == add_args(
            branch@,
            branch_exists,
            target_path@,
            opt_view(from),
        )),
{
    if branch_exists && from.is_some() {
        return Err(CreateError::StartPointForExistingBranch { branch: String::from_str(branch) });
    }
    let mut args: Vec<String> = Vec::new();
    args.push(String::from_str("worktree"));
    args.push(String::from_str("add"));
    let ghost mut expect: Seq<Seq<char>> = seq!["worktree"@, "add"@];
    if !branch_exists {
        args.push(String::from_str("-b"));
        args.push(String::from_str(branch));
        proof {
            expect = expect + seq!["-b"@, branch@];
        }
    }
    args.push(String::from_str(target_path));
    proof {
        expect = expect + seq![target_path@];
    }
    if branch_exists {
        args.push(String::from_str(branch));
        proof {
            expect = expect + seq![branch@];
        }
    } else {
        match from {
            Some(start) => {
                args.push(start);
                proof {
                    expect = expect + seq![start@];
                }
            },
            None => {},
        }
    }
    assert(views(args@) =~= expect);
    assert(expect =~= add_args(branch@, branch_exists, target_path@, opt_view(from)));
    Ok(args)
}

/// The arguments of `git worktree remove` for the worktree at `path`.
pub open spec fn remove_args(path: Seq<char>, force: bool) -> Seq<Seq<char>> {
    seq!["worktree"@, "remove"@] + (if force {
        seq!["--force"@]
    } else {
        Seq::empty()
    }) + seq![path]
}

/// The arguments of `git worktree remove` for the worktree at `path`, with
/// `--force` when `force` is set.
pub fn worktree_remove_args(path: &str, force: bool) -> (r: Vec<String>)
    ensures
        views(r@) == remove_args(path@, force),
{
    let mut args: Vec<String> = Vec::new();
    args.push(String::from_str("worktree"));
    args.push(String::from_str("remove"));
    if force {
        args.push(String::from_str("--force"));
    }
    args.push(String::from_str(path));
    assert(views(args@) =~= remove_args(path@, force));
    args
}

/// The arguments of `git worktree remove` for the worktree that `target`
/// names among `worktrees` (see `resolve_worktree` for `target_norm` and
/// `path_norms`), or the error that says why it names no single one.
pub fn cmd_delete(
    target: &str,
    worktrees: &Vec<Worktree>,
    target_norm: &str,
    path_norms: &Vec<String>,
    force: bool,
) -> (r: Result<Vec<String>, ResolveError>)
    requires
        path_norms@.len() == worktrees@.len(),
    ensures
        ({
            let c = candidates(target@, worktrees@, target_norm@, views(path_norms@));
            &&& c.len() == 1 ==> (r matches Ok(args) && views(args@) == remove_args(
                c[0].path@,
                force,
            ))
            &&& c.len() != 1 ==> (r matches Err(e) && resolution(target@, c, Err(e)))
        }),
{
    match resolve_worktree(target, worktrees, target_norm, path_norms) {
        Ok(wt) => Ok(worktree_remove_args(wt.path.as_str(), force)),
        Err(e) => Err(e),
    }
}

/// The path of the worktree that `target` names among `worktrees` (see
/// `resolve_worktree` for `target_norm` and `path_norms`), or the error that
/// says why it names no single one.
pub fn cmd_path(
    target: &str,
    worktrees: &Vec<Worktree>,
    target_norm: &str,
    path_norms: &Vec<String>,
) -> (r: Result<String, ResolveError>)
    requires
        path_norms@.len() == worktrees@.len(),
    ensures
        ({
            let c = candidates(target@, worktrees@, target_norm@, views(path_norms@));
            &&& c.len() == 1 ==> (r matches Ok(p) && p@ == c[0].path@)
            &&& c.len() != 1 ==> (r matches Err(e) && resolution(target@, c, Err(e)))
        }),
{
    match resolve_worktree(target, worktrees, target_norm, path_norms) {
        Ok(wt) => Ok(wt.path.clone()),
        Err(e) => Err(e),
    }
}

/// The branch of a new worktree named `name`: `branch` when it is given,
/// else the name itself.
pub fn create_branch_name(name: &str, branch: Option<String>) -> (r: String)
    ensures
        r@ == match opt_view(branch) {
            Some(b) => b,
            None => name@,
        },
{
    match branch {
        Some(b) => b,
        None => String::from_str(name),
    }
}

/// The path of a new worktree of `repo_name` on `branch`: `path` resolved
/// against `cwd` when it is given, else a fresh default path under the
/// registry directory of `home` (`HomeNotSet` when that is not known).
pub fn create_target_path(
    cwd: &str,
    path: Option<&str>,
    home: Option<&str>,
    repo_name: &str,
    branch: &str,
) -> (r: Result<String, ConfigError>)
    ensures
        match path {
            Some(p) => r matches Ok(t) && t@ == join_path(cwd@, p@),
            None => match home {
                Some(h) => r matches Ok(t) && exists|s: Seq<char>|
                    is_suffix(s, SUFFIX_LEN as nat) && t@ == worktree_path(
                        h@,
                        repo_name@,
                        branch@,
                        s,
                    ),
                None => r matches Err(ConfigError::HomeNotSet),
            },
        },
{
    match path {
        Some(p) => Ok(resolve_path(cwd, p)),
        None => default_worktree_path(home, repo_name, branch),
    }
}

/// The full reference of the local branch `branch`.
pub fn branch_ref(branch: &str) -> (r: String)
    ensures
        r@ == "refs/heads/"@ + branch@,
{
    let mut r = String::from_str("refs/heads/");
    r.append(branch);
    r
}

/// The repository's name, given the final component of its root: that
/// component, or `repo` when there is none.
pub fn repo_name_from(file_name: Option<String>) -> (r: String)
    ensures
        r@ == match opt_view(file_name) {
            Some(n) => n,
            None => "repo"@,
        },
{
    match file_name {
        Some(n) => n,
        None => String::from_str("repo"),
    }
}

/// The name of the repository whose root is `root`: the final component of
/// the root, or `repo` when there is none.
pub fn repo_name(root: &str) -> (r: String)
    ensures
        r@ == match file_name_of(root@) {
            Some(n) => n,
            None => "repo"@,
        },
{
    repo_name_from(path_file_name(root))
}

} // verus!
