//! The worktree record and its mathematical model.

use vstd::prelude::*;

verus! {

/// One checkout listed by `git worktree list --porcelain`.
#[derive(Clone, Debug)]
pub struct Worktree {
    pub path: String,
    pub head: Option<String>,
    pub branch: Option<String>,
    pub detached: bool,
    pub locked: bool,
    pub prunable: Option<String>,
}

/// What a record holds, with its strings seen as character sequences.
pub struct WorktreeModel {
    pub path: Seq<char>,
    pub head: Option<Seq<char>>,
    pub branch: Option<Seq<char>>,
    pub detached: bool,
    pub locked: bool,
    pub prunable: Option<Seq<char>>,
}

/// The characters of an optional string.
pub open spec fn opt_view(o: Option<String>) -> Option<Seq<char>> {
    match o {
        Some(s) => Some(s@),
        None => None,
    }
}

impl View for Worktree {
    type V = WorktreeModel;

    open spec fn view(&self) -> WorktreeModel {
        WorktreeModel {
            path: self.path@,
            head: opt_view(self.head),
            branch: opt_view(self.branch),
            detached: self.detached,
            locked: self.locked,
            prunable: opt_view(self.prunable),
        }
    }
}

/// A fresh record at `path`, with no other field set.
pub open spec fn fresh_model(path: Seq<char>) -> WorktreeModel {
    WorktreeModel {
        path,
        head: None,
        branch: None,
        detached: false,
        locked: false,
        prunable: None,
    }
}

/// The models of a sequence of records.
pub open spec fn models(ws: Seq<Worktree>) -> Seq<WorktreeModel> {
    ws.map_values(|w: Worktree| w@)
}

impl Worktree {
    /// A record at `path` with no head, no branch and no flag set.
    pub fn new(path: String) -> (r: Worktree)
        ensures
            r@ == fresh_model(path@),
    {
        Worktree { path, head: None, branch: None, detached: false, locked: false, prunable: None }
    }
}

impl Default for Worktree {
    fn default() -> (r: Worktree)
        ensures
            r@ == fresh_model(Seq::empty()),
    {
        Worktree::new(String::new())
    }
}

} // verus!
