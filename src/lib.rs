//! A registry of git worktrees: the porcelain listing parser, the resolver
//! that picks one worktree from a user-supplied target, and the allocation of
//! default worktree paths.

pub mod text;
pub mod worktree;
pub mod parse;
pub mod paths;
pub mod registry;
pub mod display;
pub mod command;
pub mod resolve;
