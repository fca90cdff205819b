//! Reading a Git repository's branches and worktrees into work items, and the
//! decisions made around the Git commands that change them.
pub mod branches;
pub mod checkout;
pub mod command;
pub mod commits;
pub mod deletion;
pub mod diff;
pub mod diff_view;
pub mod remote;
pub mod repository;
pub mod scanner;
pub mod ship_safety;
pub mod work_item;
pub mod worktree;
