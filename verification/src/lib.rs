//! A library for a `git worktree` helper: a per-repository configuration
//! store backed by a dedicated git-config file, and a hook runner that
//! reads command lists from that store and prepares them for execution.

pub mod cli;
pub mod errors;
pub mod hooks;
pub mod paths;
pub mod store;
