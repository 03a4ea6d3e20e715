//! What the subcommands decide.
pub mod ci;
pub mod shell;
pub mod watch;
pub mod worktree;
