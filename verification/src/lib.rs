//! croft: a dev-loop wrapper that adapts to your project.
//!
//! Each module decides; none of them touches a terminal, a process, the
//! network or the file system. The `app/` crate around this library reads and
//! writes, hands plain values in and carries out what comes back.
//!
//! - [`text`], [`textmap`], [`lists`], [`paths`], [`durations`], [`clock`]: strings,
//!   ordered maps, lists, paths and time.
//! - [`globs`], [`regexes`], [`shell`], [`tomldoc`]: globs, regular expressions,
//!   shell words and TOML documents.
//! - [`config`]: the project's configuration and its validation.
//! - [`agents`]: agent files from upstream repositories.
//! - [`cache`]: clones of repositories.
//! - [`hooks`]: git hooks.
//! - [`container`]: services and the devcontainer.
//! - [`init`], [`install`]: the first configuration, and setting a project up.
//! - [`cli`], [`worktree`]: commands, and the identity of worktrees.
//! - [`tui`]: the dashboard.

pub mod agents;
pub mod cache;
pub mod cli;
pub mod clock;
pub mod config;
pub mod container;
pub mod durations;
pub mod globs;
pub mod hooks;
pub mod init;
pub mod install;
pub mod lists;
pub mod paths;
pub mod regexes;
pub mod shell;
pub mod text;
pub mod textmap;
pub mod tomldoc;
pub mod tui;
pub mod worktree;
