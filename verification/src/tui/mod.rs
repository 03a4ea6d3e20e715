//! The dashboard: its state, its key map, and the text it shows.
//!
//! Nothing here touches a terminal, a process or the clock. The event loop hands
//! in keys, output lines and times, and carries out the effects that come back.
pub mod app;
pub mod diff;
pub mod gitdiff;
pub mod keys;
pub mod matcher;
pub mod modals;
pub mod palette;
pub mod panes;
pub mod runner;
pub mod scroll;
pub mod terminals;
pub mod ui;
pub mod view;
pub mod watchers;
pub mod services;
pub mod session;
pub mod worker;
pub mod worktrees;
