//! Services and the backends that run them.
pub mod devcontainer;
pub mod registry;

use crate::textmap::TextMap;
use vstd::prelude::*;

verus! {

/// What a backend says of a service.
#[derive(Debug, Clone, Copy, PartialEq, Eq, Structural)]
pub enum ServiceStatus {
    Running,
    Stopped,
    Missing,
}

/// Why a backend failed.
#[derive(Debug, PartialEq, Eq)]
pub enum BackendError {
    /// The backend said so.
    Reported(String),
    /// The backend's program is not installed.
    BinaryNotFound(String),
    /// Anything else, as text.
    Other(String),
}

/// How a command is run inside a container.
#[derive(Debug, PartialEq, Eq)]
pub struct ExecOptions {
    pub tty: bool,
    pub env: TextMap<String>,
    /// Absent: the container's own.
    pub workdir: Option<String>,
}

impl Default for ExecOptions {
    fn default() -> (res: Self)
        ensures
            !res.tty,
            res.env.keys().len() == 0,
            res.workdir is None,
    {
        ExecOptions { tty: false, env: TextMap::new(), workdir: None }
    }
}

} // verus!
