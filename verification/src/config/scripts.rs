//! Scripts found under the project's command directory.
use crate::textmap::TextMap;
use vstd::prelude::*;

verus! {

/// An executable script that the project offers next to its recipes.
#[derive(Debug, PartialEq, Eq)]
pub struct ScriptCommand {
    /// Where the script stands.
    pub path: String,
    pub desc: Option<String>,
    /// Service to run inside. Absent: the host.
    pub service: Option<String>,
    pub tty: bool,
    pub forward_args: bool,
    pub needs: Vec<String>,
    pub env: TextMap<String>,
}

} // verus!
