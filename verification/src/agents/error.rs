//! What can go wrong with agent sources.
use crate::text;
use vstd::prelude::*;

verus! {

#[derive(Debug, PartialEq, Eq)]
pub enum AgentsError {
    /// The manifest at `path` is no manifest.
    ManifestParse { path: String, message: String },
    /// The manifest at `path` asks for something that is not allowed.
    ManifestInvalid { path: String, message: String },
    /// The configuration is malformed.
    Config(String),
    /// A file could not be read or written, or holds something unexpected.
    Io { path: String, message: String },
}

/// What an [`AgentsError`] says.
pub ghost enum Fault {
    ManifestParse { path: Seq<char>, message: Seq<char> },
    ManifestInvalid { path: Seq<char>, message: Seq<char> },
    Config(Seq<char>),
    Io { path: Seq<char>, message: Seq<char> },
}

impl View for AgentsError {
    type V = Fault;

    open spec fn view(&self) -> Fault {
        match self {
            AgentsError::ManifestParse { path, message } => Fault::ManifestParse {
                path: path@,
                message: message@,
            },
            AgentsError::ManifestInvalid { path, message } => Fault::ManifestInvalid {
                path: path@,
                message: message@,
            },
            AgentsError::Config(message) => Fault::Config(message@),
            AgentsError::Io { path, message } => Fault::Io { path: path@, message: message@ },
        }
    }
}

impl AgentsError {
    /// The error as one line.
    pub fn message(&self) -> (res: String)
        ensures
            res@ == match *self {
                AgentsError::ManifestParse { path, message } => path@ + ": "@ + message@,
                AgentsError::ManifestInvalid { path, message } => path@ + ": "@ + message@,
                AgentsError::Config(message) => message@,
                AgentsError::Io { path, message } => path@ + ": "@ + message@,
            },
    {
        match self {
            AgentsError::ManifestParse { path, message } => text::concat3(
                path.as_str(),
                ": ",
                message.as_str(),
            ),
            AgentsError::ManifestInvalid { path, message } => text::concat3(
                path.as_str(),
                ": ",
                message.as_str(),
            ),
            AgentsError::Config(message) => message.clone(),
            AgentsError::Io { path, message } => text::concat3(
                path.as_str(),
                ": ",
                message.as_str(),
            ),
        }
    }
}

/// An error tells what it holds.
pub proof fn law_errors_tell_what_they_hold(e: AgentsError)
    ensures
        e matches AgentsError::ManifestParse { path, message } ==> e@ == (Fault::ManifestParse {
            path: path@,
            message: message@,
        }),
        e matches AgentsError::ManifestInvalid { path, message } ==> e@ == (Fault::ManifestInvalid {
            path: path@,
            message: message@,
        }),
        e matches AgentsError::Config(message) ==> e@ == Fault::Config(message@),
        e matches AgentsError::Io { path, message } ==> e@ == (Fault::Io { path: path@, message: message@ }),
{
}

} // verus!
