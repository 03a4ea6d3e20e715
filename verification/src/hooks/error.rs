//! What can go wrong with hooks.
use crate::cache::git;
use crate::cache::git::CacheError;
use vstd::prelude::*;

verus! {

#[derive(Debug, PartialEq, Eq)]
pub enum HookError {
    Io { path: String, message: String },
    Parse { path: String, message: String },
    /// No repository at the path or above it.
    NotARepo(String),
    GitFailed(String),
    /// A hook that was not written by this tool is in the way.
    HookExists { path: String },
    UnsupportedLanguage { hook: String, language: String },
    EntryMissing { hook: String },
    EntryParse { hook: String, message: String },
    InvalidRegex { hook: String, pattern: String, message: String },
    UpstreamHookMissing { repo: String, rev: String, hook: String },
    MetaRepoNotSupported,
    Cache(CacheError),
    /// The command could not be run.
    Runtime(String),
}

/// What a [`HookError`] says.
pub ghost enum HookFault {
    Io { path: Seq<char>, message: Seq<char> },
    Parse { path: Seq<char>, message: Seq<char> },
    NotARepo(Seq<char>),
    GitFailed(Seq<char>),
    HookExists { path: Seq<char> },
    UnsupportedLanguage { hook: Seq<char>, language: Seq<char> },
    EntryMissing { hook: Seq<char> },
    EntryParse { hook: Seq<char>, message: Seq<char> },
    InvalidRegex { hook: Seq<char>, pattern: Seq<char>, message: Seq<char> },
    UpstreamHookMissing { repo: Seq<char>, rev: Seq<char>, hook: Seq<char> },
    MetaRepoNotSupported,
    Cache(git::CacheFault),
    Runtime(Seq<char>),
}

impl View for HookError {
    type V = HookFault;

    open spec fn view(&self) -> HookFault {
        match self {
            HookError::Io { path, message } => HookFault::Io { path: path@, message: message@ },
            HookError::Parse { path, message } => HookFault::Parse {
                path: path@,
                message: message@,
            },
            HookError::NotARepo(path) => HookFault::NotARepo(path@),
            HookError::GitFailed(message) => HookFault::GitFailed(message@),
            HookError::HookExists { path } => HookFault::HookExists { path: path@ },
            HookError::UnsupportedLanguage { hook, language } => HookFault::UnsupportedLanguage {
                hook: hook@,
                language: language@,
            },
            HookError::EntryMissing { hook } => HookFault::EntryMissing { hook: hook@ },
            HookError::EntryParse { hook, message } => HookFault::EntryParse {
                hook: hook@,
                message: message@,
            },
            HookError::InvalidRegex { hook, pattern, message } => HookFault::InvalidRegex {
                hook: hook@,
                pattern: pattern@,
                message: message@,
            },
            HookError::UpstreamHookMissing { repo, rev, hook } => HookFault::UpstreamHookMissing {
                repo: repo@,
                rev: rev@,
                hook: hook@,
            },
            HookError::MetaRepoNotSupported => HookFault::MetaRepoNotSupported,
            HookError::Cache(e) => HookFault::Cache(e@),
            HookError::Runtime(message) => HookFault::Runtime(message@),
        }
    }
}

/// An error tells what it holds.
pub proof fn law_errors_tell_what_they_hold(e: HookError)
    ensures
        e matches HookError::Io { path, message } ==> e@ == (HookFault::Io {
            path: path@,
            message: message@,
        }),
        e matches HookError::Parse { path, message } ==> e@ == (HookFault::Parse {
            path: path@,
            message: message@,
        }),
        e matches HookError::NotARepo(x) ==> e@ == HookFault::NotARepo(x@),
        e matches HookError::GitFailed(x) ==> e@ == HookFault::GitFailed(x@),
        e matches HookError::HookExists { path } ==> e@ == (HookFault::HookExists {
            path: path@,
        }),
        e matches HookError::UnsupportedLanguage { hook, language } ==> e@ == (HookFault::UnsupportedLanguage {
            hook: hook@,
            language: language@,
        }),
        e matches HookError::EntryMissing { hook } ==> e@ == (HookFault::EntryMissing {
            hook: hook@,
        }),
        e matches HookError::EntryParse { hook, message } ==> e@ == (HookFault::EntryParse {
            hook: hook@,
            message: message@,
        }),
        e matches HookError::InvalidRegex { hook, pattern, message } ==> e@ == (HookFault::InvalidRegex {
            hook: hook@,
            pattern: pattern@,
            message: message@,
        }),
        e matches HookError::UpstreamHookMissing { repo, rev, hook } ==> e@ == (HookFault::UpstreamHookMissing {
            repo: repo@,
            rev: rev@,
            hook: hook@,
        }),
        e is MetaRepoNotSupported <==> e@ is MetaRepoNotSupported,
        e matches HookError::Cache(x) ==> e@ == HookFault::Cache(x@),
        e matches HookError::Runtime(x) ==> e@ == HookFault::Runtime(x@),
{
}

} // verus!
