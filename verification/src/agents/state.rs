//! What was written into the project, from which revision, and with which bytes.
use crate::agents::error;
use crate::agents::error::AgentsError;
use crate::agents::manifest::FileMode;
use crate::clock;
use crate::paths;
use crate::paths::join_path;
use crate::text;
use crate::text::concat3;
use vstd::prelude::*;

verus! {

/// The layout of the state file that this version reads and writes.
pub const SCHEMA_VERSION: u32 = 1;

/// The recorded state.
#[derive(Debug, PartialEq, Eq)]
pub struct AgentsState {
    pub version: u32,
    pub applied_at_ms: u64,
    pub sources: Vec<SourceRecord>,
    pub files: Vec<AppliedFile>,
}

/// The revision that a source was applied at.
#[derive(Debug, PartialEq, Eq)]
pub struct SourceRecord {
    pub name: String,
    pub repo: String,
    pub rev_request: String,
    pub resolved_sha: String,
    pub manifest_sha256: String,
}

/// One file that was written.
#[derive(Debug, PartialEq, Eq)]
pub struct AppliedFile {
    pub dest: String,
    pub source_name: String,
    pub src: String,
    /// The hash of the bytes written; absent for a file that the project owns.
    pub sha256: Option<String>,
    pub mode: FileMode,
    pub written_at_ms: u64,
}

impl Default for AgentsState {
    fn default() -> (res: Self)
        ensures
            res.version == 0,
            res.applied_at_ms == 0,
            res.sources@.len() == 0,
            res.files@.len() == 0,
    {
        AgentsState { version: 0, applied_at_ms: 0, sources: Vec::new(), files: Vec::new() }
    }
}

/// Where the state of a project is kept.
pub open spec fn state_file(project_root: Seq<char>) -> Seq<char> {
    paths::joined_path(paths::joined_path(project_root, ".keel"@), "agents.state.json"@)
}

/// The file at place `i` is the first one for that destination.
pub open spec fn first_for(files: Seq<AppliedFile>, dest: Seq<char>, i: int) -> bool {
    &&& 0 <= i < files.len()
    &&& paths::components_of(files[i].dest@) == paths::components_of(dest)
    &&& forall|k: int|
        0 <= k < i ==> paths::components_of((#[trigger] files[k]).dest@) != paths::components_of(
            dest,
        )
}

/// Why a state file of that version is refused.
pub open spec fn version_complaint(version: u32) -> Seq<char> {
    "agents.state.json has version "@ + text::digits(version as nat) + ", expected "@
        + text::digits(SCHEMA_VERSION as nat)
        + ". Remove the file and re-run `keel agents install`."@
}

impl AgentsState {
    /// The state before anything was written, stamped with the present time.
    pub fn fresh() -> (res: Self)
        ensures
            res.version == SCHEMA_VERSION,
            res.sources@.len() == 0,
            res.files@.len() == 0,
    {
        AgentsState {
            version: SCHEMA_VERSION,
            applied_at_ms: epoch_ms(),
            sources: Vec::new(),
            files: Vec::new(),
        }
    }

    /// Takes what the state file of a project was read and parsed to, if there is
    /// one. Fails where that failed, and for a file of another version.
    pub fn load(project_root: &str, found: Option<Result<Self, String>>) -> (res: Result<
        Option<Self>,
        AgentsError,
    >)
        ensures
            match found {
                None => res == Ok::<Option<Self>, AgentsError>(None),
                Some(Err(message)) => res is Err && res->Err_0@ == (error::Fault::Io {
                    path: state_file(project_root@),
                    message: message@,
                }),
                Some(Ok(state)) => if state.version == SCHEMA_VERSION {
                    res == Ok::<Option<Self>, AgentsError>(Some(state))
                } else {
                    res is Err && res->Err_0@ == (error::Fault::Io {
                        path: state_file(project_root@),
                        message: version_complaint(state.version),
                    })
                },
            },
    {
        match found {
            None => Ok(None),
            Some(Err(message)) => Err(AgentsError::Io { path: Self::path(project_root), message }),
            Some(Ok(state)) => {
                if state.version == SCHEMA_VERSION {
                    Ok(Some(state))
                } else {
                    let got = text::decimal(state.version as u64);
                    let want = text::decimal(SCHEMA_VERSION as u64);
                    let head = concat3(
                        "agents.state.json has version ",
                        got.as_str(),
                        ", expected ",
                    );
                    let message = concat3(
                        head.as_str(),
                        want.as_str(),
                        ". Remove the file and re-run `keel agents install`.",
                    );
                    Err(AgentsError::Io { path: Self::path(project_root), message })
                }
            },
        }
    }

    /// The record of a destination.
    pub fn find(&self, dest: &str) -> (res: Option<&AppliedFile>)
        ensures
            match res {
                Some(f) => exists|i: int| #[trigger]
                    first_for(self.files@, dest@, i) && *f == self.files@[i],
                None => forall|k: int|
                    0 <= k < self.files@.len() ==> paths::components_of(
                        (#[trigger] self.files@[k]).dest@,
                    ) != paths::components_of(dest@),
            },
    {
        let mut i: usize = 0;
        while i < self.files.len()
            invariant
                i <= self.files@.len(),
                forall|k: int|
                    0 <= k < i ==> paths::components_of((#[trigger] self.files@[k]).dest@)
                        != paths::components_of(dest@),
            decreases self.files@.len() - i,
        {
            if paths::same_path(self.files[i].dest.as_str(), dest) {
                assert(first_for(self.files@, dest@, i as int));
                return Some(&self.files[i]);
            }
            i += 1;
        }
        None
    }

    /// Where the state of a project is kept.
    pub fn path(project_root: &str) -> (res: String)
        ensures
            res@ == state_file(project_root@),
    {
        let dir = join_path(project_root, ".keel");
        join_path(dir.as_str(), "agents.state.json")
    }
}

/// The milliseconds since the Unix epoch, or zero for a clock set before it.
pub fn epoch_ms() -> u64 {
    clock::now_ms()
}

/// The state of a project stands in a directory of its own below the project.
pub proof fn law_the_state_stands_in_the_project(root: Seq<char>)
    requires
        root.len() > 0,
        root.last() != '/',
    ensures
        state_file(root) == root + seq!['/'] + ".keel"@ + seq!['/'] + "agents.state.json"@,
{
    reveal_strlit(".keel");
    reveal_strlit("agents.state.json");
    let dir = paths::joined_path(root, ".keel"@);
    paths::law_joined_paths_hold_both(root, ".keel"@);
    assert(dir =~= root + seq!['/'] + ".keel"@) by {
        assert(dir.take(root.len() as int) + seq![dir[root.len() as int]] + dir.skip(
            root.len() as int + 1,
        ) =~= dir);
    }
    let file = state_file(root);
    paths::law_joined_paths_hold_both(dir, "agents.state.json"@);
    assert(dir.last() == 'l');
    assert(file =~= dir + seq!['/'] + "agents.state.json"@) by {
        assert(file.take(dir.len() as int) + seq![file[dir.len() as int]] + file.skip(
            dir.len() as int + 1,
        ) =~= file);
    }
}

/// The record of a destination is the first one whose path has its components.
pub proof fn law_the_first_record_of_a_destination_counts(
    files: Seq<AppliedFile>,
    dest: Seq<char>,
    i: int,
    k: int,
)
    requires
        first_for(files, dest, i),
        0 <= k < files.len(),
        paths::components_of(files[k].dest@) == paths::components_of(dest),
    ensures
        0 <= i <= k,
        paths::components_of(files[i].dest@) == paths::components_of(dest),
{
}

/// A state of another version is refused with both versions named.
pub proof fn law_other_versions_are_named(version: u32)
    ensures
        version_complaint(version) == "agents.state.json has version "@ + text::digits(
            version as nat,
        ) + ", expected "@ + text::digits(1) + ". Remove the file and re-run `keel agents install`."@,
{
}

} // verus!
