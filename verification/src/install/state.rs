//! What has been run and what is still to do.
use crate::clock;
use crate::paths;
use crate::paths::join_path;
use crate::text;
use crate::text::concat3;
use vstd::prelude::*;

verus! {

/// The layout of the state file that this version reads and writes.
pub const SCHEMA_VERSION: u32 = 1;

/// How a step stands.
#[derive(Debug, Clone, Copy, PartialEq, Eq, Structural)]
pub enum StepStatus {
    /// Not tried yet.
    Pending,
    /// Succeeded.
    Done,
    /// Failed.
    Failed,
    /// Failed, and may.
    Skipped,
}

impl StepStatus {
    /// Whether resuming passes over the step.
    pub open spec fn resolved(self) -> bool {
        self == StepStatus::Done || self == StepStatus::Skipped
    }

    /// Whether resuming passes over the step.
    pub fn is_resolved(self) -> (res: bool)
        ensures
            res == self.resolved(),
    {
        matches!(self, StepStatus::Done | StepStatus::Skipped)
    }
}

/// The record of one step.
#[derive(Debug, PartialEq, Eq)]
pub struct StepRecord {
    pub name: String,
    pub status: StepStatus,
    pub exit_code: Option<i32>,
    pub duration_ms: Option<u64>,
    /// Milliseconds since the Unix epoch.
    pub started_at_ms: Option<u64>,
    pub ended_at_ms: Option<u64>,
}

impl StepRecord {
    /// Whether this is the record of a step of that name that was not tried yet.
    pub open spec fn is_pending(&self, name: Seq<char>) -> bool {
        &&& self.name@ == name
        &&& self.status == StepStatus::Pending
        &&& self.exit_code is None
        &&& self.duration_ms is None
        &&& self.started_at_ms is None
        &&& self.ended_at_ms is None
    }

    /// The record of a step that was not tried yet.
    pub fn pending(name: String) -> (res: Self)
        ensures
            res.is_pending(name@),
    {
        StepRecord {
            name,
            status: StepStatus::Pending,
            exit_code: None,
            duration_ms: None,
            started_at_ms: None,
            ended_at_ms: None,
        }
    }
}

/// The records of all steps.
#[derive(Debug, PartialEq, Eq)]
pub struct InstallState {
    pub version: u32,
    pub started_at_ms: u64,
    pub steps: Vec<StepRecord>,
}

/// Where the state of a project is kept.
pub open spec fn state_file(project_root: Seq<char>) -> Seq<char> {
    paths::joined_path(paths::joined_path(project_root, ".keel"@), "install.state.json"@)
}

/// Where the state of a project is kept.
pub fn state_path(project_root: &str) -> (res: String)
    ensures
        res@ == state_file(project_root@),
{
    let dir = join_path(project_root, ".keel");
    join_path(dir.as_str(), "install.state.json")
}

/// Why a state file of that version is refused.
pub open spec fn version_complaint(path: Seq<char>, version: u32) -> Seq<char> {
    path + " has version "@ + text::digits(version as nat) + ", expected "@ + text::digits(
        SCHEMA_VERSION as nat,
    ) + ". Remove the file or run `ampelos install --restart`."@
}

/// The step at place `i` is the first that is not resolved.
pub open spec fn unresolved_at(steps: Seq<StepRecord>, i: int) -> bool {
    &&& 0 <= i < steps.len()
    &&& !steps[i].status.resolved()
    &&& forall|k: int| 0 <= k < i ==> (#[trigger] steps[k]).status.resolved()
}

/// The step at place `i` is the first of that name.
pub open spec fn named_at(steps: Seq<StepRecord>, name: Seq<char>, i: int) -> bool {
    &&& 0 <= i < steps.len()
    &&& steps[i].name@ == name
    &&& forall|k: int| 0 <= k < i ==> (#[trigger] steps[k]).name@ != name
}

impl InstallState {
    /// The state before any step was tried, stamped with the present time.
    pub fn fresh(step_names: Vec<String>) -> (res: Self)
        ensures
            res.version == SCHEMA_VERSION,
            res.steps@.len() == step_names@.len(),
            forall|i: int|
                0 <= i < res.steps@.len() ==> (#[trigger] res.steps@[i]).is_pending(
                    step_names@[i]@,
                ),
    {
        let ghost all = step_names@;
        let mut steps: Vec<StepRecord> = Vec::new();
        for name in it: step_names
            invariant
                it.seq() == all,
                steps@.len() == it.index(),
                forall|i: int|
                    0 <= i < steps@.len() ==> (#[trigger] steps@[i]).is_pending(all[i]@),
        {
            steps.push(StepRecord::pending(name));
        }
        InstallState { version: SCHEMA_VERSION, started_at_ms: epoch_ms(), steps }
    }

    /// Takes what the state file of a project was read and parsed to, if there is
    /// one. Fails where that failed, and for a file of another version.
    pub fn load(project_root: &str, found: Option<Result<Self, String>>) -> (res: Result<
        Option<Self>,
        String,
    >)
        ensures
            match found {
                None => res == Ok::<Option<Self>, String>(None),
                Some(Err(message)) => res == Err::<Option<Self>, String>(message),
                Some(Ok(state)) => if state.version == SCHEMA_VERSION {
                    res == Ok::<Option<Self>, String>(Some(state))
                } else {
                    res is Err && res->Err_0@ == version_complaint(
                        state_file(project_root@),
                        state.version,
                    )
                },
            },
    {
        match found {
            None => Ok(None),
            Some(Err(message)) => Err(message),
            Some(Ok(state)) => {
                if state.version == SCHEMA_VERSION {
                    return Ok(Some(state));
                }
                let path = state_path(project_root);
                let got = text::decimal(state.version as u64);
                let want = text::decimal(SCHEMA_VERSION as u64);
                let head = concat3(path.as_str(), " has version ", got.as_str());
                let mid = concat3(head.as_str(), ", expected ", want.as_str());
                Err(
                    text::concat(
                        mid.as_str(),
                        ". Remove the file or run `ampelos install --restart`.",
                    ),
                )
            },
        }
    }

    /// The place of the first step that is not resolved.
    pub fn first_unresolved(&self) -> (res: Option<usize>)
        ensures
            match res {
                Some(i) => unresolved_at(self.steps@, i as int),
                None => forall|k: int|
                    0 <= k < self.steps@.len() ==> (#[trigger] self.steps@[k]).status.resolved(),
            },
    {
        let mut i: usize = 0;
        while i < self.steps.len()
            invariant
                i <= self.steps@.len(),
                forall|k: int| 0 <= k < i ==> (#[trigger] self.steps@[k]).status.resolved(),
            decreases self.steps@.len() - i,
        {
            if !self.steps[i].status.is_resolved() {
                return Some(i);
            }
            i += 1;
        }
        None
    }

    /// The record of a step, to be changed.
    pub fn find_mut(&mut self, name: &str) -> (res: Option<&mut StepRecord>)
        ensures
            match res {
                Some(r) => exists|i: int| #[trigger]
                    named_at(old(self).steps@, name@, i) && *r == old(self).steps@[i]
                        && final(self).steps@ == old(self).steps@.update(i, *final(r))
                        && final(self).version == old(self).version && final(self).started_at_ms
                        == old(self).started_at_ms,
                None => *final(self) == *old(self) && forall|k: int|
                    0 <= k < old(self).steps@.len() ==> (#[trigger] old(self).steps@[k]).name@
                        != name@,
            },
    {
        let mut i: usize = 0;
        while i < self.steps.len()
            invariant
                i <= self.steps@.len(),
                *self == *old(self),
                forall|k: int| 0 <= k < i ==> (#[trigger] self.steps@[k]).name@ != name@,
            decreases self.steps@.len() - i,
        {
            if *self.steps[i].name.as_str() == *name {
                assert(named_at(old(self).steps@, name@, i as int));
                return Some(&mut self.steps[i]);
            }
            i += 1;
        }
        None
    }
}

/// The milliseconds since the Unix epoch, or zero for a clock set before it.
pub fn epoch_ms() -> u64 {
    clock::now_ms()
}

/// Resuming passes over a step that succeeded or may fail, and over no other.
pub proof fn law_done_and_skipped_steps_are_passed_over(status: StepStatus)
    ensures
        status.resolved() <==> status == StepStatus::Done || status == StepStatus::Skipped,
        !StepStatus::Pending.resolved(),
        !StepStatus::Failed.resolved(),
{
}

/// The state of a project stands in a directory of its own below the project.
pub proof fn law_the_state_stands_in_the_project(root: Seq<char>)
    requires
        root.len() > 0,
        root.last() != '/',
    ensures
        state_file(root) == root + seq!['/'] + ".keel"@ + seq!['/'] + "install.state.json"@,
{
    reveal_strlit(".keel");
    reveal_strlit("install.state.json");
    let dir = paths::joined_path(root, ".keel"@);
    paths::law_joined_paths_hold_both(root, ".keel"@);
    assert(dir =~= root + seq!['/'] + ".keel"@) by {
        assert(dir.take(root.len() as int) + seq![dir[root.len() as int]] + dir.skip(
            root.len() as int + 1,
        ) =~= dir);
    }
    let file = state_file(root);
    paths::law_joined_paths_hold_both(dir, "install.state.json"@);
    assert(dir.last() == 'l');
    assert(file =~= dir + seq!['/'] + "install.state.json"@) by {
        assert(file.take(dir.len() as int) + seq![file[dir.len() as int]] + file.skip(
            dir.len() as int + 1,
        ) =~= file);
    }
}

/// A step goes by the first record of its name, and a run goes on at the first one that
/// is not done and not skipped.
pub proof fn law_the_first_record_counts(
    steps: Seq<StepRecord>,
    name: Seq<char>,
    i: int,
    k: int,
)
    requires
        0 <= k < steps.len(),
    ensures
        named_at(steps, name, i) ==> 0 <= i < steps.len() && steps[i].name@ == name,
        named_at(steps, name, i) && steps[k].name@ == name ==> i <= k,
        unresolved_at(steps, i) ==> 0 <= i < steps.len() && steps[i].status != StepStatus::Done
            && steps[i].status != StepStatus::Skipped,
        unresolved_at(steps, i) && steps[k].status != StepStatus::Done && steps[k].status
            != StepStatus::Skipped ==> i <= k,
{
}

/// A step that was not tried has its name and nothing else on record.
pub proof fn law_untried_steps_have_nothing_on_record(record: StepRecord, name: Seq<char>)
    requires
        record.is_pending(name),
    ensures
        record.name@ == name && record.status == StepStatus::Pending,
        record.exit_code is None && record.duration_ms is None,
        record.started_at_ms is None && record.ended_at_ms is None,
{
}

/// A state of another version is refused with the file and both versions named.
pub proof fn law_other_versions_are_named(path: Seq<char>, version: u32)
    ensures
        version_complaint(path, version) == path + " has version "@ + text::digits(version as nat)
            + ", expected "@ + text::digits(1)
            + ". Remove the file or run `ampelos install --restart`."@,
{
}

} // verus!
