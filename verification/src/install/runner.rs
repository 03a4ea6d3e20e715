//! The decisions of `install`: where to begin, how a step went, and when to stop.
use crate::config::model::Config;
use crate::hooks::config::Repo;
use crate::install::renderer::StepOutcome;
use crate::install::state;
use crate::install::state::{InstallState, StepRecord, StepStatus};
use crate::paths;
use crate::text;
use crate::text::{concat, concat3};
use crate::textmap::TextMap;
use vstd::prelude::*;

verus! {

/// What `install` was asked to do.
#[derive(Debug, PartialEq, Eq)]
pub struct InstallArgs {
    /// Run this step alone.
    pub step: Option<String>,
    /// Go on from the first step that is not resolved; fails where no state was
    /// saved.
    pub resume: bool,
    /// Forget what was done.
    pub restart: bool,
    /// Print the plan.
    pub dry_run: bool,
    /// Print the plan and how each step went last.
    pub list: bool,
    /// Fetch external hooks again.
    pub update_hooks: bool,
    /// Start at the first step whatever was done.
    pub assume_fresh: bool,
}

/// What a step runs.
#[derive(Debug, PartialEq, Eq)]
pub enum StepSource {
    /// A recipe, by name.
    Recipe(String),
    Script(ScriptStep),
    Inline(InlineStep),
    InstallHooks,
    ApplyAgents,
}

/// A script and how it runs.
#[derive(Debug, PartialEq, Eq)]
pub struct ScriptStep {
    pub path: String,
    /// Where it runs; in the project where nothing is said.
    pub cwd: Option<String>,
    pub env: Vec<(String, String)>,
}

/// A command line for a shell and how it runs.
#[derive(Debug, PartialEq, Eq)]
pub struct InlineStep {
    pub run: String,
    /// Where it runs; in the project where nothing is said.
    pub cwd: Option<String>,
    pub env: Vec<(String, String)>,
}

/// A step of the plan.
#[derive(Debug, PartialEq, Eq)]
pub struct Step {
    pub name: String,
    /// What the list shows.
    pub label: String,
    pub source: StepSource,
    /// Whether it may fail.
    pub optional: bool,
    /// Whether it takes the terminal.
    pub interactive: bool,
}

/// How a step went.
#[derive(Debug, PartialEq, Eq)]
pub struct Outcome {
    pub status: StepStatus,
    pub exit_code: Option<i32>,
    pub duration_ms: Option<u64>,
    pub started_at_ms: Option<u64>,
}

// ---------------------------------------------------------------------------
// Plan
// ---------------------------------------------------------------------------
/// Whether `step` is shown under its name, must not fail and leaves the terminal
/// alone.
pub open spec fn ordinary(step: Step, name: Seq<char>) -> bool {
    step.name@ == name && step.label@ == name && !step.optional && !step.interactive
}

fn ordinary_step(name: &str, source: StepSource) -> (res: Step)
    ensures
        ordinary(res, name@),
        res.source == source,
{
    Step {
        name: name.to_owned(),
        label: name.to_owned(),
        source,
        optional: false,
        interactive: false,
    }
}

/// Whether the agent files are set up along with the project.
pub open spec fn sets_up_agents(config: Config) -> bool {
    config.agents.install_with_setup && config.agents.sources@.len() > 0
}

/// Whether `plan` is that of a project with those scripts, given by name with their
/// paths: the scripts by name, then the agent files, where they are set up, and the
/// git hooks last.
pub open spec fn is_plan(config: Config, scripts: TextMap<String>, plan: Seq<Step>) -> bool {
    let n = scripts.keys().len() as int;
    &&& plan.len() == n + if sets_up_agents(config) {
        2int
    } else {
        1int
    }
    &&& forall|i: int| 0 <= i < n ==> runs_script(scripts, i, #[trigger] plan[i])
    &&& sets_up_agents(config) ==> ordinary(plan[n], "agents"@) && plan[n].source
        == StepSource::ApplyAgents
    &&& ordinary(plan.last(), "git-hooks"@)
    &&& plan.last().source == StepSource::InstallHooks
}

/// Whether `step` runs the script at place `i`.
pub open spec fn runs_script(scripts: TextMap<String>, i: int, step: Step) -> bool {
    let name = scripts.keys()[i];
    &&& ordinary(step, name)
    &&& step.source matches StepSource::Script(script) && script.path@ == scripts@[name]@
        && script.cwd is None && script.env@.len() == 0
}

/// The plan of a project with those scripts.
pub fn plan_for(config: &Config, scripts: &TextMap<String>) -> (res: Vec<Step>)
    ensures
        is_plan(*config, *scripts, res@),
{
    let mut plan: Vec<Step> = Vec::new();
    let n: usize = scripts.len();
    let mut i: usize = 0;
    while i < n
        invariant
            i <= n == scripts.keys().len(),
            plan@.len() == i,
            forall|k: int| 0 <= k < i ==> runs_script(*scripts, k, #[trigger] plan@[k]),
        decreases n - i,
    {
        let path = scripts.value_at(i).clone();
        let script = ScriptStep { path, cwd: None, env: Vec::new() };
        plan.push(ordinary_step(scripts.key_at(i).as_str(), StepSource::Script(script)));
        i += 1;
    }
    if config.agents.install_with_setup && config.agents.sources.len() > 0 {
        plan.push(ordinary_step("agents", StepSource::ApplyAgents));
    }
    plan.push(ordinary_step("git-hooks", StepSource::InstallHooks));
    plan
}

// ---------------------------------------------------------------------------
// State
// ---------------------------------------------------------------------------
fn step_names(plan: &Vec<Step>) -> (res: Vec<String>)
    ensures
        res@.len() == plan@.len(),
        forall|i: int| 0 <= i < plan@.len() ==> (#[trigger] res@[i])@ == plan@[i].name@,
{
    let mut names: Vec<String> = Vec::new();
    let mut i: usize = 0;
    while i < plan.len()
        invariant
            i <= plan@.len(),
            names@.len() == i,
            forall|k: int| 0 <= k < i ==> (#[trigger] names@[k])@ == plan@[k].name@,
        decreases plan@.len() - i,
    {
        names.push(plan[i].name.clone());
        i += 1;
    }
    names
}

/// Whether `state` is the one to begin with: what was loaded, where it has as many
/// steps as the plan, else a fresh one.
pub open spec fn begins_with(
    loaded: Option<InstallState>,
    plan: Seq<Step>,
    state: InstallState,
) -> bool {
    if loaded is Some && loaded->0.steps@.len() == plan.len() {
        state == loaded->0
    } else {
        &&& state.version == state::SCHEMA_VERSION
        &&& state.steps@.len() == plan.len()
        &&& forall|i: int|
            0 <= i < plan.len() ==> (#[trigger] state.steps@[i]).is_pending(plan[i].name@)
    }
}

/// The state to begin with.
pub fn starting_state(loaded: Option<InstallState>, plan: &Vec<Step>) -> (res: InstallState)
    ensures
        begins_with(loaded, plan@, res),
        res.steps@.len() == plan@.len(),
{
    if let Some(found) = loaded {
        if found.steps.len() == plan.len() {
            return found;
        }
    }
    let names = step_names(plan);
    InstallState::fresh(names)
}

/// The place of the first step that is not resolved, or `otherwise`.
pub open spec fn first_open(state: InstallState, otherwise: usize, at: usize) -> bool {
    ||| state::unresolved_at(state.steps@, at as int)
    ||| at == otherwise && forall|k: int|
        0 <= k < state.steps@.len() ==> (#[trigger] state.steps@[k]).status.resolved()
}

/// Where a run begins: when resuming, at the first step that is not resolved, or
/// behind the last; when starting afresh, at the first; else as when resuming, but
/// at the first where all are resolved.
pub open spec fn starts_at(
    plan_len: usize,
    state: InstallState,
    args: InstallArgs,
    at: usize,
) -> bool {
    if args.resume {
        first_open(state, plan_len, at)
    } else if args.assume_fresh {
        at == 0
    } else {
        first_open(state, 0, at)
    }
}

/// Where a run begins.
pub fn decide_start_index(plan_len: usize, state: &InstallState, args: &InstallArgs) -> (res: usize)
    ensures
        starts_at(plan_len, *state, *args, res),
{
    if args.resume {
        return match state.first_unresolved() {
            Some(i) => i,
            None => plan_len,
        };
    }
    if args.assume_fresh {
        return 0;
    }
    match state.first_unresolved() {
        Some(i) => i,
        None => 0,
    }
}

/// Every step before the one that resuming begins at is resolved, and that one is
/// not.
pub proof fn law_resuming_skips_only_resolved_steps(state: InstallState, plan_len: usize, at: usize)
    requires
        first_open(state, plan_len, at),
        state.steps@.len() == plan_len,
    ensures
        at <= plan_len,
        forall|k: int| 0 <= k < at ==> (#[trigger] state.steps@[k]).status.resolved(),
        at < plan_len ==> !state.steps@[at as int].status.resolved(),
{
}

/// How a step went by its exit code: a failure of an optional step is passed over.
pub open spec fn status_for(optional: bool, exit: int) -> StepStatus {
    if exit == 0 {
        StepStatus::Done
    } else if optional {
        StepStatus::Skipped
    } else {
        StepStatus::Failed
    }
}

/// How a step went.
pub fn classify(optional: bool, exit: i32, duration_ms: u64, started_ms: u64) -> (res: Outcome)
    ensures
        res.status == status_for(optional, exit as int),
        res.exit_code == Some(exit),
        res.duration_ms == Some(duration_ms),
        res.started_at_ms == Some(started_ms),
{
    let status = if exit == 0 {
        StepStatus::Done
    } else if optional {
        StepStatus::Skipped
    } else {
        StepStatus::Failed
    };
    Outcome {
        status,
        exit_code: Some(exit),
        duration_ms: Some(duration_ms),
        started_at_ms: Some(started_ms),
    }
}

/// How the list shows an outcome.
pub fn outcome_for_renderer(o: &Outcome) -> (res: StepOutcome)
    ensures
        res == match o.status {
            StepStatus::Done => StepOutcome::Done,
            StepStatus::Skipped => StepOutcome::Skipped,
            StepStatus::Failed => StepOutcome::Failed,
            StepStatus::Pending => StepOutcome::Failed,
        },
{
    match o.status {
        StepStatus::Done => StepOutcome::Done,
        StepStatus::Skipped => StepOutcome::Skipped,
        StepStatus::Failed => StepOutcome::Failed,
        StepStatus::Pending => StepOutcome::Failed,
    }
}

/// How the list shows a step of an earlier run; nothing for one that is not
/// resolved.
pub fn earlier_outcome(record: &StepRecord) -> (res: Option<StepOutcome>)
    ensures
        res == match record.status {
            StepStatus::Done => Some(StepOutcome::Done),
            StepStatus::Skipped => Some(StepOutcome::Skipped),
            _ => None,
        },
{
    match record.status {
        StepStatus::Done => Some(StepOutcome::Done),
        StepStatus::Skipped => Some(StepOutcome::Skipped),
        _ => None,
    }
}

/// A record once an outcome is in.
pub open spec fn noted(record: StepRecord, o: Outcome, now_ms: u64) -> StepRecord {
    StepRecord {
        name: record.name,
        status: o.status,
        exit_code: o.exit_code,
        duration_ms: o.duration_ms,
        started_at_ms: o.started_at_ms,
        ended_at_ms: Some(now_ms),
    }
}

fn note(record: &mut StepRecord, o: &Outcome, now_ms: u64)
    ensures
        *final(record) == noted(*old(record), *o, now_ms),
{
    record.status = o.status;
    record.exit_code = o.exit_code;
    record.duration_ms = o.duration_ms;
    record.started_at_ms = o.started_at_ms;
    record.ended_at_ms = Some(now_ms);
}

/// The records once the outcome of the step at a place is in.
pub open spec fn recorded(steps: Seq<StepRecord>, idx: int, o: Outcome, now_ms: u64) -> Seq<
    StepRecord,
> {
    if 0 <= idx < steps.len() {
        steps.update(idx, noted(steps[idx], o, now_ms))
    } else {
        steps
    }
}

/// Records the outcome of the step at a place; a place beyond the steps changes
/// nothing.
pub fn record_outcome(state: &mut InstallState, idx: usize, o: &Outcome, now_ms: u64)
    ensures
        final(state).version == old(state).version,
        final(state).started_at_ms == old(state).started_at_ms,
        final(state).steps@ == recorded(old(state).steps@, idx as int, *o, now_ms),
{
    if idx < state.steps.len() {
        note(&mut state.steps[idx], o, now_ms);
    }
}

/// Records the outcome of the first step of a name; a name that no step has
/// changes nothing.
pub fn record_named(state: &mut InstallState, name: &str, o: &Outcome, now_ms: u64)
    ensures
        final(state).version == old(state).version,
        final(state).started_at_ms == old(state).started_at_ms,
        ({
            ||| exists|i: int| #[trigger]
                state::named_at(old(state).steps@, name@, i) && final(state).steps@ == old(
                    state,
                ).steps@.update(i, noted(old(state).steps@[i], *o, now_ms))
            ||| final(state).steps@ == old(state).steps@ && forall|k: int|
                0 <= k < old(state).steps@.len() ==> (#[trigger] old(state).steps@[k]).name@
                    != name@
        }),
{
    match state.find_mut(name) {
        Some(record) => note(record, o, now_ms),
        None => {},
    }
}

/// Whether the run stops behind a step, and with which exit code.
pub open spec fn verdict(o: Outcome) -> Option<i32> {
    if o.status == StepStatus::Failed {
        Some(
            match o.exit_code {
                Some(c) => c,
                None => 1,
            },
        )
    } else {
        None
    }
}

/// Whether the run stops behind a step, and with which exit code.
pub fn stop_code(o: &Outcome) -> (res: Option<i32>)
    ensures
        res == verdict(*o),
{
    match o.status {
        StepStatus::Failed => Some(
            match o.exit_code {
                Some(c) => c,
                None => 1,
            },
        ),
        _ => None,
    }
}

/// What a run does next.
#[derive(Debug, Clone, Copy, PartialEq, Eq, Structural)]
pub enum RunNext {
    /// Run the step at that place.
    Step(usize),
    /// End with that exit code; a step has failed.
    Stop(i32),
    /// End: every step is through.
    Finished,
}

/// What follows once the steps before `idx` are through.
pub open spec fn step_at(plan_len: nat, idx: int) -> RunNext {
    if 0 <= idx < plan_len {
        RunNext::Step(idx as usize)
    } else {
        RunNext::Finished
    }
}

/// `next` is the first thing that a run with that state does.
pub open spec fn first_is(
    plan_len: usize,
    state: InstallState,
    args: InstallArgs,
    next: RunNext,
) -> bool {
    exists|at: usize| #[trigger]
        starts_at(plan_len, state, args, at) && next == step_at(plan_len as nat, at as int)
}

/// Whether resuming is refused: it is what was asked for, and no state was saved
/// that it could go by.
pub open spec fn nothing_to_resume(found: bool, args: InstallArgs) -> bool {
    &&& args.resume
    &&& !found
    &&& !args.list
    &&& !args.dry_run
    &&& !args.restart
    &&& args.step is None
}

/// The state that a run begins with and the first thing that it does. Resuming
/// fails where no state was saved.
pub fn begin_run(plan: &Vec<Step>, loaded: Option<InstallState>, args: &InstallArgs) -> (res: Result<
    (InstallState, RunNext),
    String,
>)
    ensures
        match res {
            Ok((state, next)) => {
                &&& !nothing_to_resume(loaded is Some, *args)
                &&& begins_with(loaded, plan@, state)
                &&& state.steps@.len() == plan@.len()
                &&& first_is(plan@.len() as usize, state, *args, next)
            },
            Err(e) => nothing_to_resume(loaded is Some, *args) && e@
                == "no saved install state to resume. Run `ampelos install` to start afresh."@,
        },
{
    let found = loaded.is_some();
    if args.resume && !found && !args.list && !args.dry_run && !args.restart
        && args.step.is_none() {
        return Err(
            "no saved install state to resume. Run `ampelos install` to start afresh.".to_owned(),
        );
    }
    let state = starting_state(loaded, plan);
    let at: usize = decide_start_index(plan.len(), &state, args);
    assert(starts_at(plan@.len() as usize, state, *args, at));
    let next = if at < plan.len() {
        RunNext::Step(at)
    } else {
        RunNext::Finished
    };
    Ok((state, next))
}

/// Whether the step at place `i` is not resolved.
pub open spec fn open_at(steps: Seq<StepRecord>, i: int) -> bool {
    i >= steps.len() || !steps[i].status.resolved()
}

/// `next` is what follows once the steps before `idx` are through: the step at that
/// place, or, when resuming, the first from there on that is not resolved.
pub open spec fn goes_on(
    plan_len: nat,
    steps: Seq<StepRecord>,
    idx: int,
    resume: bool,
    next: RunNext,
) -> bool {
    if resume {
        match next {
            RunNext::Step(i) => idx <= i < plan_len && open_at(steps, i as int) && forall|k: int|
                idx <= k < i ==> !#[trigger] open_at(steps, k),
            RunNext::Stop(_) => false,
            RunNext::Finished => forall|k: int|
                idx <= k < plan_len ==> !#[trigger] open_at(steps, k),
        }
    } else {
        next == step_at(plan_len, idx)
    }
}

fn next_step(plan_len: usize, state: &InstallState, idx: usize, resume: bool) -> (res: RunNext)
    requires
        idx <= plan_len,
    ensures
        goes_on(plan_len as nat, state.steps@, idx as int, resume, res),
{
    let mut i: usize = idx;
    while resume && i < plan_len && i < state.steps.len() && state.steps[i].status.is_resolved()
        invariant
            idx <= i <= plan_len,
            i == idx || resume,
            forall|k: int| idx <= k < i ==> !#[trigger] open_at(state.steps@, k),
        decreases plan_len - i,
    {
        assert(!open_at(state.steps@, i as int));
        i += 1;
    }
    if i < plan_len {
        RunNext::Step(i)
    } else {
        RunNext::Finished
    }
}

/// A step is through: its outcome is recorded, and the run goes on behind it
/// unless it has failed. Resuming passes over the steps that are resolved.
pub fn after_step(
    plan: &Vec<Step>,
    state: &mut InstallState,
    idx: usize,
    o: &Outcome,
    now_ms: u64,
    resume: bool,
) -> (res: RunNext)
    requires
        idx < plan@.len(),
    ensures
        final(state).version == old(state).version,
        final(state).started_at_ms == old(state).started_at_ms,
        final(state).steps@ == recorded(old(state).steps@, idx as int, *o, now_ms),
        match verdict(*o) {
            Some(code) => res == RunNext::Stop(code),
            None => goes_on(plan@.len(), final(state).steps@, idx + 1, resume, res),
        },
{
    record_outcome(state, idx, o, now_ms);
    match stop_code(o) {
        Some(code) => RunNext::Stop(code),
        None => next_step(plan.len(), state, idx + 1, resume),
    }
}

/// A resumed run runs no step that is resolved, neither first nor later.
pub proof fn law_resuming_runs_only_open_steps(
    plan_len: usize,
    state: InstallState,
    args: InstallArgs,
    idx: int,
    next: RunNext,
    at: usize,
)
    requires
        args.resume,
        state.steps@.len() == plan_len,
        next == RunNext::Step(at),
        first_is(plan_len, state, args, next) || goes_on(
            plan_len as nat,
            state.steps@,
            idx,
            args.resume,
            next,
        ),
        0 <= idx,
    ensures
        at < plan_len,
        !state.steps@[at as int].status.resolved(),
{
    if first_is(plan_len, state, args, next) {
        let begun = choose|begun: usize| #[trigger]
            starts_at(plan_len, state, args, begun) && next == step_at(
                plan_len as nat,
                begun as int,
            );
        assert(begun == at);
    }
}

/// A run stops exactly behind a step that failed and must not, with a code other
/// than zero.
pub proof fn law_only_required_failures_stop(optional: bool, exit: i32, o: Outcome)
    requires
        o.status == status_for(optional, exit as int),
        o.exit_code == Some(exit),
    ensures
        verdict(o) is Some <==> exit != 0 && !optional,
        verdict(o) matches Some(c) ==> c == exit && c != 0,
{
}

/// A run that stopped is resumed at the step that failed: where every step before
/// it was resolved, recording the failure leaves that step the first open one.
pub proof fn law_a_stopped_run_resumes_at_the_failure(
    state: InstallState,
    after: InstallState,
    idx: usize,
    o: Outcome,
    now_ms: u64,
    plan_len: usize,
    at: usize,
)
    requires
        idx < state.steps@.len(),
        forall|k: int| 0 <= k < idx ==> (#[trigger] state.steps@[k]).status.resolved(),
        verdict(o) is Some,
        after.steps@ == recorded(state.steps@, idx as int, o, now_ms),
        first_open(after, plan_len, at),
    ensures
        at == idx,
{
    assert(after.steps@[idx as int].status == StepStatus::Failed);
    if state::unresolved_at(after.steps@, at as int) {
        if at < idx {
            assert(after.steps@[at as int] == state.steps@[at as int]);
        }
    }
}

/// The step at place `i` is the first of that name.
pub open spec fn planned_at(plan: Seq<Step>, name: Seq<char>, i: int) -> bool {
    &&& 0 <= i < plan.len()
    &&& plan[i].name@ == name
    &&& forall|k: int| 0 <= k < i ==> (#[trigger] plan[k]).name@ != name
}

/// The place of the step of a name.
pub fn find_step(plan: &Vec<Step>, name: &str) -> (res: Result<usize, String>)
    ensures
        match res {
            Ok(i) => planned_at(plan@, name@, i as int),
            Err(e) => (forall|k: int|
                0 <= k < plan@.len() ==> (#[trigger] plan@[k]).name@ != name@) && e@
                == "no install step named `"@ + name@
                + "`. Run `ampelos install --list` to see the plan."@,
        },
{
    let mut i: usize = 0;
    while i < plan.len()
        invariant
            i <= plan@.len(),
            forall|k: int| 0 <= k < i ==> (#[trigger] plan@[k]).name@ != name@,
        decreases plan@.len() - i,
    {
        if *plan[i].name.as_str() == *name {
            return Ok(i);
        }
        i += 1;
    }
    Err(
        concat3(
            "no install step named `",
            name,
            "`. Run `ampelos install --list` to see the plan.",
        ),
    )
}

// ---------------------------------------------------------------------------
// Steps
// ---------------------------------------------------------------------------
/// Where a step runs: in the project, or in a directory that is taken from there.
pub open spec fn cwd_of(cwd: Option<Seq<char>>, project_root: Seq<char>) -> Seq<char> {
    match cwd {
        Some(dir) => paths::joined_path(project_root, dir),
        None => project_root,
    }
}

/// Where a step runs.
pub fn resolve_cwd(cwd: Option<&str>, project_root: &str) -> (res: String)
    ensures
        res@ == cwd_of(cwd.deep_view(), project_root@),
{
    match cwd {
        Some(dir) => paths::join_path(project_root, dir),
        None => project_root.to_owned(),
    }
}

fn step_cwd(cwd: &Option<String>, project_root: &str) -> (res: String)
    ensures
        res@ == cwd_of(cwd.deep_view(), project_root@),
{
    match cwd {
        Some(dir) => resolve_cwd(Some(dir.as_str()), project_root),
        None => resolve_cwd(None, project_root),
    }
}

/// A process to start: program, arguments, directory and environment, where a later
/// entry of the environment replaces an earlier one of its name.
#[derive(Debug, PartialEq, Eq)]
pub struct StepCommand {
    pub program: String,
    pub args: Vec<String>,
    /// The directory to run in.
    pub cwd: String,
    pub env: Vec<(String, String)>,
}

/// What a [`StepCommand`] says.
pub ghost struct CommandModel {
    pub program: Seq<char>,
    pub args: Seq<Seq<char>>,
    pub cwd: Seq<char>,
    pub env: Seq<(Seq<char>, Seq<char>)>,
}

impl DeepView for StepCommand {
    type V = CommandModel;

    open spec fn deep_view(&self) -> CommandModel {
        CommandModel {
            program: self.program@,
            args: self.args.deep_view(),
            cwd: self.cwd@,
            env: self.env.deep_view(),
        }
    }
}

/// The variable that tells a script where it stands.
pub open spec fn script_vars(path: Seq<char>) -> Seq<(Seq<char>, Seq<char>)> {
    match paths::parent_of(path) {
        Some(dir) => seq![("AMPELOS_SCRIPT_DIR"@, dir)],
        None => seq![],
    }
}

/// The variable that tells a step where the project is.
pub open spec fn project_vars(project_root: Seq<char>) -> Seq<(Seq<char>, Seq<char>)> {
    seq![("AMPELOS_PROJECT_DIR"@, project_root)]
}

/// How a step whose output is captured runs, beside the builtin ones: with the
/// project's variables, then its own, then those that say where it is.
pub open spec fn captured_model(
    source: StepSource,
    project_root: Seq<char>,
    base: Seq<(Seq<char>, Seq<char>)>,
) -> Option<CommandModel> {
    match source {
        StepSource::Script(script) => Some(
            CommandModel {
                program: script.path@,
                args: seq![],
                cwd: cwd_of(script.cwd.deep_view(), project_root),
                env: base + script.env.deep_view() + project_vars(project_root) + script_vars(
                    script.path@,
                ),
            },
        ),
        StepSource::Inline(inline) => Some(
            CommandModel {
                program: "sh"@,
                args: seq!["-c"@, inline.run@],
                cwd: cwd_of(inline.cwd.deep_view(), project_root),
                env: base + inline.env.deep_view() + project_vars(project_root),
            },
        ),
        _ => None,
    }
}

/// How a step that takes the terminal runs: with its own variables, then the
/// project's.
pub open spec fn interactive_model(
    source: StepSource,
    project_root: Seq<char>,
    base: Seq<(Seq<char>, Seq<char>)>,
) -> Option<CommandModel> {
    match source {
        StepSource::Script(script) => Some(
            CommandModel {
                program: script.path@,
                args: seq![],
                cwd: cwd_of(script.cwd.deep_view(), project_root),
                env: script.env.deep_view() + script_vars(script.path@) + base,
            },
        ),
        StepSource::Inline(inline) => Some(
            CommandModel {
                program: "sh"@,
                args: seq!["-c"@, inline.run@],
                cwd: cwd_of(inline.cwd.deep_view(), project_root),
                env: inline.env.deep_view() + base,
            },
        ),
        _ => None,
    }
}

fn push_vars(env: &mut Vec<(String, String)>, more: &Vec<(String, String)>)
    ensures
        final(env).deep_view() == old(env).deep_view() + more.deep_view(),
{
    let ghost before = env.deep_view();
    let ghost want = more.deep_view();
    let mut i: usize = 0;
    assert(env.deep_view() =~= before + want.take(0));
    while i < more.len()
        invariant
            i <= more@.len(),
            want == more.deep_view(),
            env.deep_view() == before + want.take(i as int),
        decreases more@.len() - i,
    {
        let ghost sofar = env.deep_view();
        let pair = (more[i].0.clone(), more[i].1.clone());
        env.push(pair);
        assert(env.deep_view() =~= sofar.push(want[i as int]));
        assert(sofar.push(want[i as int]) =~= before + want.take(i + 1));
        i += 1;
    }
    assert(want.take(i as int) =~= want);
}

fn push_var(env: &mut Vec<(String, String)>, name: &str, value: &str)
    ensures
        final(env).deep_view() == old(env).deep_view() + seq![(name@, value@)],
{
    let ghost before = env.deep_view();
    env.push((name.to_owned(), value.to_owned()));
    assert(env.deep_view() =~= before + seq![(name@, value@)]);
}

fn push_script_vars(env: &mut Vec<(String, String)>, path: &str)
    ensures
        final(env).deep_view() == old(env).deep_view() + script_vars(path@),
{
    match paths::parent(path) {
        Some(dir) => push_var(env, "AMPELOS_SCRIPT_DIR", dir.as_str()),
        None => {
            assert(env.deep_view() =~= env.deep_view() + script_vars(path@));
        },
    }
}

fn no_vars() -> (res: Vec<(String, String)>)
    ensures
        res.deep_view() == Seq::<(Seq<char>, Seq<char>)>::empty(),
{
    let res: Vec<(String, String)> = Vec::new();
    assert(res.deep_view() =~= Seq::<(Seq<char>, Seq<char>)>::empty());
    res
}

fn shell_args(run: &str) -> (res: Vec<String>)
    ensures
        res.deep_view() == seq!["-c"@, run@],
{
    let res = vec!["-c".to_owned(), run.to_owned()];
    assert(res.deep_view() =~= seq!["-c"@, run@]);
    res
}

fn no_args() -> (res: Vec<String>)
    ensures
        res.deep_view() == Seq::<Seq<char>>::empty(),
{
    let res: Vec<String> = Vec::new();
    assert(res.deep_view() =~= Seq::<Seq<char>>::empty());
    res
}

/// How a step whose output is captured runs; nothing for a recipe or a builtin
/// step, which start no process of their own.
pub fn captured_command(
    source: &StepSource,
    project_root: &str,
    base: &Vec<(String, String)>,
) -> (res: Option<StepCommand>)
    ensures
        res.deep_view() == captured_model(*source, project_root@, base.deep_view()),
{
    let mut env = no_vars();
    push_vars(&mut env, base);
    assert(env.deep_view() =~= base.deep_view());
    match source {
        StepSource::Script(script) => {
            push_vars(&mut env, &script.env);
            push_var(&mut env, "AMPELOS_PROJECT_DIR", project_root);
            push_script_vars(&mut env, script.path.as_str());
            Some(
                StepCommand {
                    program: script.path.clone(),
                    args: no_args(),
                    cwd: step_cwd(&script.cwd, project_root),
                    env,
                },
            )
        },
        StepSource::Inline(inline) => {
            push_vars(&mut env, &inline.env);
            push_var(&mut env, "AMPELOS_PROJECT_DIR", project_root);
            Some(
                StepCommand {
                    program: "sh".to_owned(),
                    args: shell_args(inline.run.as_str()),
                    cwd: step_cwd(&inline.cwd, project_root),
                    env,
                },
            )
        },
        _ => None,
    }
}

/// How a step that takes the terminal runs; only scripts and inline commands can.
pub fn build_command(
    source: &StepSource,
    project_root: &str,
    base: &Vec<(String, String)>,
) -> (res: Result<StepCommand, String>)
    ensures
        match res {
            Ok(cmd) => interactive_model(*source, project_root@, base.deep_view()) == Some(cmd.deep_view()),
            Err(e) => interactive_model(*source, project_root@, base.deep_view()) is None && e@
                == "step kind cannot run interactively"@,
        },
{
    let mut env = no_vars();
    match source {
        StepSource::Script(script) => {
            push_vars(&mut env, &script.env);
            assert(env.deep_view() =~= script.env.deep_view());
            push_script_vars(&mut env, script.path.as_str());
            push_vars(&mut env, base);
            Ok(
                StepCommand {
                    program: script.path.clone(),
                    args: no_args(),
                    cwd: step_cwd(&script.cwd, project_root),
                    env,
                },
            )
        },
        StepSource::Inline(inline) => {
            push_vars(&mut env, &inline.env);
            assert(env.deep_view() =~= inline.env.deep_view());
            push_vars(&mut env, base);
            Ok(
                StepCommand {
                    program: "sh".to_owned(),
                    args: shell_args(inline.run.as_str()),
                    cwd: step_cwd(&inline.cwd, project_root),
                    env,
                },
            )
        },
        _ => Err("step kind cannot run interactively".to_owned()),
    }
}

/// Whether an environment gives a variable a value: that of its last entry.
pub open spec fn sets(env: Seq<(Seq<char>, Seq<char>)>, name: Seq<char>, value: Seq<char>) -> bool {
    exists|i: int| #[trigger] last_entry(env, name, i) && env[i].1 == value
}

/// Whether the entry at place `i` is the last one of a variable.
pub open spec fn last_entry(env: Seq<(Seq<char>, Seq<char>)>, name: Seq<char>, i: int) -> bool {
    &&& 0 <= i < env.len()
    &&& env[i].0 == name
    &&& forall|j: int| i < j < env.len() ==> (#[trigger] env[j]).0 != name
}

/// Whether an environment has no entry of a variable.
pub open spec fn leaves_out(env: Seq<(Seq<char>, Seq<char>)>, name: Seq<char>) -> bool {
    forall|i: int| 0 <= i < env.len() ==> (#[trigger] env[i]).0 != name
}

proof fn lemma_sets_later(
    a: Seq<(Seq<char>, Seq<char>)>,
    b: Seq<(Seq<char>, Seq<char>)>,
    name: Seq<char>,
    value: Seq<char>,
)
    ensures
        sets(b, name, value) ==> sets(a + b, name, value),
        leaves_out(b, name) && sets(a, name, value) ==> sets(a + b, name, value),
        leaves_out(a, name) && leaves_out(b, name) ==> leaves_out(a + b, name),
{
    let both = a + b;
    if sets(b, name, value) {
        let i = choose|i: int| #[trigger] last_entry(b, name, i) && b[i].1 == value;
        assert forall|j: int| a.len() + i < j < both.len() implies (#[trigger] both[j]).0
            != name by {
            assert(both[j] == b[j - a.len()]);
        }
        assert(both[a.len() + i] == b[i]);
        assert(last_entry(both, name, a.len() + i));
    }
    if leaves_out(b, name) && sets(a, name, value) {
        let i = choose|i: int| #[trigger] last_entry(a, name, i) && a[i].1 == value;
        assert forall|j: int| i < j < both.len() implies (#[trigger] both[j]).0 != name by {
            if j < a.len() {
                assert(both[j] == a[j]);
            } else {
                assert(both[j] == b[j - a.len()]);
            }
        }
        assert(both[i] == a[i]);
        assert(last_entry(both, name, i));
    }
    if leaves_out(a, name) && leaves_out(b, name) {
        assert forall|j: int| 0 <= j < both.len() implies (#[trigger] both[j]).0 != name by {
            if j < a.len() {
                assert(both[j] == a[j]);
            } else {
                assert(both[j] == b[j - a.len()]);
            }
        }
    }
}

/// The variables that a step sets itself.
pub open spec fn own_env(source: StepSource) -> Seq<(Seq<char>, Seq<char>)> {
    match source {
        StepSource::Script(script) => script.env.deep_view(),
        StepSource::Inline(inline) => inline.env.deep_view(),
        _ => seq![],
    }
}

/// The name of the variable with the project's directory, and of the one with the
/// directory of a script.
pub open spec fn reserved(name: Seq<char>) -> bool {
    name == "AMPELOS_PROJECT_DIR"@ || name == "AMPELOS_SCRIPT_DIR"@
}

proof fn lemma_reserved_names()
    ensures
        "AMPELOS_PROJECT_DIR"@ != "AMPELOS_SCRIPT_DIR"@,
{
    reveal_strlit("AMPELOS_PROJECT_DIR");
    reveal_strlit("AMPELOS_SCRIPT_DIR");
    assert("AMPELOS_PROJECT_DIR"@.len() == 19);
    assert("AMPELOS_SCRIPT_DIR"@.len() == 18);
}

/// A step whose output is captured finds every variable: one that it sets itself with
/// its own value, any other of the project's with the project's, and, whatever these
/// say, where the project is and, for a script, where the script stands.
pub proof fn law_captured_steps_find_every_variable(
    source: StepSource,
    project_root: Seq<char>,
    base: Seq<(Seq<char>, Seq<char>)>,
    name: Seq<char>,
    value: Seq<char>,
)
    requires
        source is Script || source is Inline,
    ensures
        captured_model(source, project_root, base) is Some,
        ({
            let env = captured_model(source, project_root, base)->0.env;
            &&& sets(env, "AMPELOS_PROJECT_DIR"@, project_root)
            &&& !reserved(name) && sets(own_env(source), name, value) ==> sets(env, name, value)
            &&& !reserved(name) && leaves_out(own_env(source), name) && sets(base, name, value)
                ==> sets(env, name, value)
            &&& !reserved(name) && leaves_out(own_env(source), name) && leaves_out(base, name)
                ==> leaves_out(env, name)
            &&& source is Script ==> match paths::parent_of(source->Script_0.path@) {
                Some(dir) => sets(env, "AMPELOS_SCRIPT_DIR"@, dir),
                None => true,
            }
        }),
{
    let own = own_env(source);
    let here = project_vars(project_root);
    let project = "AMPELOS_PROJECT_DIR"@;
    let script = "AMPELOS_SCRIPT_DIR"@;
    lemma_reserved_names();
    assert(last_entry(here, project, 0));
    lemma_sets_later(base, own, name, value);
    lemma_sets_later(base + own, here, name, value);
    lemma_sets_later(base + own, here, project, project_root);
    if let StepSource::Script(s) = source {
        let there = script_vars(s.path@);
        lemma_sets_later(base + own + here, there, name, value);
        lemma_sets_later(base + own + here, there, project, project_root);
        if let Some(dir) = paths::parent_of(s.path@) {
            assert(last_entry(there, script, 0));
            lemma_sets_later(base + own + here, there, script, dir);
        }
    }
}

/// A step that takes the terminal finds every variable of the project with the
/// project's value, and any other that it sets itself with its own; a script finds
/// where it stands, unless the project's variables say otherwise.
pub proof fn law_interactive_steps_find_every_variable(
    source: StepSource,
    project_root: Seq<char>,
    base: Seq<(Seq<char>, Seq<char>)>,
    name: Seq<char>,
    value: Seq<char>,
)
    requires
        source is Script || source is Inline,
    ensures
        interactive_model(source, project_root, base) is Some,
        ({
            let env = interactive_model(source, project_root, base)->0.env;
            &&& sets(base, name, value) ==> sets(env, name, value)
            &&& name != "AMPELOS_SCRIPT_DIR"@ && leaves_out(base, name) && sets(
                own_env(source),
                name,
                value,
            ) ==> sets(env, name, value)
            &&& name != "AMPELOS_SCRIPT_DIR"@ && leaves_out(base, name) && leaves_out(
                own_env(source),
                name,
            ) ==> leaves_out(env, name)
            &&& source is Script && leaves_out(base, "AMPELOS_SCRIPT_DIR"@)
                ==> match paths::parent_of(source->Script_0.path@) {
                Some(dir) => sets(env, "AMPELOS_SCRIPT_DIR"@, dir),
                None => true,
            }
        }),
{
    let own = own_env(source);
    let script = "AMPELOS_SCRIPT_DIR"@;
    lemma_sets_later(own, base, name, value);
    if let StepSource::Script(s) = source {
        let there = script_vars(s.path@);
        lemma_sets_later(own, there, name, value);
        lemma_sets_later(own + there, base, name, value);
        if let Some(dir) = paths::parent_of(s.path@) {
            assert(last_entry(there, script, 0));
            lemma_sets_later(own, there, script, dir);
            lemma_sets_later(own + there, base, script, dir);
        }
    }
}

/// A script is started itself, an inline command by a shell, and either in its own
/// directory or, without one, in the project; captured or not, it is the same process.
/// No other step starts one.
pub proof fn law_steps_start_what_they_name(
    source: StepSource,
    project_root: Seq<char>,
    base: Seq<(Seq<char>, Seq<char>)>,
)
    ensures
        ({
            let captured = captured_model(source, project_root, base);
            let taken = interactive_model(source, project_root, base);
            match source {
                StepSource::Script(s) => {
                    &&& captured is Some && taken is Some
                    &&& captured->0.program == s.path@ && taken->0.program == s.path@
                    &&& captured->0.args.len() == 0 && taken->0.args.len() == 0
                    &&& s.cwd is None ==> captured->0.cwd == project_root
                    &&& s.cwd is Some ==> captured->0.cwd == paths::joined_path(
                        project_root,
                        s.cwd->0@,
                    )
                    &&& taken->0.cwd == captured->0.cwd
                },
                StepSource::Inline(s) => {
                    &&& captured is Some && taken is Some
                    &&& captured->0.program == "sh"@ && taken->0.program == "sh"@
                    &&& captured->0.args.len() == 2 && captured->0.args[0] == "-c"@
                    &&& captured->0.args[1] == s.run@
                    &&& taken->0.args == captured->0.args
                    &&& s.cwd is None ==> captured->0.cwd == project_root
                    &&& s.cwd is Some ==> captured->0.cwd == paths::joined_path(
                        project_root,
                        s.cwd->0@,
                    )
                    &&& taken->0.cwd == captured->0.cwd
                },
                _ => captured is None && taken is None,
            }
        }),
{
}

/// The exit code of a process; `-1` where it has none.
pub fn exit_code(code: Option<i32>) -> (res: i32)
    ensures
        res == match code {
            Some(c) => c as int,
            None => -1,
        },
{
    match code {
        Some(c) => c,
        None => -1,
    }
}

/// What becomes of a repository of hooks when hooks are installed.
#[derive(Debug, PartialEq, Eq)]
pub enum FetchStep {
    /// Nothing to fetch.
    Local,
    /// Left out, with what is said about it.
    Unsupported(String),
    /// To be fetched, with what is said about it.
    Fetch(String),
}

/// Decides about a repository of hooks.
pub fn fetch_step(repo: &Repo) -> (res: FetchStep)
    ensures
        if repo.repo@ == "local"@ {
            res == FetchStep::Local
        } else if repo.repo@ == "meta"@ {
            res matches FetchStep::Unsupported(line) && line@ == "skipping `repo: meta` ("@
                + text::digits(repo.hooks@.len()) + " hooks) — not supported by ampelos"@
        } else {
            res matches FetchStep::Fetch(line) && line@ == "fetching "@ + repo.repo@ + " @ "@
                + match repo.rev {
                Some(r) => r@,
                None => "<unpinned>"@,
            }
        },
{
    if repo.is_local() {
        return FetchStep::Local;
    }
    if repo.is_meta() {
        let n = text::decimal(repo.hooks.len() as u64);
        return FetchStep::Unsupported(
            concat3(
                "skipping `repo: meta` (",
                n.as_str(),
                " hooks) — not supported by ampelos",
            ),
        );
    }
    let head = concat3("fetching ", repo.repo.as_str(), " @ ");
    let line = match &repo.rev {
        Some(r) => concat(head.as_str(), r.as_str()),
        None => concat(head.as_str(), "<unpinned>"),
    };
    FetchStep::Fetch(line)
}

/// The stages whose hooks are installed: the one before a commit, and those that
/// keep the environment file of a worktree current where there is one.
pub open spec fn stages_for(config: Config) -> Seq<Seq<char>> {
    if config.worktrees.dotenv is Some {
        seq!["pre-commit"@, "post-checkout"@, "post-merge"@]
    } else {
        seq!["pre-commit"@]
    }
}

/// The stages whose hooks are installed.
pub fn default_install_stages(config: &Config) -> (res: Vec<&'static str>)
    ensures
        res.deep_view() == stages_for(*config),
{
    let mut stages = vec!["pre-commit"];
    if config.worktrees.dotenv.is_some() {
        stages.push("post-checkout");
        stages.push("post-merge");
    }
    assert(stages.deep_view() =~= stages_for(*config));
    stages
}

/// The line that says which stages get a shim.
pub fn stages_line(stages: &Vec<String>) -> (res: String)
    ensures
        res@ == "installing shims for: "@ + text::joined(stages.deep_view(), ", "@),
{
    let listed = text::join(stages, ", ");
    concat("installing shims for: ", listed.as_str())
}

/// What the list is headed with: the project's name, if it has one.
pub fn project_label(config: &Config) -> (res: &str)
    ensures
        res@ == match config.project.name {
            Some(name) => name@,
            None => "ampelos"@,
        },
{
    match &config.project.name {
        Some(name) => name.as_str(),
        None => "ampelos",
    }
}

// ---------------------------------------------------------------------------
// Listings
// ---------------------------------------------------------------------------
/// The name of a step's kind.
pub open spec fn kind_word(source: StepSource) -> Seq<char> {
    match source {
        StepSource::Recipe(_) => "recipe"@,
        StepSource::Script(_) => "script"@,
        StepSource::Inline(_) => "inline"@,
        StepSource::InstallHooks => "builtin"@,
        StepSource::ApplyAgents => "builtin"@,
    }
}

/// The marks behind a step.
pub open spec fn flag_words(optional: bool, interactive: bool) -> Seq<char> {
    if optional && interactive {
        " [optional, interactive]"@
    } else if optional {
        " [optional]"@
    } else if interactive {
        " [interactive]"@
    } else {
        ""@
    }
}

/// The number of a line.
pub open spec fn line_number(i: int) -> Seq<char> {
    "  "@ + text::padded_left(text::digits((i + 1) as nat), ' ', 2) + ". "@
}

fn number(i: usize) -> (res: String)
    requires
        i < usize::MAX,
    ensures
        res@ == line_number(i as int),
{
    let n = text::decimal(i as u64 + 1);
    let padded = text::pad_left(n.as_str(), ' ', 2);
    concat3("  ", padded.as_str(), ". ")
}

/// The line of a step in the plan.
pub open spec fn plan_line(step: Step, i: int) -> Seq<char> {
    line_number(i) + step.label@ + " ("@ + kind_word(step.source) + ")"@ + flag_words(
        step.optional,
        step.interactive,
    )
}

/// The plan as it is printed.
pub open spec fn plan_text(plan: Seq<Step>) -> Seq<Seq<char>> {
    seq!["Plan:"@] + Seq::new(plan.len(), |i: int| plan_line(plan[i], i))
}

/// The plan as it is printed.
pub fn plan_lines(plan: &Vec<Step>) -> (res: Vec<String>)
    ensures
        res.deep_view() == plan_text(plan@),
{
    let ghost want = plan_text(plan@);
    let mut out = vec!["Plan:".to_owned()];
    let mut i: usize = 0;
    assert(out.deep_view() =~= want.take(1));
    while i < plan.len()
        invariant
            i <= plan@.len(),
            want == plan_text(plan@),
            out.deep_view() == want.take(i + 1),
        decreases plan@.len() - i,
    {
        let ghost before = out.deep_view();
        let step = &plan[i];
        let kind = match &step.source {
            StepSource::Recipe(_) => "recipe",
            StepSource::Script(_) => "script",
            StepSource::Inline(_) => "inline",
            StepSource::InstallHooks => "builtin",
            StepSource::ApplyAgents => "builtin",
        };
        let flags = if step.optional && step.interactive {
            " [optional, interactive]"
        } else if step.optional {
            " [optional]"
        } else if step.interactive {
            " [interactive]"
        } else {
            ""
        };
        let n = number(i);
        let head = concat3(n.as_str(), step.label.as_str(), " (");
        let mid = concat3(head.as_str(), kind, ")");
        let line = concat(mid.as_str(), flags);
        out.push(line);
        assert(out.deep_view() =~= before.push(want[i + 1]));
        assert(before.push(want[i + 1]) =~= want.take(i + 2));
        i += 1;
    }
    assert(want.take(i + 1) =~= want);
    out
}

/// How a step went last.
pub open spec fn last_word(state: Option<InstallState>, i: int) -> Seq<char> {
    if state is Some && i < state->0.steps@.len() {
        match state->0.steps@[i].status {
            StepStatus::Done => "ok"@,
            StepStatus::Failed => "failed"@,
            StepStatus::Skipped => "skipped"@,
            StepStatus::Pending => "pending"@,
        }
    } else {
        "not run"@
    }
}

/// The plan with how each step went last, as it is printed.
pub open spec fn list_text(plan: Seq<Step>, state: Option<InstallState>) -> Seq<Seq<char>> {
    seq!["Install plan:"@] + Seq::new(
        plan.len(),
        |i: int|
            line_number(i) + text::padded_right(plan[i].label@, 30) + " "@ + last_word(state, i),
    )
}

fn last_of(state: &Option<InstallState>, i: usize) -> (res: &'static str)
    ensures
        res@ == last_word(*state, i as int),
{
    match state {
        Some(s) => if i < s.steps.len() {
            match s.steps[i].status {
                StepStatus::Done => "ok",
                StepStatus::Failed => "failed",
                StepStatus::Skipped => "skipped",
                StepStatus::Pending => "pending",
            }
        } else {
            "not run"
        },
        None => "not run",
    }
}

/// The plan with how each step went last, as it is printed.
pub fn list_lines(plan: &Vec<Step>, state: &Option<InstallState>) -> (res: Vec<String>)
    ensures
        res.deep_view() == list_text(plan@, *state),
{
    let ghost want = list_text(plan@, *state);
    let mut out = vec!["Install plan:".to_owned()];
    let mut i: usize = 0;
    assert(out.deep_view() =~= want.take(1));
    while i < plan.len()
        invariant
            i <= plan@.len(),
            want == list_text(plan@, *state),
            out.deep_view() == want.take(i + 1),
        decreases plan@.len() - i,
    {
        let ghost before = out.deep_view();
        let n = number(i);
        let label = text::pad_right(plan[i].label.as_str(), 30);
        let head = concat3(n.as_str(), label.as_str(), " ");
        let line = concat(head.as_str(), last_of(state, i));
        out.push(line);
        assert(out.deep_view() =~= before.push(want[i + 1]));
        assert(before.push(want[i + 1]) =~= want.take(i + 2));
        i += 1;
    }
    assert(want.take(i + 1) =~= want);
    out
}

/// A plan runs every script of the project, in the order of their names, under its
/// name and from its path; then, exactly where sources are configured and set up along
/// with the project, the agent files; and the git hooks last. No step may fail, and
/// none takes the terminal.
pub proof fn law_a_plan_holds_every_script(
    config: Config,
    scripts: TextMap<String>,
    plan: Seq<Step>,
)
    requires
        is_plan(config, scripts, plan),
    ensures
        ({
            let n = scripts.keys().len() as int;
            let agents = config.agents.install_with_setup && config.agents.sources@.len() > 0;
            &&& plan.len() == n + 1 + if agents {
                1int
            } else {
                0
            }
            &&& forall|i: int|
                0 <= i < n ==> {
                    let step = #[trigger] plan[i];
                    &&& step.name@ == scripts.keys()[i]
                    &&& step.source is Script
                    &&& step.source->Script_0.path@ == scripts@[scripts.keys()[i]]@
                    &&& step.source->Script_0.cwd is None
                    &&& step.source->Script_0.env@.len() == 0
                }
            &&& agents ==> plan[n].source == StepSource::ApplyAgents && plan[n].name@ == "agents"@
            &&& plan[plan.len() - 1].source == StepSource::InstallHooks
            &&& plan[plan.len() - 1].name@ == "git-hooks"@
            &&& forall|i: int|
                0 <= i < plan.len() ==> {
                    let step = #[trigger] plan[i];
                    !step.optional && !step.interactive && step.label@ == step.name@
                }
        }),
{
    let n = scripts.keys().len() as int;
    assert forall|i: int| 0 <= i < plan.len() implies {
        let step = #[trigger] plan[i];
        !step.optional && !step.interactive && step.label@ == step.name@
    } by {
        if i < n {
            assert(runs_script(scripts, i, plan[i]));
        } else if i < plan.len() - 1 {
            assert(i == n);
        }
    }
}

/// A saved state is taken over as it is where it has as many steps as the plan; else
/// every step of the plan is begun with, none of them tried.
pub proof fn law_only_a_fitting_state_is_taken_over(
    loaded: Option<InstallState>,
    plan: Seq<Step>,
    state: InstallState,
)
    requires
        begins_with(loaded, plan, state),
    ensures
        loaded is Some && loaded->0.steps@.len() == plan.len() ==> state == loaded->0,
        state.steps@.len() == plan.len(),
        loaded is None || loaded->0.steps@.len() != plan.len() ==> forall|i: int|
            0 <= i < plan.len() ==> {
                let step = #[trigger] state.steps@[i];
                &&& step.name@ == plan[i].name@
                &&& step.status == StepStatus::Pending
                &&& step.exit_code is None
                &&& step.ended_at_ms is None
            },
{
    if !(loaded is Some && loaded->0.steps@.len() == plan.len()) {
        assert forall|i: int| 0 <= i < plan.len() implies {
            let step = #[trigger] state.steps@[i];
            &&& step.name@ == plan[i].name@
            &&& step.status == StepStatus::Pending
            &&& step.exit_code is None
            &&& step.ended_at_ms is None
        } by {
            assert(state.steps@[i].is_pending(plan[i].name@));
        }
    }
}

/// Whether resuming has nothing to do for a step.
pub open spec fn through(steps: Seq<StepRecord>, i: int) -> bool {
    steps[i].status == StepStatus::Done || steps[i].status == StepStatus::Skipped
}

/// A run begins at the first step that is neither done nor skipped; where there is
/// none, a resumed run has nothing left to do, and any other begins at the first step.
/// One that is to start afresh begins there in any case, unless it is resumed.
pub proof fn law_a_run_begins_at_the_first_open_step(
    plan_len: usize,
    state: InstallState,
    args: InstallArgs,
    at: usize,
)
    requires
        starts_at(plan_len, state, args, at),
        state.steps@.len() == plan_len,
    ensures
        !args.resume && args.assume_fresh ==> at == 0,
        args.resume || !args.assume_fresh ==> {
            ||| at < plan_len && !through(state.steps@, at as int) && forall|k: int|
                0 <= k < at ==> #[trigger] through(state.steps@, k)
            ||| (forall|k: int| 0 <= k < plan_len ==> #[trigger] through(state.steps@, k)) && at
                == if args.resume {
                plan_len
            } else {
                0
            }
        },
{
    assert forall|k: int| 0 <= k < state.steps@.len() implies through(state.steps@, k)
        == (#[trigger] state.steps@[k]).status.resolved() by {}
}

/// The first thing that a run does is the step that it begins at, or nothing where all
/// are through.
pub proof fn law_a_run_does_the_step_it_begins_at(
    plan_len: usize,
    state: InstallState,
    args: InstallArgs,
    next: RunNext,
)
    requires
        first_is(plan_len, state, args, next),
    ensures
        next !is Stop,
        next matches RunNext::Step(at) ==> at < plan_len && starts_at(plan_len, state, args, at),
        next is Finished ==> exists|at: usize| #[trigger]
            starts_at(plan_len, state, args, at) && at >= plan_len,
{
    let at = choose|at: usize| #[trigger]
        starts_at(plan_len, state, args, at) && next == step_at(plan_len as nat, at as int);
    assert(starts_at(plan_len, state, args, at));
}

/// A step that ends with zero is done, one that may fail and does is skipped, and any
/// other has failed. The run stops exactly behind one that has failed, with its exit
/// code, or one where it has none.
pub proof fn law_exit_codes_decide(optional: bool, exit: i32, o: Outcome)
    ensures
        status_for(optional, exit as int) == StepStatus::Done <==> exit == 0,
        status_for(optional, exit as int) == StepStatus::Skipped <==> exit != 0 && optional,
        status_for(optional, exit as int) == StepStatus::Failed <==> exit != 0 && !optional,
        verdict(o) is Some <==> o.status == StepStatus::Failed,
        verdict(o) is Some && o.exit_code is Some ==> verdict(o) == o.exit_code,
        verdict(o) is Some && o.exit_code is None ==> verdict(o) == Some(1i32),
{
}

/// Recording an outcome changes the step it belongs to and no other; the step keeps
/// its name and has the outcome's word for the rest.
pub proof fn law_an_outcome_is_recorded_once(
    steps: Seq<StepRecord>,
    idx: int,
    o: Outcome,
    now_ms: u64,
)
    ensures
        ({
            let after = recorded(steps, idx, o, now_ms);
            &&& after.len() == steps.len()
            &&& forall|k: int| 0 <= k < steps.len() && k != idx ==> #[trigger] after[k] == steps[k]
            &&& 0 <= idx < steps.len() ==> {
                &&& after[idx].name == steps[idx].name
                &&& after[idx].status == o.status
                &&& after[idx].exit_code == o.exit_code
                &&& after[idx].duration_ms == o.duration_ms
                &&& after[idx].started_at_ms == o.started_at_ms
                &&& after[idx].ended_at_ms == Some(now_ms)
            }
        }),
{
}

/// Behind a step the run goes on with the very next one, and ends behind the last;
/// resumed, it passes over the steps that are through, and over no other.
pub proof fn law_no_step_is_passed_over(
    plan_len: nat,
    steps: Seq<StepRecord>,
    idx: int,
    resume: bool,
    next: RunNext,
)
    requires
        goes_on(plan_len, steps, idx, resume, next),
        steps.len() == plan_len,
        plan_len <= usize::MAX,
        0 <= idx <= plan_len,
    ensures
        next !is Stop,
        !resume && idx < plan_len ==> next == RunNext::Step(idx as usize),
        !resume && idx == plan_len ==> next is Finished,
        resume && next is Finished ==> forall|k: int|
            idx <= k < plan_len ==> #[trigger] through(steps, k),
        resume ==> (next matches RunNext::Step(i) ==> idx <= i < plan_len && !through(
            steps,
            i as int,
        ) && forall|k: int| idx <= k < i ==> #[trigger] through(steps, k)),
{
    assert forall|k: int| 0 <= k < plan_len implies #[trigger] through(steps, k) == !open_at(
        steps,
        k,
    ) by {}
}

/// Resuming is refused exactly where it is all that was asked for and nothing was
/// saved.
pub proof fn law_resuming_needs_a_saved_state(found: bool, args: InstallArgs)
    ensures
        nothing_to_resume(found, args) <==> !found && args.resume && !(args.list || args.dry_run
            || args.restart || args.step is Some),
{
}

/// The printed plan has a heading and a line for every step, in order, with its
/// number, its label and its kind; the marks say whether it may fail or takes the
/// terminal.
pub proof fn law_every_step_is_listed(plan: Seq<Step>, state: Option<InstallState>, i: int)
    requires
        0 <= i < plan.len(),
    ensures
        plan_text(plan).len() == plan.len() + 1,
        list_text(plan, state).len() == plan.len() + 1,
        ({
            let head = "  "@ + text::padded_left(text::digits((i + 1) as nat), ' ', 2) + ". "@;
            let kind = match plan[i].source {
                StepSource::Recipe(_) => "recipe"@,
                StepSource::Script(_) => "script"@,
                StepSource::Inline(_) => "inline"@,
                _ => "builtin"@,
            };
            let marks = match (plan[i].optional, plan[i].interactive) {
                (true, true) => " [optional, interactive]"@,
                (true, false) => " [optional]"@,
                (false, true) => " [interactive]"@,
                (false, false) => ""@,
            };
            let word = if state is Some && i < state->0.steps@.len() {
                match state->0.steps@[i].status {
                    StepStatus::Done => "ok"@,
                    StepStatus::Failed => "failed"@,
                    StepStatus::Skipped => "skipped"@,
                    StepStatus::Pending => "pending"@,
                }
            } else {
                "not run"@
            };
            &&& plan_text(plan)[i + 1] == head + plan[i].label@ + " ("@ + kind + ")"@ + marks
            &&& list_text(plan, state)[i + 1] == head + text::padded_right(plan[i].label@, 30)
                + " "@ + word
        }),
{
}

/// Hooks are installed for the stage before a commit, and, exactly where an
/// environment file is kept, for the two stages that change the working tree.
pub proof fn law_installed_stages(config: Config)
    ensures
        stages_for(config).contains("pre-commit"@),
        config.worktrees.dotenv is Some ==> stages_for(config).contains("post-checkout"@)
            && stages_for(config).contains("post-merge"@) && stages_for(config).len() == 3,
        config.worktrees.dotenv is None ==> stages_for(config).len() == 1,
{
    let stages = stages_for(config);
    assert(stages[0] == "pre-commit"@);
    if config.worktrees.dotenv is Some {
        assert(stages[1] == "post-checkout"@);
        assert(stages[2] == "post-merge"@);
    }
}

/// A step goes by the first one of its name.
pub proof fn law_the_first_step_of_a_name_counts(
    plan: Seq<Step>,
    name: Seq<char>,
    i: int,
    k: int,
)
    requires
        planned_at(plan, name, i),
        0 <= k < plan.len(),
        plan[k].name@ == name,
    ensures
        0 <= i <= k,
        plan[i].name@ == name,
{
}

/// The model of a command has each field under its own name.
pub proof fn law_commands_say_their_fields(c: StepCommand)
    ensures
        c.deep_view().program == c.program@ && c.deep_view().args == c.args.deep_view(),
        c.deep_view().cwd == c.cwd@ && c.deep_view().env == c.env.deep_view(),
{
}

} // verus!
