//! Watcher panes: re-run a recipe when files change.
use crate::globs;
use crate::globs::{build_glob_set, set_matches, GlobFailure};
use crate::paths;
use crate::text;
use crate::tui::runner;
use crate::tui::runner::{absorb, CapturedLine, RunOutcome};
use globset::GlobSet;
use std::collections::VecDeque;
use vstd::prelude::*;

verus! {

/// Why a watcher pane could not start.
#[derive(Debug, PartialEq, Eq)]
pub enum WatcherError {
    Glob(GlobFailure),
    /// The file system watcher failed, with its message.
    Notify(String),
}

/// Where a watcher pane stands in its cycle.
#[derive(Debug, Clone, Copy, PartialEq, Eq, Structural)]
pub enum WatcherState {
    /// Nothing pending or running.
    Idle,
    /// Changes arrived; the run starts once the window passes without another.
    Debouncing,
    /// The recipe is running.
    Running,
}

/// The state of one watcher pane. Times are milliseconds of a steady clock.
#[derive(Debug, PartialEq, Eq)]
pub struct WatcherPane {
    pub name: String,
    pub recipe: String,
    pub globs: Vec<String>,
    pub debounce_ms: u64,
    pub state: WatcherState,
    pub buffer: VecDeque<CapturedLine>,
    pub last_exit_code: Option<i32>,
    pub last_finished_at: Option<u64>,
    pub last_run_started_at: Option<u64>,
    /// When the pending run starts.
    pub pending_until: Option<u64>,
}

/// What the event loop observed since the last tick.
#[derive(Debug, PartialEq, Eq)]
pub struct WatcherInput {
    pub now: u64,
    /// Whether a watched file changed.
    pub had_event: bool,
    /// Lines that the running recipe printed.
    pub output: Vec<CapturedLine>,
    /// How the running recipe ended, if it did.
    pub finished: Option<RunOutcome>,
}

/// The exit code that a pane remembers for an outcome.
pub open spec fn outcome_code(outcome: RunOutcome) -> i32 {
    match outcome {
        RunOutcome::Exited(code) => code,
        _ => -1i32,
    }
}

impl WatcherPane {
    /// A pane with a run going has none pending.
    pub open spec fn wf(&self) -> bool {
        self.state == WatcherState::Running ==> self.pending_until is None
    }

    /// The end of a window that opens at `now`, at most the last moment there is.
    pub open spec fn window_end(&self, now: u64) -> u64 {
        if now + self.debounce_ms <= u64::MAX {
            (now + self.debounce_ms) as u64
        } else {
            u64::MAX
        }
    }

    /// When the pending run starts, once the events of `input` are in. Events that
    /// are seen while a run is going arm nothing.
    pub open spec fn armed(&self, input: WatcherInput) -> Option<u64> {
        if input.had_event && self.state != WatcherState::Running {
            Some(self.window_end(input.now))
        } else {
            self.pending_until
        }
    }

    /// The state once the events and the completion of `input` are in.
    pub open spec fn settled(&self, input: WatcherInput) -> WatcherState {
        if input.finished is Some {
            WatcherState::Idle
        } else if input.had_event && self.state == WatcherState::Idle {
            WatcherState::Debouncing
        } else {
            self.state
        }
    }

    /// Whether the tick starts a run: none is running and the window has passed.
    pub open spec fn fires(&self, input: WatcherInput) -> bool {
        self.settled(input) != WatcherState::Running && match self.armed(input) {
            Some(t) => input.now >= t,
            None => false,
        }
    }

    /// `post` is this pane after the tick of `input`.
    pub open spec fn ticks(&self, input: WatcherInput, post: WatcherPane) -> bool {
        let fired = self.fires(input);
        &&& post.name == self.name
        &&& post.recipe == self.recipe
        &&& post.globs == self.globs
        &&& post.debounce_ms == self.debounce_ms
        &&& post.state == if fired {
            WatcherState::Running
        } else {
            self.settled(input)
        }
        &&& fired ==> post.buffer@.len() == 0
        &&& !fired ==> post.buffer@ == runner::absorbed(self.buffer@, input.output@)
        &&& post.pending_until == if fired {
            None
        } else {
            self.armed(input)
        }
        &&& match input.finished {
            Some(outcome) => post.last_exit_code == Some(outcome_code(outcome))
                && post.last_finished_at == Some(input.now),
            None => post.last_exit_code == self.last_exit_code && post.last_finished_at
                == self.last_finished_at,
        }
        &&& post.last_run_started_at == if fired {
            Some(input.now)
        } else {
            self.last_run_started_at
        }
    }

    /// A pane that has seen no change yet.
    pub fn new(name: String, recipe: String, globs: Vec<String>, debounce_ms: u64) -> (res: Self)
        ensures
            res.name == name,
            res.recipe == recipe,
            res.globs == globs,
            res.debounce_ms == debounce_ms,
            res.state == WatcherState::Idle,
            res.buffer@.len() == 0,
            res.last_exit_code is None,
            res.last_finished_at is None,
            res.last_run_started_at is None,
            res.pending_until is None,
            res.wf(),
    {
        WatcherPane {
            name,
            recipe,
            globs,
            debounce_ms,
            state: WatcherState::Idle,
            buffer: VecDeque::new(),
            last_exit_code: None,
            last_finished_at: None,
            last_run_started_at: None,
            pending_until: None,
        }
    }

    /// Advances the cycle and says whether to start the recipe. A change arms the
    /// window; a completion returns the pane to idle; a passed window starts a run
    /// unless one is going. Changes during a run queue no other.
    pub fn tick(&mut self, input: WatcherInput) -> (res: bool)
        ensures
            res == old(self).fires(input),
            old(self).ticks(input, *final(self)),
            old(self).wf() ==> final(self).wf(),
    {
        let WatcherInput { now, had_event, output, finished } = input;
        if had_event && self.state != WatcherState::Running {
            let end: u64 = if self.debounce_ms <= u64::MAX - now {
                now + self.debounce_ms
            } else {
                u64::MAX
            };
            self.pending_until = Some(end);
            if self.state == WatcherState::Idle {
                self.state = WatcherState::Debouncing;
            }
        }
        let _ = absorb(&mut self.buffer, output);
        if let Some(outcome) = finished {
            let code: i32 = match outcome {
                RunOutcome::Exited(code) => code,
                RunOutcome::Failed(_) => -1,
                RunOutcome::Panicked(_) => -1,
            };
            self.last_exit_code = Some(code);
            self.last_finished_at = Some(now);
            self.state = WatcherState::Idle;
        }
        let due = match self.pending_until {
            Some(t) => now >= t,
            None => false,
        };
        if self.state != WatcherState::Running && due {
            self.pending_until = None;
            self.buffer.clear();
            self.state = WatcherState::Running;
            self.last_run_started_at = Some(now);
            true
        } else {
            false
        }
    }

    /// The pane's title; `seconds` is the time left of the window, or the running
    /// time, as text.
    pub open spec fn label(&self, seconds: Seq<char>) -> Seq<char> {
        match self.state {
            WatcherState::Idle => match self.last_exit_code {
                None => self.name@ + " · idle"@,
                Some(c) => if c == 0 {
                    self.name@ + " · ✓ idle"@
                } else {
                    self.name@ + " · ✗ "@ + text::signed_digits(c as int) + " · idle"@
                },
            },
            WatcherState::Debouncing => self.name@ + " · cooldown ("@ + seconds + "s)"@,
            WatcherState::Running => self.name@ + " · running ("@ + seconds + "s)"@,
        }
    }

    /// The pane's title.
    pub fn status_label(&self, seconds: &str) -> (res: String)
        ensures
            res@ == self.label(seconds@),
    {
        match self.state {
            WatcherState::Idle => match self.last_exit_code {
                None => text::concat(self.name.as_str(), " · idle"),
                Some(c) => {
                    if c == 0 {
                        text::concat(self.name.as_str(), " · ✓ idle")
                    } else {
                        let n = text::signed_decimal(c as i64);
                        let mut out = text::concat3(self.name.as_str(), " · ✗ ", n.as_str());
                        out.append(" · idle");
                        out
                    }
                },
            },
            WatcherState::Debouncing => {
                let mut out = text::concat3(self.name.as_str(), " · cooldown (", seconds);
                out.append("s)");
                out
            },
            WatcherState::Running => {
                let mut out = text::concat3(self.name.as_str(), " · running (", seconds);
                out.append("s)");
                out
            },
        }
    }
}

/// No run starts while another is going: it waits for the end of that one.
pub proof fn law_runs_do_not_overlap(pane: WatcherPane, input: WatcherInput)
    requires
        pane.state == WatcherState::Running,
        input.finished is None,
    ensures
        !pane.fires(input),
{
}

/// The successive states of a pane: each of `inputs` takes one of `panes` to the
/// next.
pub open spec fn history(panes: Seq<WatcherPane>, inputs: Seq<WatcherInput>) -> bool {
    &&& panes.len() == inputs.len() + 1
    &&& forall|i: int|
        0 <= i < inputs.len() ==> (#[trigger] panes[i]).ticks(inputs[i], panes[i + 1])
}

/// Changes during a run start no other: a run that ends at tick `end` is the last
/// one until a later change. No tick starts a run, and from the end on the pane is
/// idle and remembers how the run ended.
pub proof fn law_changes_during_a_run_start_none(
    panes: Seq<WatcherPane>,
    inputs: Seq<WatcherInput>,
    end: int,
)
    requires
        history(panes, inputs),
        panes[0].wf(),
        panes[0].state == WatcherState::Running,
        0 <= end < inputs.len(),
        forall|i: int| 0 <= i < end ==> (#[trigger] inputs[i]).finished is None,
        inputs[end].finished is Some,
        forall|i: int|
            end < i < inputs.len() ==> !(#[trigger] inputs[i]).had_event && inputs[i].finished
                is None,
    ensures
        forall|i: int| 0 <= i < inputs.len() ==> !(#[trigger] panes[i]).fires(inputs[i]),
        forall|i: int|
            end < i < panes.len() ==> (#[trigger] panes[i]).state == WatcherState::Idle
                && panes[i].last_exit_code == Some(outcome_code(inputs[end].finished->0)),
{
    assert forall|i: int| 0 <= i < inputs.len() implies !(#[trigger] panes[i]).fires(
        inputs[i],
    ) by {
        lemma_quiet(panes, inputs, end, i);
    }
    assert forall|i: int| end < i < panes.len() implies (#[trigger] panes[i]).state
        == WatcherState::Idle && panes[i].last_exit_code == Some(
        outcome_code(inputs[end].finished->0),
    ) by {
        lemma_quiet(panes, inputs, end, i);
    }
}

proof fn lemma_quiet(panes: Seq<WatcherPane>, inputs: Seq<WatcherInput>, end: int, n: int)
    requires
        history(panes, inputs),
        panes[0].wf(),
        panes[0].state == WatcherState::Running,
        0 <= end < inputs.len(),
        forall|i: int| 0 <= i < end ==> (#[trigger] inputs[i]).finished is None,
        inputs[end].finished is Some,
        forall|i: int|
            end < i < inputs.len() ==> !(#[trigger] inputs[i]).had_event && inputs[i].finished
                is None,
        0 <= n < panes.len(),
    ensures
        panes[n].pending_until is None,
        n <= end ==> panes[n].state == WatcherState::Running,
        n > end ==> panes[n].state == WatcherState::Idle && panes[n].last_exit_code == Some(
            outcome_code(inputs[end].finished->0),
        ),
        n < inputs.len() ==> !panes[n].fires(inputs[n]),
    decreases n,
{
    if n > 0 {
        lemma_quiet(panes, inputs, end, n - 1);
        assert(panes[n - 1].ticks(inputs[n - 1], panes[n - 1 + 1]));
    }
}

/// A change puts off the run by the whole window.
pub proof fn law_a_change_restarts_the_window(pane: WatcherPane, input: WatcherInput)
    requires
        input.had_event,
        pane.state != WatcherState::Running,
        pane.debounce_ms > 0,
        input.now + pane.debounce_ms <= u64::MAX,
    ensures
        pane.armed(input) == Some((input.now + pane.debounce_ms) as u64),
        !pane.fires(input),
{
}

/// Milliseconds left of a debounce window at `now`; zero once it has passed.
pub open spec fn window_left(pending_until: Option<u64>, now: u64) -> u64 {
    match pending_until {
        Some(t) => if t >= now {
            (t - now) as u64
        } else {
            0
        },
        None => 0,
    }
}

/// Milliseconds left of a debounce window at `now`.
pub fn remaining_ms(pending_until: Option<u64>, now: u64) -> (res: u64)
    ensures
        res == window_left(pending_until, now),
{
    match pending_until {
        Some(t) => if t >= now {
            t - now
        } else {
            0
        },
        None => 0,
    }
}

/// The kinds of file system events, as far as a watcher tells them apart.
#[derive(Debug, Clone, Copy, PartialEq, Eq, Structural)]
pub enum ChangeKind {
    /// A file was only opened or read.
    Access,
    /// Anything else.
    Other,
}

/// Whether an event counts as a change.
pub fn event_is_relevant(kind: ChangeKind) -> (res: bool)
    ensures
        res == (kind != ChangeKind::Access),
{
    kind != ChangeKind::Access
}

/// The path that a watcher's globs see: relative to the project root when it lies
/// below it, else as it is.
pub open spec fn watched_path(path: Seq<char>, root: Seq<char>) -> Seq<char> {
    match paths::below(path, root) {
        Some(rel) => rel,
        None => path,
    }
}

/// Whether a glob of `set` matches `path` as seen from the project root.
pub fn matches_glob_relative(set: &GlobSet, path: &str, project_root: &str) -> (res: bool)
    ensures
        res == globs::any_matches(
            globs::set_globs(*set),
            watched_path(path@, project_root@),
        ),
{
    match paths::strip_base(path, project_root) {
        Some(rel) => set_matches(set, rel.as_str()),
        None => set_matches(set, path),
    }
}

/// Whether one of `changed` is watched by a glob of `set`.
pub fn any_watched(set: &GlobSet, changed: &Vec<String>, project_root: &str) -> (res: bool)
    ensures
        res == exists|i: int|
            0 <= i < changed@.len() && globs::any_matches(
                globs::set_globs(*set),
                watched_path(#[trigger] changed@[i]@, project_root@),
            ),
{
    let mut i: usize = 0;
    while i < changed.len()
        invariant
            i <= changed@.len(),
            forall|k: int|
                0 <= k < i ==> !globs::any_matches(
                    globs::set_globs(*set),
                    watched_path(#[trigger] changed@[k]@, project_root@),
                ),
        decreases changed@.len() - i,
    {
        if matches_glob_relative(set, changed[i].as_str(), project_root) {
            return true;
        }
        i += 1;
    }
    false
}

/// Compiles a pane's globs.
pub fn compile_globs(patterns: &Vec<String>) -> (res: Result<GlobSet, WatcherError>)
    ensures
        match res {
            Ok(set) => globs::all_valid(patterns.deep_view()) && globs::glob_set_error(
                patterns.deep_view(),
            ) is None && globs::set_globs(set) == patterns.deep_view(),
            Err(e) => e matches WatcherError::Glob(f) && globs::refuses(patterns.deep_view(), f),
        },
{
    match build_glob_set(patterns) {
        Ok(set) => Ok(set),
        Err(e) => Err(WatcherError::Glob(e)),
    }
}

/// When a tick starts a run: no run is going on, and the window of the pending one has
/// passed. A change seen while no run is going opens the window anew, so only an empty
/// window has passed at once.
pub proof fn law_runs_start_when_the_window_has_passed(pane: WatcherPane, input: WatcherInput)
    ensures
        ({
            let going = pane.state == WatcherState::Running && input.finished is None;
            let opened = input.had_event && pane.state != WatcherState::Running;
            let passed = if opened {
                pane.debounce_ms == 0 || input.now == u64::MAX
            } else {
                pane.pending_until is Some && pane.pending_until->0 <= input.now
            };
            pane.fires(input) <==> !going && passed
        }),
{
}

/// What a tick leaves: a started run begins with an empty buffer and nothing pending.
/// Else the pane keeps the newest of what was printed; it is idle once a run has ended,
/// and a change opens a window unless a run is going. The end of a run is remembered
/// with its exit code, minus one where it has none.
pub proof fn law_ticks_change_what_was_seen(
    pane: WatcherPane,
    input: WatcherInput,
    post: WatcherPane,
)
    requires
        pane.ticks(input, post),
        pane.buffer@.len() <= 2_000,
    ensures
        ({
            let all = pane.buffer@ + input.output@;
            let opened = input.had_event && pane.state != WatcherState::Running;
            let fired = pane.fires(input);
            &&& post.name == pane.name && post.recipe == pane.recipe && post.globs == pane.globs
                && post.debounce_ms == pane.debounce_ms
            &&& fired ==> post.state == WatcherState::Running && post.buffer@.len() == 0
                && post.pending_until is None && post.last_run_started_at == Some(input.now)
            &&& !fired ==> post.last_run_started_at == pane.last_run_started_at
            &&& !fired && input.finished is Some ==> post.state == WatcherState::Idle
            &&& !fired && input.finished is None && opened ==> post.state
                == WatcherState::Debouncing
            &&& !fired && input.finished is None && !opened ==> post.state == pane.state
            &&& !fired && opened ==> post.pending_until is Some && (input.now + pane.debounce_ms
                <= u64::MAX ==> post.pending_until->0 == input.now + pane.debounce_ms)
            &&& !fired && !opened ==> post.pending_until == pane.pending_until
            &&& !fired && all.len() <= 2_000 ==> post.buffer@ == all
            &&& !fired && all.len() > 2_000 ==> post.buffer@ == all.skip(all.len() - 2_000)
            &&& match input.finished {
                None => post.last_exit_code == pane.last_exit_code && post.last_finished_at
                    == pane.last_finished_at,
                Some(RunOutcome::Exited(code)) => post.last_exit_code == Some(code)
                    && post.last_finished_at == Some(input.now),
                Some(_) => post.last_exit_code == Some(-1i32) && post.last_finished_at == Some(
                    input.now,
                ),
            }
        }),
{
    runner::law_buffer_keeps_the_newest(pane.buffer@, input.output@);
    let all = pane.buffer@ + input.output@;
    assert(all.skip(0) =~= all);
}

/// What is left of a window and the present make its end; nothing is left of one that
/// has passed.
pub proof fn law_windows_run_down(end: u64, now: u64)
    ensures
        now <= end ==> now + window_left(Some(end), now) == end,
        now > end ==> window_left(Some(end), now) == 0,
        window_left(None, now) == 0,
{
}

/// The title of a pane is its name and how it stands.
pub proof fn law_titles_say_how_a_watcher_stands(pane: WatcherPane, seconds: Seq<char>)
    ensures
        ({
            let label = pane.label(seconds);
            let idle = pane.state == WatcherState::Idle;
            let code = pane.last_exit_code;
            &&& idle && code is None ==> label == pane.name@ + " · idle"@
            &&& idle && code == Some(0i32) ==> label == pane.name@ + " · ✓ idle"@
            &&& idle && code is Some && code->0 != 0 ==> label == pane.name@ + " · ✗ "@
                + text::signed_digits(code->0 as int) + " · idle"@
            &&& pane.state == WatcherState::Debouncing ==> label == pane.name@ + " · cooldown ("@
                + seconds + "s)"@
            &&& pane.state == WatcherState::Running ==> label == pane.name@ + " · running ("@
                + seconds + "s)"@
        }),
{
}

/// The globs see a path from the root that leads to it, and another path as it is.
pub proof fn law_globs_see_paths_from_the_root(path: Seq<char>, root: Seq<char>)
    ensures
        paths::below(path, root) is Some ==> watched_path(path, root) == paths::below(path, root)->0,
        paths::below(path, root) is None ==> watched_path(path, root) == path,
{
}

} // verus!
